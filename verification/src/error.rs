//! The single error type shared by every component of the runtime.

use vstd::prelude::*;

verus! {

/// One error kind per component, each carrying a human-readable message.
#[derive(Debug, Clone)]
pub enum NekoError {
    Config(String),
    Llm(String),
    Tool(String),
    Memory(String),
    Session(String),
    Agent(String),
    Channel(String),
    Io(String),
    Http(String),
    Json(String),
    Toml(String),
    Cron(String),
}

impl NekoError {
    /// The human-readable message the error carries, without its kind prefix.
    pub fn message(&self) -> (r: &String)
        ensures
            r@ == self.spec_message(),
    {
        match self {
            NekoError::Config(m) => m,
            NekoError::Llm(m) => m,
            NekoError::Tool(m) => m,
            NekoError::Memory(m) => m,
            NekoError::Session(m) => m,
            NekoError::Agent(m) => m,
            NekoError::Channel(m) => m,
            NekoError::Io(m) => m,
            NekoError::Http(m) => m,
            NekoError::Json(m) => m,
            NekoError::Toml(m) => m,
            NekoError::Cron(m) => m,
        }
    }

    /// The message the error carries, as a sequence of characters.
    pub open spec fn spec_message(&self) -> Seq<char> {
        match self {
            NekoError::Config(m) => m@,
            NekoError::Llm(m) => m@,
            NekoError::Tool(m) => m@,
            NekoError::Memory(m) => m@,
            NekoError::Session(m) => m@,
            NekoError::Agent(m) => m@,
            NekoError::Channel(m) => m@,
            NekoError::Io(m) => m@,
            NekoError::Http(m) => m@,
            NekoError::Json(m) => m@,
            NekoError::Toml(m) => m@,
            NekoError::Cron(m) => m@,
        }
    }
}

} // verus!
