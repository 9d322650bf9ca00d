//! Session keys: deterministic names for conversations.

use vstd::prelude::*;

use crate::text::{chars_to_string, push_str, replace_char, spec_replace_char, str_chars};

verus! {

/// A textual session key.
#[derive(Debug, Clone, PartialEq, Eq, Hash)]
pub struct SessionKey(pub String);

impl SessionKey {
    /// The shared direct-message session.
    pub fn main_dm() -> (r: Self)
        ensures
            r.0@ == "neko:main"@,
    {
        SessionKey("neko:main".to_owned())
    }

    /// A per-channel-peer direct-message session.
    pub fn channel_peer(channel: &str, peer_id: &str) -> (r: Self)
        ensures
            r.0@ == "neko:"@ + channel@ + ":dm:"@ + peer_id@,
    {
        let mut v = str_chars("neko:");
        push_str(&mut v, channel);
        push_str(&mut v, ":dm:");
        push_str(&mut v, peer_id);
        SessionKey(chars_to_string(&v))
    }

    /// A group session.
    pub fn group(channel: &str, group_id: &str) -> (r: Self)
        ensures
            r.0@ == "neko:"@ + channel@ + ":group:"@ + group_id@,
    {
        let mut v = str_chars("neko:");
        push_str(&mut v, channel);
        push_str(&mut v, ":group:");
        push_str(&mut v, group_id);
        SessionKey(chars_to_string(&v))
    }

    /// The key with colons replaced by underscores, safe as a file name.
    pub fn to_filename(&self) -> (r: String)
        ensures
            r@ == spec_replace_char(self.0@, ':', '_'),
    {
        let cs = str_chars(self.0.as_str());
        let rs = replace_char(&cs, ':', '_');
        chars_to_string(&rs)
    }

    /// The key's text.
    pub fn text(&self) -> (r: &String)
        ensures
            r@ == self.0@,
    {
        &self.0
    }
}

} // verus!
