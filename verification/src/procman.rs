//! The process manager's bookkeeping: pollable output buffers with cursors,
//! exit status, stdin state and session registration. The caller owns the
//! actual child processes and feeds captured output in; every decision and
//! every buffer computation is made here.

use vstd::prelude::*;

use crate::text::{chars_to_string, push_str, spec_dec, str_chars, u64_chars};

verus! {

/// The output buffer cap: appends stop once the buffer has reached this
/// many characters.
pub const MAX_OUTPUT_CHARS: usize = 1048576;

/// Exited sessions older than this many seconds are removed by the lazy
/// cleanup.
pub const CLEANUP_AGE_SECS: i64 = 300;

/// Whole seconds elapsed since `started`, zero when the clock ran backwards.
pub open spec fn spec_elapsed(now: i64, started: i64) -> u64 {
    if now >= started {
        (now - started) as u64
    } else {
        0
    }
}

/// The data with a newline appended when it does not already end in one.
pub open spec fn with_newline(d: Seq<char>) -> Seq<char> {
    if d.len() > 0 && d[d.len() - 1] == '\n' {
        d
    } else {
        d + seq!['\n']
    }
}

/// One backgrounded command.
pub struct BackgroundSession {
    pub id: String,
    pub command: String,
    pub started_at: i64,
    pub timeout_secs: u64,
    pub output: Vec<char>,
    pub cursor: usize,
    pub exit_status: Option<i32>,
    pub stdin_open: bool,
    /// Everything ever handed out by polling, in order.
    pub polled: Ghost<Seq<char>>,
}

impl BackgroundSession {
    /// The buffer invariant: the cursor never passes the end, and the
    /// slices handed out so far concatenate to exactly the buffer prefix
    /// before the cursor.
    pub open spec fn wf(&self) -> bool {
        &&& self.cursor <= self.output@.len()
        &&& self.polled@ == self.output@.take(self.cursor as int)
        &&& 0 <= self.started_at
    }

    /// Append one captured line to the buffer, with the error-stream prefix
    /// when it came from stderr. Appends are dropped once the buffer has
    /// reached its cap.
    pub fn append_line(&mut self, line: &str, stderr: bool)
        requires
            old(self).wf(),
        ensures
            final(self).wf(),
            final(self).output@ == (if old(self).output@.len() < MAX_OUTPUT_CHARS {
                old(self).output@ + (if stderr {
                    "[stderr] "@
                } else {
                    Seq::<char>::empty()
                }) + line@ + seq!['\n']
            } else {
                old(self).output@
            }),
            final(self).cursor == old(self).cursor,
            final(self).exit_status == old(self).exit_status,
            final(self).polled == old(self).polled,
            final(self).stdin_open == old(self).stdin_open,
            final(self).id == old(self).id,
    {
        if self.output.len() < MAX_OUTPUT_CHARS {
            if stderr {
                push_str(&mut self.output, "[stderr] ");
            }
            push_str(&mut self.output, line);
            self.output.push('\n');
            proof {
                assert(self.polled@ =~= self.output@.take(self.cursor as int));
            }
        }
    }

    /// Hand out the output past the cursor and advance it to the end; also
    /// report the exit status. Polled slices concatenate to a prefix of the
    /// buffer, the whole buffer once the command is done and drained.
    pub fn poll_output(&mut self) -> (r: (String, Option<i32>))
        requires
            old(self).wf(),
        ensures
            final(self).wf(),
            r.0@ == old(self).output@.skip(old(self).cursor as int),
            r.1 == old(self).exit_status,
            final(self).cursor == final(self).output@.len(),
            final(self).cursor >= old(self).cursor,
            final(self).output@ == old(self).output@,
            final(self).polled@ == old(self).polled@ + r.0@,
            final(self).polled@ == final(self).output@,
            final(self).exit_status == old(self).exit_status,
            final(self).stdin_open == old(self).stdin_open,
            final(self).id == old(self).id,
    {
        let mut slice: Vec<char> = Vec::new();
        let mut k: usize = self.cursor;
        while k < self.output.len()
            invariant
                old(self).cursor <= k <= self.output@.len(),
                self == old(self),
                slice@ == self.output@.subrange(self.cursor as int, k as int),
            decreases self.output@.len() - k,
        {
            slice.push(self.output[k]);
            assert(slice@ =~= self.output@.subrange(self.cursor as int, k + 1));
            k += 1;
        }
        proof {
            assert(slice@ =~= self.output@.skip(self.cursor as int));
        }
        self.cursor = self.output.len();
        proof {
            self.polled = Ghost(self.polled@ + slice@);
            assert(self.polled@ =~= self.output@.take(self.cursor as int));
            assert(self.output@.take(self.output@.len() as int) =~= self.output@);
        }
        (chars_to_string(&slice), self.exit_status)
    }

    /// Decide a stdin write: closed stdin is refused; otherwise the data to
    /// write is returned, with a newline appended when it has none, and an
    /// end-of-input request closes the handle.
    pub fn write_stdin(&mut self, data: &str, eof: bool) -> (r: Result<String, String>)
        requires
            old(self).wf(),
        ensures
            final(self).wf(),
            old(self).stdin_open ==> (r matches Ok(text) && text@ == with_newline(data@)
                && final(self).stdin_open == !eof),
            !old(self).stdin_open ==> (r matches Err(m) && m@ == "stdin is closed"@
                && final(self).stdin_open == old(self).stdin_open),
            final(self).output == old(self).output,
            final(self).cursor == old(self).cursor,
            final(self).exit_status == old(self).exit_status,
            final(self).polled == old(self).polled,
    {
        if !self.stdin_open {
            return Err("stdin is closed".to_owned());
        }
        let mut v = str_chars(data);
        if !(v.len() > 0 && v[v.len() - 1] == '\n') {
            v.push('\n');
        }
        if eof {
            self.stdin_open = false;
        }
        Ok(chars_to_string(&v))
    }

    /// Record the child's exit code. Once set, the status never changes.
    pub fn set_exit(&mut self, code: i32)
        requires
            old(self).wf(),
            old(self).exit_status is None,
        ensures
            final(self).wf(),
            final(self).exit_status == Some(code),
            final(self).output == old(self).output,
            final(self).cursor == old(self).cursor,
            final(self).polled == old(self).polled,
            final(self).stdin_open == old(self).stdin_open,
            final(self).id == old(self).id,
    {
        self.exit_status = Some(code);
    }
}

/// A snapshot of one background session for listings.
pub struct SessionInfo {
    pub id: String,
    pub command: String,
    pub elapsed_secs: u64,
    pub exit_status: Option<i32>,
}

/// What became of a spawned command: it finished within the yield budget,
/// or it was backgrounded under a session id.
pub enum SpawnResult {
    Completed { output: String, success: bool },
    Backgrounded { session_id: String, output_so_far: String },
}

/// The process manager: the table of background sessions and the id
/// counter.
pub struct ProcessManager {
    pub sessions: Vec<BackgroundSession>,
    pub next_id: u64,
    pub yield_ms: u64,
}

/// True when some session has this id.
pub open spec fn pm_has_id(ss: Seq<BackgroundSession>, id: Seq<char>) -> bool {
    exists|i: int| 0 <= i < ss.len() && (#[trigger] ss[i]).id@ == id
}

impl ProcessManager {
    /// The manager invariant: every session's buffer invariant holds.
    pub open spec fn wf(&self) -> bool {
        forall|i: int| 0 <= i < self.sessions@.len() ==> (#[trigger] self.sessions@[i]).wf()
    }

    /// An empty manager with the given yield budget.
    pub fn new(yield_ms: u64) -> (r: Self)
        ensures
            r.wf(),
            r.sessions@.len() == 0,
            r.next_id == 1,
            r.yield_ms == yield_ms,
    {
        ProcessManager { sessions: Vec::new(), next_id: 1, yield_ms }
    }

    /// Register a command that exceeded its yield budget: allocate the next
    /// `bg_<n>` id and record the session with the output captured so far.
    pub fn register(
        &mut self,
        command: &str,
        started_at: i64,
        timeout_secs: u64,
        output_so_far: &str,
    ) -> (r: String)
        requires
            old(self).wf(),
            old(self).next_id < u64::MAX,
            0 <= started_at,
        ensures
            final(self).wf(),
            r@ == "bg_"@ + spec_dec(old(self).next_id as nat),
            final(self).next_id == old(self).next_id + 1,
            final(self).sessions@.len() == old(self).sessions@.len() + 1,
            final(self).sessions@.take(old(self).sessions@.len() as int) == old(self).sessions@,
            ({
                let s = final(self).sessions@[old(self).sessions@.len() as int];
                &&& s.id@ == r@
                &&& s.command@ == command@
                &&& s.started_at == started_at
                &&& s.timeout_secs == timeout_secs
                &&& s.output@ == output_so_far@
                &&& s.cursor == 0
                &&& s.exit_status is None
                &&& s.stdin_open
            }),
    {
        let mut idc = str_chars("bg_");
        let mut num = u64_chars(self.next_id);
        idc.append(&mut num);
        let id = chars_to_string(&idc);
        self.next_id = self.next_id + 1;
        let session = BackgroundSession {
            id: id.clone(),
            command: command.to_owned(),
            started_at,
            timeout_secs,
            output: str_chars(output_so_far),
            cursor: 0,
            exit_status: None,
            stdin_open: true,
            polled: Ghost(Seq::empty()),
        };
        let ghost ss0 = self.sessions@;
        self.sessions.push(session);
        proof {
            assert(self.sessions@.take(ss0.len() as int) =~= ss0);
            let s2 = self.sessions@[ss0.len() as int];
            assert(s2.polled@ =~= s2.output@.take(0));
        }
        id
    }

    /// The index of the session with this id.
    pub fn find(&self, id: &str) -> (r: Option<usize>)
        ensures
            match r {
                Some(i) => 0 <= i < self.sessions@.len() && self.sessions@[i as int].id@ == id@,
                None => !pm_has_id(self.sessions@, id@),
            },
    {
        let idc = str_chars(id);
        let mut k: usize = 0;
        while k < self.sessions.len()
            invariant
                0 <= k <= self.sessions@.len(),
                idc@ == id@,
                forall|i: int| 0 <= i < k ==> (#[trigger] self.sessions@[i]).id@ != id@,
            decreases self.sessions@.len() - k,
        {
            let c = str_chars(self.sessions[k].id.as_str());
            if crate::text::chars_eq(&c, &idc) {
                return Some(k);
            }
            k += 1;
        }
        None
    }

    /// Remove the session with this id, if present.
    pub fn remove_session(&mut self, id: &str) -> (r: bool)
        requires
            old(self).wf(),
        ensures
            final(self).wf(),
            final(self).next_id == old(self).next_id,
            !r ==> final(self).sessions@ == old(self).sessions@ && !pm_has_id(
                old(self).sessions@,
                id@,
            ),
            r ==> final(self).sessions@.len() + 1 == old(self).sessions@.len(),
    {
        match self.find(id) {
            Some(i) => {
                let _ = self.sessions.remove(i);
                proof {
                    assert forall|j: int| 0 <= j < self.sessions@.len() implies (
                    #[trigger] self.sessions@[j]).wf() by {
                        if j < i {
                            assert(self.sessions@[j] == old(self).sessions@[j]);
                        } else {
                            assert(self.sessions@[j] == old(self).sessions@[j + 1]);
                        }
                    }
                }
                true
            },
            None => false,
        }
    }

    /// Snapshot every session for a listing.
    pub fn list_sessions(&self, now: i64) -> (r: Vec<SessionInfo>)
        requires
            self.wf(),
            0 <= now,
        ensures
            r@.len() == self.sessions@.len(),
            forall|i: int|
                0 <= i < r@.len() ==> ({
                    let s = self.sessions@[i];
                    &&& (#[trigger] r@[i]).id@ == s.id@
                    &&& r@[i].command@ == s.command@
                    &&& r@[i].exit_status == s.exit_status
                    &&& r@[i].elapsed_secs == spec_elapsed(now, s.started_at)
                }),
    {
        let mut out: Vec<SessionInfo> = Vec::new();
        let mut k: usize = 0;
        while k < self.sessions.len()
            invariant
                self.wf(),
                0 <= now,
                0 <= k <= self.sessions@.len(),
                out@.len() == k,
                forall|i: int|
                    0 <= i < k ==> ({
                        let s = self.sessions@[i];
                        &&& (#[trigger] out@[i]).id@ == s.id@
                        &&& out@[i].command@ == s.command@
                        &&& out@[i].exit_status == s.exit_status
                        &&& out@[i].elapsed_secs == spec_elapsed(now, s.started_at)
                    }),
            decreases self.sessions@.len() - k,
        {
            let s = &self.sessions[k];
            let elapsed: u64 = if now >= s.started_at {
                (now - s.started_at) as u64
            } else {
                0
            };
            out.push(
                SessionInfo {
                    id: s.id.clone(),
                    command: s.command.clone(),
                    elapsed_secs: elapsed,
                    exit_status: s.exit_status,
                },
            );
            k += 1;
        }
        out
    }

    /// Remove exited sessions older than the cleanup age; running sessions
    /// and young exited sessions stay, in order.
    #[verifier::loop_isolation(false)]
    pub fn cleanup_stale(&mut self, now: i64)
        requires
            old(self).wf(),
            0 <= now,
        ensures
            final(self).wf(),
            final(self).next_id == old(self).next_id,
            final(self).yield_ms == old(self).yield_ms,
            final(self).sessions@ == cleaned(old(self).sessions@, now),
    {
        let ghost ss0 = self.sessions@;
        let mut kept: Vec<BackgroundSession> = Vec::new();
        proof {
            reveal(Seq::filter);
            assert(ss0.take(0) =~= Seq::<BackgroundSession>::empty());
            assert(kept@ =~= cleaned(ss0.take(0), now));
        }
        let ghost k: int = 0;
        while self.sessions.len() > 0
            invariant
                0 <= k <= ss0.len(),
                self.sessions@ =~= ss0.skip(k),
                self.next_id == old(self).next_id,
                self.yield_ms == old(self).yield_ms,
                kept@ == cleaned(ss0.take(k), now),
                forall|i: int| 0 <= i < kept@.len() ==> (#[trigger] kept@[i]).wf(),
            decreases self.sessions@.len(),
        {
            let s = self.sessions.remove(0);
            proof {
                assert(ss0.skip(k)[0] == ss0[k]);
                assert(ss0.skip(k).remove(0) =~= ss0.skip(k + 1));
            }
            let keep = match s.exit_status {
                Some(_) => {
                    let age: i64 = if now >= s.started_at {
                        now - s.started_at
                    } else {
                        0
                    };
                    age < CLEANUP_AGE_SECS
                },
                None => true,
            };
            proof {
                reveal(Seq::filter);
                assert(ss0.take(k + 1).drop_last() =~= ss0.take(k));
                assert(ss0.take(k + 1).last() == ss0[k]);
            }
            if keep {
                kept.push(s);
            }
            proof {
                k = k + 1;
            }
        }
        proof {
            assert(ss0.take(k) =~= ss0);
        }
        self.sessions = kept;
    }
}

/// The table after cleanup: the sessions kept, in order.
pub open spec fn cleaned(ss: Seq<BackgroundSession>, now: i64) -> Seq<BackgroundSession> {
    ss.filter(|s: BackgroundSession| keep_session(s, now))
}

/// True when cleanup keeps a session: it is still running, or it exited
/// less than the cleanup age ago.
pub open spec fn keep_session(s: BackgroundSession, now: i64) -> bool {
    match s.exit_status {
        Some(_) => (if now >= s.started_at {
            now - s.started_at
        } else {
            0
        }) < CLEANUP_AGE_SECS,
        None => true,
    }
}

/// The message for a command that finished with no captured output.
pub fn exit_code_message(code: i32) -> (r: String)
    ensures
        r@ == "Command exited with code "@ + crate::text::spec_i64_dec(code as int),
{
    let mut v = str_chars("Command exited with code ");
    let mut d = crate::text::i64_chars(code as i64);
    v.append(&mut d);
    chars_to_string(&v)
}

} // verus!
