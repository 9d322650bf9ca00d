//! The session store: keyed conversation state with durable append-only
//! transcripts and an atomic metadata snapshot. The store holds and mutates
//! all state; the caller performs the file writes it prescribes.

use vstd::prelude::*;

use crate::clock::{local_civil, spec_compact, utc_civil, Civil, ClockInfo, TS_BOUND};
use crate::config::{DmScope, ResetMode, SessionConfig};
use crate::error::NekoError;
use crate::items::{items_view, lemma_items_view, Item, ItemV, Usage};
use crate::json::{v_obj_get, v_str_field, v_write, Json, JsonV};
use crate::session_key::SessionKey;
use crate::text::{
    chars_eq, chars_to_string, i64_chars, i64_of_token, push_chars, push_str, spec_dec,
    spec_i64_dec, str_chars, u32_of_token, u64_chars,
};

verus! {

/// Metadata of one session.
#[derive(Debug, Clone)]
pub struct SessionMeta {
    pub session_id: String,
    pub key: String,
    pub created_at: i64,
    pub updated_at: i64,
    pub turn_count: u32,
    pub input_tokens: u32,
    pub output_tokens: u32,
    pub channel: Option<String>,
    pub display_name: Option<String>,
    /// The provider's id for the last response, used to chain reasoning
    /// items across turns; cleared on reset.
    pub last_response_id: Option<String>,
}

/// The model of a session's metadata.
#[verifier::ext_equal]
pub struct MetaV {
    pub session_id: Seq<char>,
    pub key: Seq<char>,
    pub created_at: i64,
    pub updated_at: i64,
    pub turn_count: u32,
    pub input_tokens: u32,
    pub output_tokens: u32,
    pub channel: Option<Seq<char>>,
    pub display_name: Option<Seq<char>>,
    pub last_response_id: Option<Seq<char>>,
}

impl View for SessionMeta {
    type V = MetaV;

    open spec fn view(&self) -> MetaV {
        MetaV {
            session_id: self.session_id@,
            key: self.key@,
            created_at: self.created_at,
            updated_at: self.updated_at,
            turn_count: self.turn_count,
            input_tokens: self.input_tokens,
            output_tokens: self.output_tokens,
            channel: match self.channel {
                Some(ref s) => Some(s@),
                None => None,
            },
            display_name: match self.display_name {
                Some(ref s) => Some(s@),
                None => None,
            },
            last_response_id: match self.last_response_id {
                Some(ref s) => Some(s@),
                None => None,
            },
        }
    }
}

/// One live session: metadata, in-memory history, and the ghost of every
/// item ever appended to its live transcript file.
pub struct Session {
    pub meta: SessionMeta,
    pub history: Vec<Item>,
    pub transcript: Ghost<Seq<ItemV>>,
}

/// The session store.
pub struct SessionStore {
    pub sessions: Vec<Session>,
    pub config: SessionConfig,
}

/// A newly created session: empty, zeroed counters, stamped with `now`.
pub open spec fn fresh_session(
    s: Session,
    id: Seq<char>,
    key: Seq<char>,
    channel: Option<Seq<char>>,
    display_name: Option<Seq<char>>,
    now: i64,
) -> bool {
    &&& s.meta.session_id@ == id
    &&& s.meta.session_id@.len() == 36
    &&& s.meta.key@ == key
    &&& s.meta.created_at == now
    &&& s.meta.updated_at == now
    &&& s.meta.turn_count == 0
    &&& s.meta.input_tokens == 0
    &&& s.meta.output_tokens == 0
    &&& s.meta.last_response_id is None
    &&& s.meta@.channel == channel
    &&& s.meta@.display_name == display_name
    &&& s.history@.len() == 0
    &&& s.transcript@.len() == 0
}

/// True when some session has this id.
pub open spec fn has_id(ss: Seq<Session>, id: Seq<char>) -> bool {
    exists|i: int| 0 <= i < ss.len() && (#[trigger] ss[i]).meta.session_id@ == id
}

/// True when some session has this key.
pub open spec fn has_key(ss: Seq<Session>, key: Seq<char>) -> bool {
    exists|i: int| 0 <= i < ss.len() && (#[trigger] ss[i]).meta.key@ == key
}

impl SessionStore {
    /// An empty store under the given policy.
    pub fn new(config: SessionConfig) -> (r: Self)
        ensures
            r.sessions@.len() == 0,
            r.config == config,
    {
        SessionStore { sessions: Vec::new(), config }
    }

    fn find_by_id(&self, session_id: &str) -> (r: Option<usize>)
        ensures
            match r {
                Some(i) => 0 <= i < self.sessions@.len()
                    && self.sessions@[i as int].meta.session_id@ == session_id@,
                None => !has_id(self.sessions@, session_id@),
            },
    {
        let sid = str_chars(session_id);
        let mut k: usize = 0;
        while k < self.sessions.len()
            invariant
                0 <= k <= self.sessions@.len(),
                sid@ == session_id@,
                forall|i: int|
                    0 <= i < k ==> (#[trigger] self.sessions@[i]).meta.session_id@ != session_id@,
            decreases self.sessions@.len() - k,
        {
            let c = str_chars(self.sessions[k].meta.session_id.as_str());
            if chars_eq(&c, &sid) {
                return Some(k);
            }
            k += 1;
        }
        None
    }

    fn find_by_key(&self, key: &str) -> (r: Option<usize>)
        ensures
            match r {
                Some(i) => 0 <= i < self.sessions@.len()
                    && self.sessions@[i as int].meta.key@ == key@,
                None => !has_key(self.sessions@, key@),
            },
    {
        let kc = str_chars(key);
        let mut k: usize = 0;
        while k < self.sessions.len()
            invariant
                0 <= k <= self.sessions@.len(),
                kc@ == key@,
                forall|i: int|
                    0 <= i < k ==> (#[trigger] self.sessions@[i]).meta.key@ != key@,
            decreases self.sessions@.len() - k,
        {
            let c = str_chars(self.sessions[k].meta.key.as_str());
            if chars_eq(&c, &kc) {
                return Some(k);
            }
            k += 1;
        }
        None
    }

    /// Resolve an inbound message to its session key: groups get a group
    /// key; direct messages share one key or get a per-peer key, by policy.
    pub fn resolve_key(
        &self,
        channel: &str,
        sender_id: &str,
        is_group: bool,
        group_id: Option<&str>,
    ) -> (r: SessionKey)
        ensures
            r.0@ == spec_resolve_key(
                self.config.dm_scope,
                channel@,
                sender_id@,
                is_group,
                match group_id {
                    Some(g) => Some(g@),
                    None => None,
                },
            ),
    {
        if is_group {
            match group_id {
                Some(gid) => {
                    return SessionKey::group(channel, gid);
                },
                None => {},
            }
        }
        match self.config.dm_scope {
            DmScope::Main => SessionKey::main_dm(),
            DmScope::PerChannelPeer => SessionKey::channel_peer(channel, sender_id),
        }
    }

    /// The id of the session under this key, if it exists.
    pub fn get_session_id_by_key(&self, key: &SessionKey) -> (r: Option<String>)
        ensures
            match r {
                Some(id) => exists|i: int|
                    0 <= i < self.sessions@.len() && (#[trigger] self.sessions@[i]).meta.key@
                        == key.0@ && self.sessions@[i].meta.session_id@ == id@,
                None => !has_key(self.sessions@, key.0@),
            },
    {
        match self.find_by_key(key.0.as_str()) {
            Some(i) => Some(self.sessions[i].meta.session_id.clone()),
            None => None,
        }
    }

    /// Get the session under this key, creating it when absent. Returns its
    /// id and whether a session was created (the caller then persists the
    /// snapshot).
    pub fn get_or_create(
        &mut self,
        key: &SessionKey,
        channel: Option<&str>,
        display_name: Option<&str>,
        now: i64,
    ) -> (r: (String, bool))
        ensures
            has_key(final(self).sessions@, key.0@),
            final(self).config == old(self).config,
            !r.1 ==> final(self).sessions@ == old(self).sessions@ && exists|i: int|
                0 <= i < old(self).sessions@.len() && (#[trigger] old(self).sessions@[i]).meta.key@
                    == key.0@ && old(self).sessions@[i].meta.session_id@ == r.0@,
            r.1 ==> ({
                &&& !has_key(old(self).sessions@, key.0@)
                &&& final(self).sessions@.len() == old(self).sessions@.len() + 1
                &&& final(self).sessions@.take(old(self).sessions@.len() as int) == old(
                    self,
                ).sessions@
                &&& fresh_session(
                    final(self).sessions@[old(self).sessions@.len() as int],
                    r.0@,
                    key.0@,
                    match channel {
                        Some(c) => Some(c@),
                        None => None,
                    },
                    match display_name {
                        Some(d) => Some(d@),
                        None => None,
                    },
                    now,
                )
            }),
    {
        match self.find_by_key(key.0.as_str()) {
            Some(i) => (self.sessions[i].meta.session_id.clone(), false),
            None => {
                let session_id = crate::clock::new_uuid();
                let meta = SessionMeta {
                    session_id: session_id.clone(),
                    key: key.0.clone(),
                    created_at: now,
                    updated_at: now,
                    turn_count: 0,
                    input_tokens: 0,
                    output_tokens: 0,
                    channel: match channel {
                        Some(c) => Some(c.to_owned()),
                        None => None,
                    },
                    display_name: match display_name {
                        Some(d) => Some(d.to_owned()),
                        None => None,
                    },
                    last_response_id: None,
                };
                let session = Session {
                    meta,
                    history: Vec::new(),
                    transcript: Ghost(Seq::empty()),
                };
                let ghost ss0 = self.sessions@;
                self.sessions.push(session);
                proof {
                    assert(self.sessions@.take(ss0.len() as int) =~= ss0);
                    assert(self.sessions@[ss0.len() as int].meta.key@ == key.0@);
                    assert(has_key(self.sessions@, key.0@));
                }
                (session_id, true)
            },
        }
    }

    /// Install one loaded session verbatim: the decoded metadata and the
    /// items of its transcript file become a live session, with counters
    /// and stamps kept as the snapshot holds them.
    pub fn install_session(&mut self, meta: SessionMeta, history: Vec<Item>)
        ensures
            final(self).config == old(self).config,
            final(self).sessions@.len() == old(self).sessions@.len() + 1,
            final(self).sessions@.take(old(self).sessions@.len() as int) == old(self).sessions@,
            ({
                let s = final(self).sessions@[old(self).sessions@.len() as int];
                &&& s.meta@ == meta@
                &&& s.history@ == history@
                &&& s.transcript@ == items_view(history@)
            }),
    {
        let ghost hv = items_view(history@);
        let session = Session { meta, history, transcript: Ghost(hv) };
        let ghost ss0 = self.sessions@;
        self.sessions.push(session);
        proof {
            assert(self.sessions@.take(ss0.len() as int) =~= ss0);
        }
    }

    /// A copy of the session's history and its last response id.
    pub fn get_history(&self, session_id: &str) -> (r: Result<
        (Vec<Item>, Option<String>),
        NekoError,
    >)
        ensures
            match r {
                Ok(p) => exists|i: int|
                    0 <= i < self.sessions@.len() && (#[trigger] self.sessions@[i]).meta.session_id@
                        == session_id@ && items_view(p.0@) == items_view(
                        self.sessions@[i].history@,
                    ) && (match (p.1, self.sessions@[i].meta.last_response_id) {
                        (Some(a), Some(b)) => a@ == b@,
                        (None, None) => true,
                        _ => false,
                    }),
                Err(_) => !has_id(self.sessions@, session_id@),
            },
    {
        match self.find_by_id(session_id) {
            Some(i) => {
                let history = crate::items::items_clone(&self.sessions[i].history);
                let lrid = match &self.sessions[i].meta.last_response_id {
                    Some(s) => Some(s.clone()),
                    None => None,
                };
                Ok((history, lrid))
            },
            None => Err(session_not_found(session_id)),
        }
    }
}

/// The error for an unknown session id.
fn session_not_found(session_id: &str) -> (e: NekoError)
    ensures
        e matches NekoError::Session(m) && m@ == "Session not found: "@ + session_id@,
{
    let mut v = str_chars("Session not found: ");
    push_str(&mut v, session_id);
    NekoError::Session(chars_to_string(&v))
}

// ---------------------------------------------------------------------------
// Reset policy
// ---------------------------------------------------------------------------
/// True when `a` is a later calendar date than `b`.
pub open spec fn date_after(a: Civil, b: Civil) -> bool {
    ||| a.year > b.year
    ||| (a.year == b.year && a.month > b.month)
    ||| (a.year == b.year && a.month == b.month && a.day > b.day)
}

/// Integer division truncating toward zero, as elapsed minutes are counted.
pub open spec fn div_trunc(a: int, b: int) -> int {
    if a >= 0 {
        a / b
    } else {
        -((-a) / b)
    }
}

/// The reset policy: daily mode triggers when the local date has advanced
/// and the local hour has reached the reset hour; idle mode triggers when
/// the configured idle minutes have elapsed; both mode triggers on either.
pub open spec fn spec_should_reset(
    mode: ResetMode,
    reset_at_hour: u32,
    idle_minutes: Option<u32>,
    now_ts: i64,
    updated_ts: i64,
    now_local: Civil,
    updated_local: Civil,
) -> bool {
    let daily = (mode == ResetMode::Daily || mode == ResetMode::Both) && date_after(
        now_local,
        updated_local,
    ) && now_local.hour >= reset_at_hour;
    let idle = (mode == ResetMode::Idle || mode == ResetMode::Both) && idle_minutes is Some
        && div_trunc(now_ts - updated_ts, 60) >= idle_minutes.unwrap();
    daily || idle
}

/// Decide the reset policy for one session.
pub fn should_reset(
    mode: ResetMode,
    reset_at_hour: u32,
    idle_minutes: Option<u32>,
    now_ts: i64,
    updated_ts: i64,
    now_local: Civil,
    updated_local: Civil,
) -> (r: bool)
    requires
        0 <= now_ts < TS_BOUND,
        0 <= updated_ts < TS_BOUND,
    ensures
        r == spec_should_reset(
            mode,
            reset_at_hour,
            idle_minutes,
            now_ts,
            updated_ts,
            now_local,
            updated_local,
        ),
{
    let daily_mode = match mode {
        ResetMode::Daily => true,
        ResetMode::Both => true,
        ResetMode::Idle => false,
    };
    let date_advanced = now_local.year > updated_local.year || (now_local.year
        == updated_local.year && now_local.month > updated_local.month) || (now_local.year
        == updated_local.year && now_local.month == updated_local.month && now_local.day
        > updated_local.day);
    let daily = daily_mode && date_advanced && now_local.hour >= reset_at_hour;
    let idle_mode = match mode {
        ResetMode::Idle => true,
        ResetMode::Both => true,
        ResetMode::Daily => false,
    };
    let idle = match idle_minutes {
        Some(mins) => {
            let diff: i64 = now_ts - updated_ts;
            let elapsed_minutes: i64 = if diff >= 0 {
                diff / 60
            } else {
                -((-diff) / 60)
            };
            idle_mode && elapsed_minutes >= mins as i64
        },
        None => false,
    };
    daily || idle
}

/// Resetting and immediately checking the policy again does not trigger,
/// except under an idle policy of zero minutes.
pub proof fn lemma_no_reset_after_reset(
    mode: ResetMode,
    reset_at_hour: u32,
    idle_minutes: Option<u32>,
    now_ts: i64,
    now_local: Civil,
)
    requires
        idle_minutes != Some(0u32),
    ensures
        !spec_should_reset(mode, reset_at_hour, idle_minutes, now_ts, now_ts, now_local, now_local),
{
}

/// Resetting twice with the same clock reading leaves the same state as
/// resetting once.
pub proof fn lemma_reset_idempotent(a: Session, b: Session, c: Session, now: i64)
    requires
        session_reset(a, b, now),
        session_reset(b, c, now),
    ensures
        c.meta@ == b.meta@,
        c.history@.len() == b.history@.len(),
        c.transcript@ == b.transcript@,
{
    assert(c.meta@ =~= b.meta@);
}

/// Between persist points the update time and the turn counter never move
/// backwards: folding in a turn at a clock reading no earlier than the last
/// one only grows them.
pub proof fn lemma_meta_monotonic(
    m: MetaV,
    n: MetaV,
    usage: Option<Usage>,
    lrid: Option<Seq<char>>,
    now: i64,
)
    requires
        meta_after_update(m, n, usage, lrid, now),
        now >= m.updated_at,
    ensures
        n.updated_at >= m.updated_at,
        n.turn_count >= m.turn_count,
        n.input_tokens >= m.input_tokens,
        n.output_tokens >= m.output_tokens,
{
}

/// The name of a session's live transcript file.
pub fn transcript_filename(session_id: &str) -> (r: String)
    ensures
        r@ == session_id@ + ".jsonl"@,
{
    let mut v = str_chars(session_id);
    push_str(&mut v, ".jsonl");
    chars_to_string(&v)
}

/// A rename the caller must perform: the live transcript moves to an
/// archived name.
pub struct ArchiveAction {
    pub from: String,
    pub to: String,
}

/// A session's metadata after a completed turn is folded in: counters grow
/// (saturating), the update time moves to `now`, and the response id is
/// replaced.
pub open spec fn meta_after_update(
    m: MetaV,
    n: MetaV,
    usage: Option<Usage>,
    lrid: Option<Seq<char>>,
    now: i64,
) -> bool {
    &&& n.session_id == m.session_id
    &&& n.key == m.key
    &&& n.created_at == m.created_at
    &&& n.updated_at == now
    &&& n.turn_count == (if m.turn_count < u32::MAX {
        (m.turn_count + 1) as u32
    } else {
        u32::MAX
    })
    &&& n.input_tokens == (match usage {
        Some(u) => sat_add_u32(m.input_tokens, u.input_tokens),
        None => m.input_tokens,
    })
    &&& n.output_tokens == (match usage {
        Some(u) => sat_add_u32(m.output_tokens, u.output_tokens),
        None => m.output_tokens,
    })
    &&& n.channel == m.channel
    &&& n.display_name == m.display_name
    &&& n.last_response_id == lrid
}

/// Saturating addition on counters.
pub open spec fn sat_add_u32(a: u32, b: u32) -> u32 {
    if a + b <= u32::MAX {
        (a + b) as u32
    } else {
        u32::MAX
    }
}

fn sat_add(a: u32, b: u32) -> (r: u32)
    ensures
        r == sat_add_u32(a, b),
{
    if a > u32::MAX - b {
        u32::MAX
    } else {
        a + b
    }
}

/// The items a history update appends to the transcript: everything past
/// the previous length, or the whole new history when it is not longer.
pub open spec fn new_items_of(hv: Seq<ItemV>, old_len: nat) -> Seq<ItemV> {
    if hv.len() > old_len {
        hv.skip(old_len as int)
    } else {
        hv
    }
}

/// One update's effect on a session and the transcript lines it appends.
pub open spec fn update_ok(
    old_s: Session,
    new_s: Session,
    hv: Seq<ItemV>,
    usage: Option<Usage>,
    lrid: Option<Seq<char>>,
    now: i64,
    lines: Seq<String>,
) -> bool {
    let new_items = new_items_of(hv, old_s.history@.len() as nat);
    &&& meta_after_update(old_s.meta@, new_s.meta@, usage, lrid, now)
    &&& items_view(new_s.history@) == hv
    &&& new_s.transcript@ == old_s.transcript@ + new_items
    &&& lines.len() == new_items.len()
    &&& forall|k: int|
        0 <= k < lines.len() ==> (#[trigger] lines[k])@ == v_write(
            crate::items::item_json(new_items[k]),
        )
}

impl SessionStore {
    /// Apply the reset policy to one session; when it triggers, reset the
    /// session and return the rename the caller must perform. An unknown id
    /// reads as no reset, as a concurrent delete would; so does an update
    /// stamp outside the calendar range. The local civil form of the update
    /// stamp depends on the machine's time zone, so the policy tie holds of
    /// some well-formed civil value; when the stamp equals the clock reading
    /// no conversion is made and that value is the clock's own local form.
    pub fn check_reset(&mut self, session_id: &str, now: ClockInfo) -> (r: (
        bool,
        Option<ArchiveAction>,
    ))
        requires
            0 <= now.ts < TS_BOUND,
            crate::clock::wf_civil(now.local),
        ensures
            final(self).config == old(self).config,
            !r.0 ==> final(self).sessions@ == old(self).sessions@ && r.1 is None,
            !has_id(old(self).sessions@, session_id@) ==> !r.0,
            has_id(old(self).sessions@, session_id@) ==> exists|i: int|
                {
                    &&& 0 <= i < old(self).sessions@.len()
                    &&& (#[trigger] old(self).sessions@[i]).meta.session_id@ == session_id@
                    &&& ({
                        let u = old(self).sessions@[i].meta.updated_at;
                        &&& (!(0 <= u < TS_BOUND) ==> !r.0)
                        &&& (0 <= u < TS_BOUND ==> exists|c: Civil|
                            {
                                &&& crate::clock::wf_civil(c)
                                &&& (u == now.ts ==> c == now.local)
                                &&& r.0 == spec_should_reset(
                                    old(self).config.reset_mode,
                                    old(self).config.reset_at_hour,
                                    old(self).config.idle_minutes,
                                    now.ts,
                                    u,
                                    now.local,
                                    c,
                                )
                            })
                    })
                },
            r.0 ==> ({
                &&& final(self).sessions@.len() == old(self).sessions@.len()
                &&& exists|i: int|
                    {
                        &&& 0 <= i < old(self).sessions@.len()
                        &&& (#[trigger] old(self).sessions@[i]).meta.session_id@ == session_id@
                        &&& final(self).sessions@ =~= old(self).sessions@.update(
                            i,
                            final(self).sessions@[i],
                        )
                        &&& session_reset(old(self).sessions@[i], final(self).sessions@[i], now.ts)
                    }
                &&& r.1 matches Some(action) && action.from@ == session_id@ + ".jsonl"@ && exists|
                    c: Civil,
                |
                    crate::clock::wf_civil(c) && action.to@ == session_id@ + "."@ + spec_compact(c)
                        + ".jsonl"@
            }),
    {
        let idx = match self.find_by_id(session_id) {
            Some(i) => i,
            None => {
                return (false, None);
            },
        };
        let updated_ts = self.sessions[idx].meta.updated_at;
        if updated_ts < 0 || updated_ts >= TS_BOUND {
            return (false, None);
        }
        let updated_local: Civil = if updated_ts == now.ts {
            now.local
        } else {
            let civil_ts: i64 = if updated_ts < crate::clock::TS_LOCAL_MIN {
                crate::clock::TS_LOCAL_MIN
            } else if updated_ts >= crate::clock::TS_LOCAL_MAX {
                crate::clock::TS_LOCAL_MAX - 1
            } else {
                updated_ts
            };
            local_civil(civil_ts)
        };
        let trigger = should_reset(
            self.config.reset_mode,
            self.config.reset_at_hour,
            self.config.idle_minutes,
            now.ts,
            updated_ts,
            now.local,
            updated_local,
        );
        if trigger {
            match self.reset(session_id, now) {
                Ok(action) => (true, Some(action)),
                Err(_) => {
                    proof {
                        assert(has_id(old(self).sessions@, session_id@));
                    }
                    (false, None)
                },
            }
        } else {
            (false, None)
        }
    }

    /// Reset a session: clear its history and counters, clear the response
    /// id, stamp the update time, and prescribe archiving its transcript.
    pub fn reset(&mut self, session_id: &str, now: ClockInfo) -> (r: Result<
        ArchiveAction,
        NekoError,
    >)
        requires
            0 <= now.ts < TS_BOUND,
        ensures
            final(self).config == old(self).config,
            match r {
                Ok(action) => {
                    &&& final(self).sessions@.len() == old(self).sessions@.len()
                    &&& exists|i: int|
                        {
                            &&& 0 <= i < old(self).sessions@.len()
                            &&& (#[trigger] old(self).sessions@[i]).meta.session_id@ == session_id@
                            &&& final(self).sessions@ =~= old(self).sessions@.update(
                                i,
                                final(self).sessions@[i],
                            )
                            &&& session_reset(
                                old(self).sessions@[i],
                                final(self).sessions@[i],
                                now.ts,
                            )
                        }
                    &&& action.from@ == session_id@ + ".jsonl"@
                    &&& exists|c: Civil|
                        crate::clock::wf_civil(c) && action.to@ == session_id@ + "."@
                            + spec_compact(c) + ".jsonl"@
                },
                Err(_) => final(self).sessions@ == old(self).sessions@ && !has_id(
                    old(self).sessions@,
                    session_id@,
                ),
            },
    {
        let idx = match self.find_by_id(session_id) {
            Some(i) => i,
            None => {
                return Err(session_not_found(session_id));
            },
        };
        let from = transcript_filename(session_id);
        let stamp = utc_civil(now.ts);
        let compact = crate::clock::compact_timestamp(&stamp);
        let mut to_chars = str_chars(session_id);
        to_chars.push('.');
        push_chars(&mut to_chars, &compact);
        push_str(&mut to_chars, ".jsonl");
        let to = chars_to_string(&to_chars);
        let ghost ss0 = self.sessions@;
        let mut s = self.sessions.remove(idx);
        s.history = Vec::new();
        s.transcript = Ghost(Seq::empty());
        s.meta.updated_at = now.ts;
        s.meta.turn_count = 0;
        s.meta.last_response_id = None;
        self.sessions.insert(idx, s);
        proof {
            reveal_strlit(".");
            assert(self.sessions@ =~= ss0.update(idx as int, self.sessions@[idx as int]));
            assert(to@ =~= session_id@ + "."@ + spec_compact(stamp) + ".jsonl"@);
        }
        Ok(ArchiveAction { from, to })
    }

    /// Install the history returned by a completed turn: compute the newly
    /// appended items, return their transcript lines for the caller to
    /// append, and fold the turn into the metadata.
    pub fn update_history(
        &mut self,
        session_id: &str,
        history: Vec<Item>,
        usage: Option<Usage>,
        last_response_id: Option<String>,
        now: i64,
    ) -> (r: Result<Vec<String>, NekoError>)
        ensures
            final(self).config == old(self).config,
            match r {
                Ok(lines) => {
                    &&& final(self).sessions@.len() == old(self).sessions@.len()
                    &&& exists|i: int|
                        {
                            &&& 0 <= i < old(self).sessions@.len()
                            &&& (#[trigger] old(self).sessions@[i]).meta.session_id@ == session_id@
                            &&& final(self).sessions@ =~= old(self).sessions@.update(
                                i,
                                final(self).sessions@[i],
                            )
                            &&& update_ok(
                                old(self).sessions@[i],
                                final(self).sessions@[i],
                                items_view(history@),
                                usage,
                                match last_response_id {
                                    Some(ref s) => Some(s@),
                                    None => None,
                                },
                                now,
                                lines@,
                            )
                        }
                },
                Err(_) => final(self).sessions@ == old(self).sessions@ && !has_id(
                    old(self).sessions@,
                    session_id@,
                ),
            },
    {
        let idx = match self.find_by_id(session_id) {
            Some(i) => i,
            None => {
                return Err(session_not_found(session_id));
            },
        };
        let ghost ss0 = self.sessions@;
        let mut s = self.sessions.remove(idx);
        let old_len = s.history.len();
        let from: usize = if history.len() > old_len {
            old_len
        } else {
            0
        };
        let lines = encode_lines(&history, from);
        proof {
            lemma_items_view(history@);
        }
        s.transcript = Ghost(s.transcript@ + items_view(history@).skip(from as int));
        s.history = history;
        s.meta.updated_at = now;
        s.meta.turn_count = if s.meta.turn_count < u32::MAX {
            s.meta.turn_count + 1
        } else {
            u32::MAX
        };
        match usage {
            Some(u) => {
                s.meta.input_tokens = sat_add(s.meta.input_tokens, u.input_tokens);
                s.meta.output_tokens = sat_add(s.meta.output_tokens, u.output_tokens);
            },
            None => {},
        }
        s.meta.last_response_id = last_response_id;
        self.sessions.insert(idx, s);
        proof {
            assert(self.sessions@ =~= ss0.update(idx as int, self.sessions@[idx as int]));
            assert(items_view(self.sessions@[idx as int].history@).skip(from as int)
                =~= new_items_of(
                items_view(self.sessions@[idx as int].history@),
                ss0[idx as int].history@.len() as nat,
            ));
        }
        Ok(lines)
    }

    /// Remove one session; returns the transcript file to delete.
    pub fn delete(&mut self, session_id: &str) -> (r: Result<String, NekoError>)
        ensures
            final(self).config == old(self).config,
            match r {
                Ok(name) => {
                    &&& name@ == session_id@ + ".jsonl"@
                    &&& exists|i: int|
                        {
                            &&& 0 <= i < old(self).sessions@.len()
                            &&& (#[trigger] old(self).sessions@[i]).meta.session_id@ == session_id@
                            &&& final(self).sessions@ == old(self).sessions@.remove(i)
                        }
                },
                Err(_) => final(self).sessions@ == old(self).sessions@ && !has_id(
                    old(self).sessions@,
                    session_id@,
                ),
            },
    {
        let idx = match self.find_by_id(session_id) {
            Some(i) => i,
            None => {
                return Err(session_not_found(session_id));
            },
        };
        let _ = self.sessions.remove(idx);
        Ok(transcript_filename(session_id))
    }

    /// Remove every session.
    pub fn clear_all(&mut self)
        ensures
            final(self).sessions@.len() == 0,
            final(self).config == old(self).config,
    {
        self.sessions.clear();
    }

    /// All session metadata, most recently updated first: a permutation of
    /// the live sessions' metadata, complete and without duplication.
    pub fn list(&self) -> (r: Vec<SessionMeta>)
        ensures
            r@.len() == self.sessions@.len(),
            forall|i: int, j: int|
                0 <= i < j < r@.len() ==> (#[trigger] r@[i]).updated_at >= (
                #[trigger] r@[j]).updated_at,
            forall|i: int| 0 <= i < r@.len() ==> from_store(self.sessions@, #[trigger] r@[i]),
            meta_views(r@).to_multiset() == metas_of(self.sessions@).to_multiset(),
    {
        let mut work: Vec<SessionMeta> = Vec::new();
        let mut k: usize = 0;
        while k < self.sessions.len()
            invariant
                0 <= k <= self.sessions@.len(),
                work@.len() == k,
                forall|i: int| 0 <= i < k ==> (#[trigger] work@[i])@ == self.sessions@[i].meta@,
            decreases self.sessions@.len() - k,
        {
            let m = meta_clone(&self.sessions[k].meta);
            work.push(m);
            k += 1;
        }
        proof {
            assert forall|i: int| 0 <= i < work@.len() implies from_store(
                self.sessions@,
                #[trigger] work@[i],
            ) by {
                assert(work@[i]@ == (#[trigger] self.sessions@[i]).meta@);
            }
            assert(meta_views(work@) =~= metas_of(self.sessions@));
        }
        let ghost n = work@.len();
        let mut out: Vec<SessionMeta> = Vec::new();
        proof {
            broadcast use vstd::seq_lib::group_to_multiset_ensures;

            assert(meta_views(out@) =~= Seq::<MetaV>::empty());
            assert(meta_views(out@).to_multiset().add(meta_views(work@).to_multiset())
                =~= metas_of(self.sessions@).to_multiset());
        }
        while work.len() > 0
            invariant
                out@.len() + work@.len() == n,
                n == self.sessions@.len(),
                forall|i: int, j: int|
                    0 <= i < j < out@.len() ==> (#[trigger] out@[i]).updated_at >= (
                    #[trigger] out@[j]).updated_at,
                forall|i: int, j: int|
                    0 <= i < out@.len() && 0 <= j < work@.len() ==> (
                    #[trigger] out@[i]).updated_at >= (#[trigger] work@[j]).updated_at,
                forall|i: int| 0 <= i < out@.len() ==> from_store(self.sessions@, #[trigger] out@[i]),
                forall|i: int| 0 <= i < work@.len() ==> from_store(self.sessions@, #[trigger] work@[i]),
                meta_views(out@).to_multiset().add(meta_views(work@).to_multiset()) == metas_of(
                    self.sessions@,
                ).to_multiset(),
            decreases work@.len(),
        {
            let mut best: usize = 0;
            let mut m: usize = 1;
            while m < work.len()
                invariant
                    0 <= best < work@.len(),
                    1 <= m <= work@.len(),
                    forall|j: int|
                        0 <= j < m ==> work@[best as int].updated_at >= (
                        #[trigger] work@[j]).updated_at,
                decreases work@.len() - m,
            {
                if work[m].updated_at > work[best].updated_at {
                    best = m;
                }
                m += 1;
            }
            let ghost w0 = work@;
            let ghost out0 = out@;
            let picked = work.remove(best);
            out.push(picked);
            proof {
                assert(picked == w0[best as int]);
                assert forall|j: int| 0 <= j < work@.len() implies picked.updated_at >= (
                #[trigger] work@[j]).updated_at by {
                    if j < best {
                        assert(work@[j] == w0[j]);
                    } else {
                        assert(work@[j] == w0[j + 1]);
                    }
                }
                assert forall|i: int| 0 <= i < work@.len() implies from_store(
                    self.sessions@,
                    #[trigger] work@[i],
                ) by {
                    if i < best {
                        assert(work@[i] == w0[i]);
                        assert(from_store(self.sessions@, w0[i]));
                    } else {
                        assert(work@[i] == w0[i + 1]);
                        assert(from_store(self.sessions@, w0[i + 1]));
                    }
                }
                assert forall|i: int| 0 <= i < out@.len() implies from_store(
                    self.sessions@,
                    #[trigger] out@[i],
                ) by {
                    if i < out0.len() {
                        assert(out@[i] == out0[i]);
                        assert(from_store(self.sessions@, out0[i]));
                    } else {
                        assert(out@[i] == w0[best as int]);
                        assert(from_store(self.sessions@, w0[best as int]));
                    }
                }
                broadcast use vstd::seq_lib::group_to_multiset_ensures;

                assert(meta_views(work@) =~= meta_views(w0).remove(best as int));
                assert(meta_views(out@) =~= meta_views(out0).push(picked@));
                assert(meta_views(w0)[best as int] == picked@);
                assert(meta_views(work@).to_multiset() =~= meta_views(w0).to_multiset().remove(
                    picked@,
                ));
                assert(meta_views(out@).to_multiset() =~= meta_views(out0).to_multiset().insert(
                    picked@,
                ));
                assert(meta_views(w0).to_multiset().count(picked@) > 0);
                assert(meta_views(out@).to_multiset().add(meta_views(work@).to_multiset())
                    =~= meta_views(out0).to_multiset().add(meta_views(w0).to_multiset()));
            }
        }
        proof {
            assert(meta_views(work@) =~= Seq::<MetaV>::empty());
            broadcast use vstd::seq_lib::group_to_multiset_ensures;

            assert(meta_views(out@).to_multiset().add(meta_views(work@).to_multiset())
                =~= meta_views(out@).to_multiset());
        }
        out
    }
}

/// True when this metadata value is the metadata of some session in the
/// table.
pub open spec fn from_store(ss: Seq<Session>, m: SessionMeta) -> bool {
    exists|j: int| 0 <= j < ss.len() && m@ == (#[trigger] ss[j]).meta@
}

/// Copy a session's metadata; the copy has the same model.
pub fn meta_clone(m: &SessionMeta) -> (r: SessionMeta)
    ensures
        r@ == m@,
{
    SessionMeta {
        session_id: m.session_id.clone(),
        key: m.key.clone(),
        created_at: m.created_at,
        updated_at: m.updated_at,
        turn_count: m.turn_count,
        input_tokens: m.input_tokens,
        output_tokens: m.output_tokens,
        channel: match &m.channel {
            Some(s) => Some(s.clone()),
            None => None,
        },
        display_name: match &m.display_name {
            Some(s) => Some(s.clone()),
            None => None,
        },
        last_response_id: match &m.last_response_id {
            Some(s) => Some(s.clone()),
            None => None,
        },
    }
}

/// Encode the items of `items[from..]` as transcript lines, one JSON object
/// per item.
pub fn encode_lines(items: &Vec<Item>, from: usize) -> (r: Vec<String>)
    requires
        from <= items@.len(),
    ensures
        r@.len() == items@.len() - from,
        forall|k: int|
            0 <= k < r@.len() ==> (#[trigger] r@[k])@ == v_write(
                crate::items::item_json(items@[from + k]@),
            ),
{
    let mut out: Vec<String> = Vec::new();
    let mut k: usize = from;
    while k < items.len()
        invariant
            from <= k <= items@.len(),
            out@.len() == k - from,
            forall|i: int|
                0 <= i < out@.len() ==> (#[trigger] out@[i])@ == v_write(
                    crate::items::item_json(items@[from + i]@),
                ),
        decreases items@.len() - k,
    {
        let j = crate::items::item_to_json(&items[k]);
        let line = crate::json::write_json_text(&j);
        out.push(line);
        k += 1;
    }
    out
}

/// After a reset: empty history and transcript, zeroed turn counter, cleared
/// response id, update time stamped; identity, creation time, tokens and
/// naming fields unchanged.
pub open spec fn session_reset(old_s: Session, new_s: Session, now: i64) -> bool {
    &&& new_s.history@.len() == 0
    &&& new_s.transcript@.len() == 0
    &&& new_s.meta.turn_count == 0
    &&& new_s.meta.last_response_id is None
    &&& new_s.meta.updated_at == now
    &&& new_s.meta.session_id@ == old_s.meta.session_id@
    &&& new_s.meta.key@ == old_s.meta.key@
    &&& new_s.meta.created_at == old_s.meta.created_at
    &&& new_s.meta.input_tokens == old_s.meta.input_tokens
    &&& new_s.meta.output_tokens == old_s.meta.output_tokens
    &&& new_s.meta@.channel == old_s.meta@.channel
    &&& new_s.meta@.display_name == old_s.meta@.display_name
}

// ---------------------------------------------------------------------------
// The snapshot codec
// ---------------------------------------------------------------------------
/// An optional string written as JSON: null when absent.
pub open spec fn opt_str_json(o: Option<Seq<char>>) -> JsonV {
    match o {
        Some(s) => JsonV::Str(s),
        None => JsonV::Null,
    }
}

/// The JSON shape of one session's metadata.
pub open spec fn meta_json(m: MetaV) -> JsonV {
    JsonV::Obj(
        seq![
            ("session_id"@, JsonV::Str(m.session_id)),
            ("key"@, JsonV::Str(m.key)),
            ("created_at"@, JsonV::Num(spec_i64_dec(m.created_at as int))),
            ("updated_at"@, JsonV::Num(spec_i64_dec(m.updated_at as int))),
            ("turn_count"@, JsonV::Num(spec_dec(m.turn_count as nat))),
            ("input_tokens"@, JsonV::Num(spec_dec(m.input_tokens as nat))),
            ("output_tokens"@, JsonV::Num(spec_dec(m.output_tokens as nat))),
            ("channel"@, opt_str_json(m.channel)),
            ("display_name"@, opt_str_json(m.display_name)),
            ("last_response_id"@, opt_str_json(m.last_response_id)),
        ],
    )
}

/// An optional string read from JSON: null or absent is `None`, a string is
/// its value, anything else fails.
pub open spec fn opt_str_of(fields: Seq<(Seq<char>, JsonV)>, key: Seq<char>) -> Option<
    Option<Seq<char>>,
> {
    match v_obj_get(fields, key) {
        None => Some(None),
        Some(JsonV::Null) => Some(None),
        Some(JsonV::Str(s)) => Some(Some(s)),
        Some(_) => None,
    }
}

/// A required string field.
pub open spec fn req_str_of(fields: Seq<(Seq<char>, JsonV)>, key: Seq<char>) -> Option<Seq<char>> {
    match v_obj_get(fields, key) {
        Some(JsonV::Str(s)) => Some(s),
        _ => None,
    }
}

/// A required signed number field.
pub open spec fn req_i64_of(fields: Seq<(Seq<char>, JsonV)>, key: Seq<char>) -> Option<i64> {
    match v_obj_get(fields, key) {
        Some(JsonV::Num(t)) => i64_of_token(t),
        _ => None,
    }
}

/// A required unsigned counter field.
pub open spec fn req_u32_of(fields: Seq<(Seq<char>, JsonV)>, key: Seq<char>) -> Option<u32> {
    match v_obj_get(fields, key) {
        Some(JsonV::Num(t)) => u32_of_token(t),
        _ => None,
    }
}

/// The metadata a JSON value decodes to.
pub open spec fn meta_of_json(jv: JsonV) -> Option<MetaV> {
    match jv {
        JsonV::Obj(fs) => {
            match (
                req_str_of(fs, "session_id"@),
                req_str_of(fs, "key"@),
                req_i64_of(fs, "created_at"@),
                req_i64_of(fs, "updated_at"@),
                req_u32_of(fs, "turn_count"@),
                req_u32_of(fs, "input_tokens"@),
                req_u32_of(fs, "output_tokens"@),
                opt_str_of(fs, "channel"@),
                opt_str_of(fs, "display_name"@),
                opt_str_of(fs, "last_response_id"@),
            ) {
                (
                    Some(session_id),
                    Some(key),
                    Some(created_at),
                    Some(updated_at),
                    Some(turn_count),
                    Some(input_tokens),
                    Some(output_tokens),
                    Some(channel),
                    Some(display_name),
                    Some(last_response_id),
                ) => Some(
                    MetaV {
                        session_id,
                        key,
                        created_at,
                        updated_at,
                        turn_count,
                        input_tokens,
                        output_tokens,
                        channel,
                        display_name,
                        last_response_id,
                    },
                ),
                _ => None,
            }
        },
        _ => None,
    }
}

proof fn key_neq_len(a: Seq<char>, b: Seq<char>)
    requires
        a.len() != b.len(),
    ensures
        a != b,
{
    if a == b {
        assert(a.len() == b.len());
    }
}

proof fn key_neq_head(a: Seq<char>, b: Seq<char>)
    requires
        a.len() > 0,
        b.len() > 0,
        a[0] != b[0],
    ensures
        a != b,
{
    if a == b {
        assert(a[0] == b[0]);
    }
}

/// Written metadata reads back as itself: the snapshot loses nothing.
pub proof fn lemma_meta_round_trip(m: MetaV)
    ensures
        meta_of_json(meta_json(m)) == Some(m),
{
    reveal_with_fuel(crate::json::v_obj_get, 12);
    crate::text::lemma_i64_token_round(m.created_at);
    crate::text::lemma_i64_token_round(m.updated_at);
    crate::text::lemma_u32_token_round(m.turn_count);
    crate::text::lemma_u32_token_round(m.input_tokens);
    crate::text::lemma_u32_token_round(m.output_tokens);
    let fs = meta_json(m)->Obj_0;
    assert(fs.skip(1)[0] == fs[1]);
    assert(fs.skip(1).skip(1)[0] == fs[2]);
    assert(fs.skip(1).skip(1).skip(1)[0] == fs[3]);
    assert(fs.skip(1).skip(1).skip(1).skip(1)[0] == fs[4]);
    assert(fs.skip(1).skip(1).skip(1).skip(1).skip(1)[0] == fs[5]);
    assert(fs.skip(1).skip(1).skip(1).skip(1).skip(1).skip(1)[0] == fs[6]);
    assert(fs.skip(1).skip(1).skip(1).skip(1).skip(1).skip(1).skip(1)[0] == fs[7]);
    assert(fs.skip(1).skip(1).skip(1).skip(1).skip(1).skip(1).skip(1).skip(1)[0] == fs[8]);
    assert(fs.skip(1).skip(1).skip(1).skip(1).skip(1).skip(1).skip(1).skip(1).skip(1)[0] == fs[9]);
    reveal_strlit("session_id");
    reveal_strlit("key");
    reveal_strlit("created_at");
    reveal_strlit("updated_at");
    reveal_strlit("turn_count");
    reveal_strlit("input_tokens");
    reveal_strlit("output_tokens");
    reveal_strlit("channel");
    reveal_strlit("display_name");
    reveal_strlit("last_response_id");
    key_neq_len("session_id"@, "key"@);
    key_neq_head("session_id"@, "created_at"@);
    key_neq_len("key"@, "created_at"@);
    key_neq_head("session_id"@, "updated_at"@);
    key_neq_len("key"@, "updated_at"@);
    key_neq_head("created_at"@, "updated_at"@);
    key_neq_head("session_id"@, "turn_count"@);
    key_neq_len("key"@, "turn_count"@);
    key_neq_head("created_at"@, "turn_count"@);
    key_neq_head("updated_at"@, "turn_count"@);
    key_neq_len("session_id"@, "input_tokens"@);
    key_neq_len("key"@, "input_tokens"@);
    key_neq_len("created_at"@, "input_tokens"@);
    key_neq_len("updated_at"@, "input_tokens"@);
    key_neq_len("turn_count"@, "input_tokens"@);
    key_neq_len("session_id"@, "output_tokens"@);
    key_neq_len("key"@, "output_tokens"@);
    key_neq_len("created_at"@, "output_tokens"@);
    key_neq_len("updated_at"@, "output_tokens"@);
    key_neq_len("turn_count"@, "output_tokens"@);
    key_neq_len("input_tokens"@, "output_tokens"@);
    key_neq_len("session_id"@, "channel"@);
    key_neq_len("key"@, "channel"@);
    key_neq_len("created_at"@, "channel"@);
    key_neq_len("updated_at"@, "channel"@);
    key_neq_len("turn_count"@, "channel"@);
    key_neq_len("input_tokens"@, "channel"@);
    key_neq_len("output_tokens"@, "channel"@);
    key_neq_len("session_id"@, "display_name"@);
    key_neq_len("key"@, "display_name"@);
    key_neq_len("created_at"@, "display_name"@);
    key_neq_len("updated_at"@, "display_name"@);
    key_neq_len("turn_count"@, "display_name"@);
    key_neq_head("input_tokens"@, "display_name"@);
    key_neq_len("output_tokens"@, "display_name"@);
    key_neq_len("channel"@, "display_name"@);
    key_neq_len("session_id"@, "last_response_id"@);
    key_neq_len("key"@, "last_response_id"@);
    key_neq_len("created_at"@, "last_response_id"@);
    key_neq_len("updated_at"@, "last_response_id"@);
    key_neq_len("turn_count"@, "last_response_id"@);
    key_neq_len("input_tokens"@, "last_response_id"@);
    key_neq_len("output_tokens"@, "last_response_id"@);
    key_neq_len("channel"@, "last_response_id"@);
    key_neq_len("display_name"@, "last_response_id"@);
    assert(req_str_of(fs, "session_id"@) == Some(m.session_id));
    assert(req_str_of(fs, "key"@) == Some(m.key));
    assert(req_i64_of(fs, "created_at"@) == Some(m.created_at));
    assert(req_i64_of(fs, "updated_at"@) == Some(m.updated_at));
    assert(req_u32_of(fs, "turn_count"@) == Some(m.turn_count));
    assert(req_u32_of(fs, "input_tokens"@) == Some(m.input_tokens));
    assert(req_u32_of(fs, "output_tokens"@) == Some(m.output_tokens));
    assert(opt_str_of(fs, "channel"@) == Some(m.channel));
    assert(opt_str_of(fs, "display_name"@) == Some(m.display_name));
    assert(opt_str_of(fs, "last_response_id"@) == Some(m.last_response_id));
    assert(meta_of_json(meta_json(m)) =~~= Some(m));
}

/// The models of the metadata of a table's sessions.
pub open spec fn metas_of(ss: Seq<Session>) -> Seq<MetaV> {
    ss.map_values(|s: Session| s.meta@)
}

/// The models of a list of metadata values.
pub open spec fn meta_views(ms: Seq<SessionMeta>) -> Seq<MetaV> {
    ms.map_values(|m: SessionMeta| m@)
}

/// The snapshot's JSON shape: one field per session, keyed by session key.
pub open spec fn snapshot_json(ms: Seq<MetaV>) -> JsonV {
    JsonV::Obj(ms.map_values(|m: MetaV| (m.key, meta_json(m))))
}

/// The metadata list a snapshot decodes to, field order kept.
pub open spec fn metas_of_snapshot(jv: JsonV) -> Option<Seq<MetaV>> {
    match jv {
        JsonV::Obj(fs) => metas_of_fields(fs),
        _ => None,
    }
}

/// Decode the fields of a snapshot object, in order.
pub open spec fn metas_of_fields(fs: Seq<(Seq<char>, JsonV)>) -> Option<Seq<MetaV>>
    decreases fs.len(),
{
    if fs.len() == 0 {
        Some(Seq::empty())
    } else {
        match (metas_of_fields(fs.take(fs.len() - 1)), meta_of_json(fs[fs.len() - 1].1)) {
            (Some(init), Some(last)) => Some(init + seq![last]),
            _ => None,
        }
    }
}

/// The snapshot parses back to exactly the live sessions: every sequence of
/// creations, updates, deletions and clears ends in a table whose snapshot
/// decodes to that table's metadata, in order.
pub proof fn lemma_snapshot_round_trip(ms: Seq<MetaV>)
    ensures
        metas_of_snapshot(snapshot_json(ms)) == Some(ms),
    decreases ms.len(),
{
    let fs = ms.map_values(|m: MetaV| (m.key, meta_json(m)));
    if ms.len() == 0 {
        assert(fs.len() == 0);
        assert(metas_of_fields(fs) =~~= Some(Seq::<MetaV>::empty()));
        assert(Seq::<MetaV>::empty() =~= ms);
    } else {
        lemma_snapshot_round_trip(ms.take(ms.len() - 1));
        let fs0 = ms.take(ms.len() - 1).map_values(|m: MetaV| (m.key, meta_json(m)));
        assert(fs.take(fs.len() - 1) =~= fs0);
        assert(fs[fs.len() - 1] == (ms[ms.len() - 1].key, meta_json(ms[ms.len() - 1])));
        lemma_meta_round_trip(ms[ms.len() - 1]);
        assert(metas_of_fields(fs) =~~= Some(
            ms.take(ms.len() - 1) + seq![ms[ms.len() - 1]],
        ));
        assert(ms.take(ms.len() - 1) + seq![ms[ms.len() - 1]] =~= ms);
    }
}

/// Encode one session's metadata as a JSON value.
pub fn meta_to_json(m: &SessionMeta) -> (r: Json)
    ensures
        r@ == meta_json(m@),
{
    let mut fields: Vec<(Vec<char>, Json)> = Vec::new();
    fields.push((str_chars("session_id"), Json::Str(str_chars(m.session_id.as_str()))));
    fields.push((str_chars("key"), Json::Str(str_chars(m.key.as_str()))));
    fields.push((str_chars("created_at"), Json::Num(i64_chars(m.created_at))));
    fields.push((str_chars("updated_at"), Json::Num(i64_chars(m.updated_at))));
    fields.push((str_chars("turn_count"), Json::Num(u64_chars(m.turn_count as u64))));
    fields.push((str_chars("input_tokens"), Json::Num(u64_chars(m.input_tokens as u64))));
    fields.push((str_chars("output_tokens"), Json::Num(u64_chars(m.output_tokens as u64))));
    fields.push((str_chars("channel"), opt_str_to_json(&m.channel)));
    fields.push((str_chars("display_name"), opt_str_to_json(&m.display_name)));
    fields.push((str_chars("last_response_id"), opt_str_to_json(&m.last_response_id)));
    let r = Json::Obj(fields);
    proof {
        let fs = r->Obj_0;
        crate::json::lemma_obj_view(fs@);
        assert(crate::json::obj_view(fs@) =~~= meta_json(m@)->Obj_0);
    }
    r
}

/// Encode an optional string as JSON: null when absent.
pub fn opt_str_to_json(o: &Option<String>) -> (r: Json)
    ensures
        r@ == opt_str_json(
            match o {
                Some(s) => Some(s@),
                None => None,
            },
        ),
{
    match o {
        Some(s) => Json::Str(str_chars(s.as_str())),
        None => Json::Null,
    }
}

impl SessionStore {
    /// The `sessions.json` snapshot text for the live sessions. The caller
    /// writes it to a temporary file and renames it into place.
    pub fn snapshot(&self) -> (r: String)
        ensures
            r@ == v_write(snapshot_json(metas_of(self.sessions@))),
    {
        let mut fields: Vec<(Vec<char>, Json)> = Vec::new();
        let ghost ms = metas_of(self.sessions@);
        let mut k: usize = 0;
        while k < self.sessions.len()
            invariant
                0 <= k <= self.sessions@.len(),
                ms == metas_of(self.sessions@),
                crate::json::obj_view(fields@) =~= ms.map_values(
                    |m: MetaV| (m.key, meta_json(m)),
                ).take(k as int),
            decreases self.sessions@.len() - k,
        {
            proof {
                crate::json::lemma_obj_view(fields@);
            }
            let ghost f0 = crate::json::obj_view(fields@);
            let kc = str_chars(self.sessions[k].meta.key.as_str());
            let mj = meta_to_json(&self.sessions[k].meta);
            fields.push((kc, mj));
            proof {
                crate::json::lemma_obj_view(fields@);
                let pm = ms.map_values(|m: MetaV| (m.key, meta_json(m)));
                assert(pm.len() == ms.len() && forall|i: int|
                    0 <= i < ms.len() ==> pm[i] == (ms[i].key, meta_json(ms[i])));
                assert(ms[k as int] == self.sessions@[k as int].meta@) by {
                    assert(ms.len() == self.sessions@.len() && forall|i: int|
                        0 <= i < ms.len() ==> ms[i] == (#[trigger] self.sessions@[i]).meta@);
                };
                assert(pm.take(k + 1).take(k as int) =~= pm.take(k as int));
                assert(pm.take(k + 1)[k as int] == pm[k as int]);
                assert(crate::json::obj_view(fields@) =~~= pm.take(k + 1));
            }
            k += 1;
        }
        let j = Json::Obj(fields);
        proof {
            let pm = ms.map_values(|m: MetaV| (m.key, meta_json(m)));
            assert(pm.take(ms.len() as int) =~= pm);
            assert(j@ =~~= snapshot_json(ms));
        }
        crate::json::write_json_text(&j)
    }
}

fn opt_str_of_json(fields: &Vec<(Vec<char>, Json)>, key: &str) -> (r: Option<Option<String>>)
    ensures
        match r {
            Some(Some(s)) => opt_str_of(crate::json::obj_view(fields@), key@) == Some(Some(s@)),
            Some(None) => opt_str_of(crate::json::obj_view(fields@), key@) == Some(
                None::<Seq<char>>,
            ),
            None => opt_str_of(crate::json::obj_view(fields@), key@) is None,
        },
{
    proof {
        crate::json::lemma_obj_get_view(fields@, key@);
    }
    match crate::json::obj_get(fields, key) {
        None => Some(None),
        Some(Json::Null) => Some(None),
        Some(Json::Str(s)) => Some(Some(chars_to_string(s))),
        Some(_) => None,
    }
}

/// Decode one session's metadata, per `meta_of_json`.
#[verifier::rlimit(30)]
pub fn meta_from_json(j: &Json) -> (r: Option<SessionMeta>)
    ensures
        match r {
            Some(m) => meta_of_json(j@) == Some(m@),
            None => meta_of_json(j@) is None,
        },
{
    let fields = match j {
        Json::Obj(fields) => fields,
        _ => {
            return None;
        },
    };
    proof {
        crate::json::lemma_obj_get_view(fields@, "session_id"@);
        crate::json::lemma_obj_get_view(fields@, "key"@);
        crate::json::lemma_obj_get_view(fields@, "created_at"@);
        crate::json::lemma_obj_get_view(fields@, "updated_at"@);
        crate::json::lemma_obj_get_view(fields@, "turn_count"@);
        crate::json::lemma_obj_get_view(fields@, "input_tokens"@);
        crate::json::lemma_obj_get_view(fields@, "output_tokens"@);
    }
    let session_id = match crate::json::obj_get(fields, "session_id") {
        Some(Json::Str(s)) => chars_to_string(s),
        _ => {
            return None;
        },
    };
    let key = match crate::json::obj_get(fields, "key") {
        Some(Json::Str(s)) => chars_to_string(s),
        _ => {
            return None;
        },
    };
    let created_at = match crate::json::obj_get(fields, "created_at") {
        Some(Json::Num(t)) => match crate::text::parse_i64(t) {
            Some(v) => v,
            None => {
                return None;
            },
        },
        _ => {
            return None;
        },
    };
    let updated_at = match crate::json::obj_get(fields, "updated_at") {
        Some(Json::Num(t)) => match crate::text::parse_i64(t) {
            Some(v) => v,
            None => {
                return None;
            },
        },
        _ => {
            return None;
        },
    };
    let turn_count = match crate::json::obj_get(fields, "turn_count") {
        Some(Json::Num(t)) => match crate::text::parse_u32(t) {
            Some(v) => v,
            None => {
                return None;
            },
        },
        _ => {
            return None;
        },
    };
    let input_tokens = match crate::json::obj_get(fields, "input_tokens") {
        Some(Json::Num(t)) => match crate::text::parse_u32(t) {
            Some(v) => v,
            None => {
                return None;
            },
        },
        _ => {
            return None;
        },
    };
    let output_tokens = match crate::json::obj_get(fields, "output_tokens") {
        Some(Json::Num(t)) => match crate::text::parse_u32(t) {
            Some(v) => v,
            None => {
                return None;
            },
        },
        _ => {
            return None;
        },
    };
    let channel = match opt_str_of_json(fields, "channel") {
        Some(o) => o,
        None => {
            return None;
        },
    };
    let display_name = match opt_str_of_json(fields, "display_name") {
        Some(o) => o,
        None => {
            return None;
        },
    };
    let last_response_id = match opt_str_of_json(fields, "last_response_id") {
        Some(o) => o,
        None => {
            return None;
        },
    };
    Some(
        SessionMeta {
            session_id,
            key,
            created_at,
            updated_at,
            turn_count,
            input_tokens,
            output_tokens,
            channel,
            display_name,
            last_response_id,
        },
    )
}

/// Decode a whole snapshot, per `metas_of_snapshot`.
#[verifier::loop_isolation(false)]
pub fn snapshot_to_metas(j: &Json) -> (r: Option<Vec<SessionMeta>>)
    ensures
        match r {
            Some(ms) => metas_of_snapshot(j@) == Some(
                ms@.map_values(|m: SessionMeta| m@),
            ),
            None => metas_of_snapshot(j@) is None,
        },
{
    let fields = match j {
        Json::Obj(fields) => fields,
        _ => {
            return None;
        },
    };
    proof {
        crate::json::lemma_obj_view(fields@);
    }
    let ghost fv = crate::json::obj_view(fields@);
    let mut out: Vec<SessionMeta> = Vec::new();
    let mut k: usize = 0;
    proof {
        assert(fv.take(0) =~= Seq::<(Seq<char>, JsonV)>::empty());
    }
    while k < fields.len()
        invariant
            0 <= k <= fields@.len(),
            metas_of_fields(fv.take(k as int)) == Some(
                out@.map_values(|m: SessionMeta| m@),
            ),
        decreases fields@.len() - k,
    {
        match meta_from_json(&fields[k].1) {
            Some(m) => {
                let ghost o0 = out@.map_values(|m2: SessionMeta| m2@);
                out.push(m);
                proof {
                    assert(fv.take(k + 1).take(k as int) =~= fv.take(k as int));
                    assert(fv.take(k + 1)[k as int] == fv[k as int]);
                    assert(fv[k as int].1 == crate::json::json_view(fields@[k as int].1));
                    assert(out@.map_values(|m2: SessionMeta| m2@) =~~= o0 + seq![
                        out@[out@.len() - 1]@,
                    ]);
                }
            },
            None => {
                proof {
                    lemma_metas_poison(fv, k as int);
                }
                return None;
            },
        }
        k += 1;
    }
    proof {
        assert(fv.take(fields@.len() as int) =~= fv);
    }
    Some(out)
}

proof fn lemma_metas_poison(fs: Seq<(Seq<char>, JsonV)>, k: int)
    requires
        0 <= k < fs.len(),
        meta_of_json(fs[k].1) is None,
    ensures
        metas_of_fields(fs) is None,
    decreases fs.len(),
{
    if k < fs.len() - 1 {
        assert(fs.take(fs.len() - 1)[k] == fs[k]);
        lemma_metas_poison(fs.take(fs.len() - 1), k);
    }
}

/// Parse one transcript line into an item. A parsed item is always
/// well-formed, so it survives a rewrite unchanged; and a line this
/// runtime's writer emitted parses back to exactly the item it encoded,
/// so the transcript loses nothing across a save and a load.
pub fn parse_transcript_line(line: &str) -> (r: Option<Item>)
    ensures
        r matches Some(i) ==> crate::items::wf_item(i@),
        forall|iv: ItemV|
            #![trigger crate::items::item_json(iv)]
            crate::items::wf_item(iv) && crate::json::wf_text(crate::items::item_json(iv)) && line@
                == v_write(crate::items::item_json(iv)) ==> (r matches Some(i) && i@ == iv),
{
    let j = match crate::json::parse_json_text(line) {
        Some(j) => j,
        None => {
            proof {
                assert forall|iv: ItemV|
                    !(crate::items::wf_item(iv) && crate::json::wf_text(
                        #[trigger] crate::items::item_json(iv),
                    ) && line@ == v_write(crate::items::item_json(iv))) by {
                    if crate::items::wf_item(iv) && crate::json::wf_text(
                        crate::items::item_json(iv),
                    ) && line@ == v_write(crate::items::item_json(iv)) {
                        assert(false);
                    }
                }
            }
            return None;
        },
    };
    let r = crate::items::item_of_json(&j);
    proof {
        assert forall|iv: ItemV|
            crate::items::wf_item(iv) && crate::json::wf_text(
                #[trigger] crate::items::item_json(iv),
            ) && line@ == v_write(crate::items::item_json(iv)) implies (r matches Some(i) && i@
            == iv) by {
            assert(j@ == crate::items::item_json(iv));
            crate::items::lemma_item_round_trip(iv);
        }
    }
    match r {
        Some(i) => Some(i),
        None => None,
    }
}

/// The session key for an inbound message, by scope policy.
pub open spec fn spec_resolve_key(
    scope: DmScope,
    channel: Seq<char>,
    sender_id: Seq<char>,
    is_group: bool,
    group_id: Option<Seq<char>>,
) -> Seq<char> {
    if is_group && group_id is Some {
        "neko:"@ + channel + ":group:"@ + group_id.unwrap()
    } else if scope == DmScope::Main {
        "neko:main"@
    } else {
        "neko:"@ + channel + ":dm:"@ + sender_id
    }
}

} // verus!
