//! The agent's system instructions and the recall log entry. The caller
//! reads the memory files and hands their contents in; every composition
//! rule, including the core-memory size warning, lives here.

use vstd::prelude::*;

use crate::clock::Civil;
use crate::skills::{spec_skills_xml, skills_to_prompt_xml, Skill};
use crate::text::{
    chars_to_string, push_chars, push_str, spec_dec, spec_dec_pad, spec_truncate, str_chars,
    truncate_chars, u64_chars, u64_chars_pad,
};

verus! {

/// The size, in characters, core memory should stay within.
pub const MAX_CORE_MEMORY_CHARS: usize = 2000;

/// The built-in base instructions, used when the operator supplies none.
pub open spec fn spec_default_instructions() -> Seq<char> {
    "You are Neko, a helpful AI assistant with persistent memory.\n\n## Memory System\nYour memory is file-based in the `memory/` directory:\n- **MEMORY.md** (core memory): Always loaded below. Keep concise (\u{2264}2000 chars). Store key facts and user preferences.\n- **Daily logs** (YYYY-MM-DD.md): Today's and yesterday's logs loaded below. Use for session notes.\n- **Recall** (recall/*.md): Past conversations, auto-logged. Search with `memory_search`.\n\n### Memory Tools\n- `memory_write(file, content, append)` \u{2014} Write/append to a memory file\n- `memory_replace(file, old_text, new_text)` \u{2014} Update or delete facts (empty new_text = delete)\n- `memory_search(query)` \u{2014} Search across all memory files\n\n### Guidelines\n- Update MEMORY.md when you learn important facts about the user\n- Use `memory_replace` to correct outdated info \u{2014} don't let stale facts accumulate\n- Use daily logs for ephemeral notes, MEMORY.md for durable facts\n- Search recall logs when you need context from past conversations\n\nBe concise and helpful."@
}

/// The built-in base instructions.
pub fn default_instructions() -> (r: &'static str)
    ensures
        r@ == spec_default_instructions(),
{
    "You are Neko, a helpful AI assistant with persistent memory.\n\n## Memory System\nYour memory is file-based in the `memory/` directory:\n- **MEMORY.md** (core memory): Always loaded below. Keep concise (\u{2264}2000 chars). Store key facts and user preferences.\n- **Daily logs** (YYYY-MM-DD.md): Today's and yesterday's logs loaded below. Use for session notes.\n- **Recall** (recall/*.md): Past conversations, auto-logged. Search with `memory_search`.\n\n### Memory Tools\n- `memory_write(file, content, append)` \u{2014} Write/append to a memory file\n- `memory_replace(file, old_text, new_text)` \u{2014} Update or delete facts (empty new_text = delete)\n- `memory_search(query)` \u{2014} Search across all memory files\n\n### Guidelines\n- Update MEMORY.md when you learn important facts about the user\n- Use `memory_replace` to correct outdated info \u{2014} don't let stale facts accumulate\n- Use daily logs for ephemeral notes, MEMORY.md for durable facts\n- Search recall logs when you need context from past conversations\n\nBe concise and helpful."
}

/// The core-memory warning line: present exactly when the content exceeds
/// the limit, and carrying both the actual and the allowed size.
pub open spec fn spec_memory_warning(len: nat) -> Seq<char> {
    if len > 2000 {
        "\n\u{26a0} MEMORY.md is "@ + spec_dec(len) + "/2000 chars. Compact it \u{2014} move less-critical info to other files or delete stale entries with memory_replace.\n"@
    } else {
        Seq::empty()
    }
}

/// The persistent-memory section for the given core memory content.
pub open spec fn spec_memory_section(content: Seq<char>) -> Seq<char> {
    "\n## Persistent Memory\n"@ + spec_memory_warning(content.len()) + seq!['\n'] + content
}

/// Render the persistent-memory section. Content exactly at the limit gets
/// no warning; one character over gets the warning with both sizes.
pub fn memory_section(content: &str) -> (r: String)
    ensures
        r@ == spec_memory_section(content@),
{
    let cs = str_chars(content);
    let mut v = str_chars("\n## Persistent Memory\n");
    if cs.len() > MAX_CORE_MEMORY_CHARS {
        push_str(&mut v, "\n\u{26a0} MEMORY.md is ");
        let mut d = u64_chars(cs.len() as u64);
        v.append(&mut d);
        push_str(
            &mut v,
            "/2000 chars. Compact it \u{2014} move less-critical info to other files or delete stale entries with memory_replace.\n",
        );
    }
    v.push('\n');
    push_chars(&mut v, &cs);
    proof {
        assert(v@ =~= spec_memory_section(content@));
    }
    chars_to_string(&v)
}

/// The memory file listing: one line per file with its character count.
pub open spec fn spec_tree_lines(entries: Seq<(Seq<char>, nat)>) -> Seq<char>
    decreases entries.len(),
{
    if entries.len() == 0 {
        Seq::empty()
    } else {
        spec_tree_lines(entries.take(entries.len() - 1)) + "\n  "@ + entries[entries.len() - 1].0
            + " ("@ + spec_dec(entries[entries.len() - 1].1) + " chars)"@
    }
}

/// The models of the listing entries.
pub open spec fn entries_view(s: Seq<(String, usize)>) -> Seq<(Seq<char>, nat)> {
    s.map_values(|e: (String, usize)| (e.0@, e.1 as nat))
}

/// Render the memory file listing for the given entries, in their order;
/// no listing for no entries.
pub fn render_memory_tree(entries: &Vec<(String, usize)>) -> (r: Option<String>)
    ensures
        match r {
            Some(s) => entries@.len() > 0 && s@ == "## Memory Files"@ + spec_tree_lines(
                entries_view(entries@),
            ),
            None => entries@.len() == 0,
        },
{
    if entries.len() == 0 {
        return None;
    }
    let ghost ev = entries_view(entries@);
    proof {
        assert(ev.len() == entries@.len() && forall|i: int|
            0 <= i < entries@.len() ==> ev[i] == ((#[trigger] entries@[i]).0@,
            entries@[i].1 as nat));
    }
    let mut v = str_chars("## Memory Files");
    proof {
        assert(ev.take(0) =~= Seq::<(Seq<char>, nat)>::empty());
        assert(v@ =~= "## Memory Files"@ + spec_tree_lines(ev.take(0)));
    }
    let mut k: usize = 0;
    while k < entries.len()
        invariant
            0 <= k <= entries@.len(),
            ev == entries_view(entries@),
            ev.len() == entries@.len(),
            forall|i: int|
                0 <= i < entries@.len() ==> ev[i] == ((#[trigger] entries@[i]).0@,
                entries@[i].1 as nat),
            v@ == "## Memory Files"@ + spec_tree_lines(ev.take(k as int)),
        decreases entries@.len() - k,
    {
        let ghost v0 = v@;
        push_str(&mut v, "\n  ");
        push_str(&mut v, entries[k].0.as_str());
        push_str(&mut v, " (");
        let mut d = u64_chars(entries[k].1 as u64);
        v.append(&mut d);
        push_str(&mut v, " chars)");
        proof {
            assert(ev.take(k + 1).take(k as int) =~= ev.take(k as int));
            assert(ev.take(k + 1)[k as int] == ev[k as int]);
            assert(v@ =~= v0 + "\n  "@ + ev[k as int].0 + " ("@ + spec_dec(ev[k as int].1)
                + " chars)"@);
            assert(v@ =~= "## Memory Files"@ + spec_tree_lines(ev.take(k + 1)));
        }
        k += 1;
    }
    proof {
        assert(ev.take(entries@.len() as int) =~= ev);
    }
    Some(chars_to_string(&v))
}

/// The number of lines in a text, as an iterator over lines counts them.
pub open spec fn spec_line_count(s: Seq<char>) -> nat {
    if s.len() == 0 {
        0
    } else if s[s.len() - 1] == '\n' {
        count_newlines(s)
    } else {
        count_newlines(s) + 1
    }
}

/// The number of newline characters in a text.
pub open spec fn count_newlines(s: Seq<char>) -> nat
    decreases s.len(),
{
    if s.len() == 0 {
        0
    } else {
        count_newlines(s.take(s.len() - 1)) + (if s[s.len() - 1] == '\n' {
            1nat
        } else {
            0nat
        })
    }
}

/// Whether a daily log is substantial enough to include: more than two
/// lines.
pub fn log_section_wanted(content: &str) -> (r: bool)
    ensures
        r == (spec_line_count(content@) > 2),
{
    let cs = str_chars(content);
    if cs.len() == 0 {
        return false;
    }
    let mut n: u64 = 0;
    let mut k: usize = 0;
    while k < cs.len()
        invariant
            cs@ == content@,
            0 <= k <= cs@.len(),
            n == count_newlines(cs@.take(k as int)),
            n <= k,
        decreases cs@.len() - k,
    {
        if cs[k] == '\n' {
            n = n + 1;
        }
        proof {
            assert(cs@.take(k + 1).take(k as int) =~= cs@.take(k as int));
            assert(cs@.take(k + 1)[k as int] == cs@[k as int]);
        }
        k += 1;
    }
    proof {
        assert(cs@.take(cs@.len() as int) =~= cs@);
    }
    if cs[cs.len() - 1] == '\n' {
        n > 2
    } else {
        n >= 2
    }
}

/// One recall-log block: the time, the user's message, and the assistant's
/// reply cut at five hundred characters.
pub open spec fn spec_recall_entry(
    time: Civil,
    user_message: Seq<char>,
    assistant_response: Seq<char>,
) -> Seq<char> {
    "### "@ + spec_dec_pad(time.hour as nat, 2) + seq![':'] + spec_dec_pad(time.minute as nat, 2)
        + seq![':'] + spec_dec_pad(time.second as nat, 2) + "\n**User:** "@ + user_message
        + "\n**Assistant:** "@ + spec_truncate(assistant_response, 500) + "\n\n"@
}

/// Render one recall-log block.
pub fn recall_entry(time: &Civil, user_message: &str, assistant_response: &str) -> (r: String)
    ensures
        r@ == spec_recall_entry(*time, user_message@, assistant_response@),
{
    let mut v = str_chars("### ");
    let mut h = u64_chars_pad(time.hour as u64, 2);
    v.append(&mut h);
    v.push(':');
    let mut m = u64_chars_pad(time.minute as u64, 2);
    v.append(&mut m);
    v.push(':');
    let mut s = u64_chars_pad(time.second as u64, 2);
    v.append(&mut s);
    push_str(&mut v, "\n**User:** ");
    push_str(&mut v, user_message);
    push_str(&mut v, "\n**Assistant:** ");
    let resp = str_chars(assistant_response);
    let mut cut = truncate_chars(&resp, 500);
    v.append(&mut cut);
    push_str(&mut v, "\n\n");
    proof {
        assert(v@ =~= spec_recall_entry(*time, user_message@, assistant_response@));
    }
    chars_to_string(&v)
}

/// The parts of the system instructions, in order, joined with newlines:
/// the base instructions, the memory listing, the persistent-memory
/// section, the daily logs, and the skills listing.
pub open spec fn spec_instructions(
    base: Seq<char>,
    tree: Option<Seq<char>>,
    memory: Option<Seq<char>>,
    today_log: Option<Seq<char>>,
    yesterday_log: Option<Seq<char>>,
    skills: Seq<Skill>,
) -> Seq<char> {
    let p1 = base;
    let p2 = match tree {
        Some(t) => p1 + seq!['\n'] + seq!['\n'] + t,
        None => p1,
    };
    let p3 = match memory {
        Some(m) => p2 + seq!['\n'] + spec_memory_section(m),
        None => p2,
    };
    let p4 = match today_log {
        Some(l) => p3 + "\n\n## Today's Log\n\n"@ + l,
        None => p3,
    };
    let p5 = match yesterday_log {
        Some(l) => p4 + "\n\n## Yesterday's Log\n\n"@ + l,
        None => p4,
    };
    if spec_skills_xml(skills).len() > 0 {
        p5
            + "\n\n## Available Skills\n\nThe following skills are available. To activate a skill, read its SKILL.md file.\n\n"@
            + spec_skills_xml(skills)
    } else {
        p5
    }
}

/// Build the system instructions from the operator's base (or the built-in
/// default), the memory listing, core memory, the daily logs and the
/// skills.
#[verifier::rlimit(100)]
pub fn build_instructions(
    custom: Option<&String>,
    tree: Option<&String>,
    memory: Option<&String>,
    today_log: Option<&String>,
    yesterday_log: Option<&String>,
    skills: &Vec<Skill>,
) -> (r: String)
    ensures
        r@ == spec_instructions(
            match custom {
                Some(c) => c@,
                None => spec_default_instructions(),
            },
            match tree {
                Some(t) => Some(t@),
                None => None,
            },
            match memory {
                Some(m) => Some(m@),
                None => None,
            },
            match today_log {
                Some(l) => Some(l@),
                None => None,
            },
            match yesterday_log {
                Some(l) => Some(l@),
                None => None,
            },
            skills@,
        ),
{
    let mut v: Vec<char> = match custom {
        Some(c) => str_chars(c.as_str()),
        None => str_chars(default_instructions()),
    };
    match tree {
        Some(t) => {
            v.push('\n');
            v.push('\n');
            push_str(&mut v, t.as_str());
        },
        None => {},
    }
    match memory {
        Some(m) => {
            v.push('\n');
            let sect = memory_section(m.as_str());
            push_str(&mut v, sect.as_str());
        },
        None => {},
    }
    match today_log {
        Some(l) => {
            push_str(&mut v, "\n\n## Today's Log\n\n");
            push_str(&mut v, l.as_str());
        },
        None => {},
    }
    match yesterday_log {
        Some(l) => {
            push_str(&mut v, "\n\n## Yesterday's Log\n\n");
            push_str(&mut v, l.as_str());
        },
        None => {},
    }
    let xml = skills_to_prompt_xml(skills);
    if xml.as_str().unicode_len() > 0 {
        push_str(
            &mut v,
            "\n\n## Available Skills\n\nThe following skills are available. To activate a skill, read its SKILL.md file.\n\n",
        );
        push_str(&mut v, xml.as_str());
    }
    chars_to_string(&v)
}

} // verus!
