//! A small JSON value tree, with a verified writer and parser.
//!
//! Every on-disk artefact of the runtime (transcript lines, the session
//! snapshot, the job list, the audit log) is JSON in a shape this project
//! defines, so the codec is the project's own logic. Number tokens are kept
//! verbatim so foreign values round-trip without numeric re-interpretation.

use vstd::prelude::*;

use crate::text::{chars_eq, push_str, str_chars, u64_chars};

verus! {

/// A JSON value. Object fields keep their order; number tokens are raw text.
pub enum Json {
    Null,
    Bool(bool),
    Num(Vec<char>),
    Str(Vec<char>),
    Arr(Vec<Json>),
    Obj(Vec<(Vec<char>, Json)>),
}

// ---------------------------------------------------------------------------
// Writer
// ---------------------------------------------------------------------------
/// The hexadecimal digit character for a value below sixteen.
pub open spec fn hex_digit(d: nat) -> char {
    if d == 0 { '0' }
    else if d == 1 { '1' }
    else if d == 2 { '2' }
    else if d == 3 { '3' }
    else if d == 4 { '4' }
    else if d == 5 { '5' }
    else if d == 6 { '6' }
    else if d == 7 { '7' }
    else if d == 8 { '8' }
    else if d == 9 { '9' }
    else if d == 10 { 'a' }
    else if d == 11 { 'b' }
    else if d == 12 { 'c' }
    else if d == 13 { 'd' }
    else if d == 14 { 'e' }
    else { 'f' }
}

/// How one character is written inside a JSON string literal.
pub open spec fn esc_char(c: char) -> Seq<char> {
    if c == '"' {
        seq!['\\', '"']
    } else if c == '\\' {
        seq!['\\', '\\']
    } else if c == '\n' {
        seq!['\\', 'n']
    } else if c == '\r' {
        seq!['\\', 'r']
    } else if c == '\t' {
        seq!['\\', 't']
    } else if (c as nat) < 0x20 {
        seq!['\\', 'u', '0', '0', hex_digit((c as nat) / 16), hex_digit((c as nat) % 16)]
    } else {
        seq![c]
    }
}

/// The body of a JSON string literal for the characters `s`.
pub open spec fn esc_str(s: Seq<char>) -> Seq<char>
    decreases s.len(),
{
    if s.len() == 0 {
        Seq::empty()
    } else {
        esc_char(s[0]) + esc_str(s.skip(1))
    }
}

/// A quoted JSON string literal for the characters `s`.
pub open spec fn quoted(s: Seq<char>) -> Seq<char> {
    seq!['"'] + esc_str(s) + seq!['"']
}

/// The text the writer emits for a JSON value.
pub open spec fn spec_write(j: Json) -> Seq<char>
    decreases j, 2int,
{
    match j {
        Json::Null => seq!['n', 'u', 'l', 'l'],
        Json::Bool(b) => if b {
            seq!['t', 'r', 'u', 'e']
        } else {
            seq!['f', 'a', 'l', 's', 'e']
        },
        Json::Num(tok) => tok@,
        Json::Str(s) => quoted(s@),
        Json::Arr(items) => seq!['['] + spec_write_arr(items@) + seq![']'],
        Json::Obj(fields) => seq!['{'] + spec_write_obj(fields@) + seq!['}'],
    }
}

/// Array elements joined by commas.
pub open spec fn spec_write_arr(s: Seq<Json>) -> Seq<char>
    decreases s, 1int,
{
    if s.len() == 0 {
        Seq::empty()
    } else if s.len() == 1 {
        spec_write(s[0])
    } else {
        spec_write(s[0]) + seq![','] + spec_write_arr(s.skip(1))
    }
}

/// Object fields joined by commas, each written as `"key":value`.
pub open spec fn spec_write_obj(s: Seq<(Vec<char>, Json)>) -> Seq<char>
    decreases s, 1int,
{
    if s.len() == 0 {
        Seq::empty()
    } else if s.len() == 1 {
        quoted(s[0].0@) + seq![':'] + spec_write(s[0].1)
    } else {
        quoted(s[0].0@) + seq![':'] + spec_write(s[0].1) + seq![','] + spec_write_obj(s.skip(1))
    }
}

fn hex_digit_exec(d: u32) -> (r: char)
    requires
        d < 16,
    ensures
        r == hex_digit(d as nat),
{
    if d == 0 { '0' }
    else if d == 1 { '1' }
    else if d == 2 { '2' }
    else if d == 3 { '3' }
    else if d == 4 { '4' }
    else if d == 5 { '5' }
    else if d == 6 { '6' }
    else if d == 7 { '7' }
    else if d == 8 { '8' }
    else if d == 9 { '9' }
    else if d == 10 { 'a' }
    else if d == 11 { 'b' }
    else if d == 12 { 'c' }
    else if d == 13 { 'd' }
    else if d == 14 { 'e' }
    else { 'f' }
}

fn esc_char_exec(c: char) -> (r: Vec<char>)
    ensures
        r@ == esc_char(c),
{
    let mut r: Vec<char> = Vec::new();
    if c == '"' {
        r.push('\\');
        r.push('"');
    } else if c == '\\' {
        r.push('\\');
        r.push('\\');
    } else if c == '\n' {
        r.push('\\');
        r.push('n');
    } else if c == '\r' {
        r.push('\\');
        r.push('r');
    } else if c == '\t' {
        r.push('\\');
        r.push('t');
    } else if (c as u32) < 0x20 {
        r.push('\\');
        r.push('u');
        r.push('0');
        r.push('0');
        r.push(hex_digit_exec((c as u32) / 16));
        r.push(hex_digit_exec((c as u32) % 16));
        assert(((c as u32) / 16) as nat == (c as nat) / 16);
        assert(((c as u32) % 16) as nat == (c as nat) % 16);
    } else {
        r.push(c);
    }
    assert(r@ =~= esc_char(c));
    r
}

/// Append the escaped form of string contents `s` to `out`.
pub fn write_escaped(s: &Vec<char>, out: &mut Vec<char>)
    ensures
        final(out)@ == old(out)@ + esc_str(s@),
{
    let mut k: usize = 0;
    while k < s.len()
        invariant
            0 <= k <= s@.len(),
            out@ == old(out)@ + esc_str(s@.take(k as int)),
        decreases s@.len() - k,
    {
        let mut e = esc_char_exec(s[k]);
        out.append(&mut e);
        proof {
            lemma_esc_str_snoc(s@, k as int);
        }
        assert(out@ =~= old(out)@ + esc_str(s@.take(k + 1)));
        k += 1;
    }
    assert(s@.take(s@.len() as int) =~= s@);
}

proof fn lemma_esc_str_snoc(s: Seq<char>, k: int)
    requires
        0 <= k < s.len(),
    ensures
        esc_str(s.take(k + 1)) == esc_str(s.take(k)) + esc_char(s[k]),
    decreases k,
{
    if k == 0 {
        assert(s.take(1).len() == 1);
        assert(s.take(1)[0] == s[0]);
        assert(s.take(1).skip(1) =~= Seq::<char>::empty());
        assert(esc_str(s.take(1)) == esc_char(s[0]) + esc_str(Seq::<char>::empty()));
        assert(esc_str(s.take(0)) =~= Seq::<char>::empty());
        assert(esc_str(s.take(1)) =~= esc_str(s.take(0)) + esc_char(s[0]));
    } else {
        lemma_esc_str_snoc(s.skip(1), k - 1);
        assert(s.take(k + 1).skip(1) =~= s.skip(1).take(k));
        assert(s.take(k).skip(1) =~= s.skip(1).take(k - 1));
        assert(s.take(k + 1)[0] == s[0]);
        assert(s.take(k)[0] == s[0]);
        assert(s.skip(1)[k - 1] == s[k]);
        assert(esc_str(s.take(k + 1)) == esc_char(s[0]) + esc_str(s.skip(1).take(k)));
        assert(esc_str(s.take(k)) == esc_char(s[0]) + esc_str(s.skip(1).take(k - 1)));
        assert(esc_str(s.take(k + 1)) =~= esc_str(s.take(k)) + esc_char(s[k]));
    }
}

/// Append a quoted string literal for `s` to `out`.
pub fn write_quoted(s: &Vec<char>, out: &mut Vec<char>)
    ensures
        final(out)@ == old(out)@ + quoted(s@),
{
    out.push('"');
    write_escaped(s, out);
    out.push('"');
    assert(final(out)@ =~= old(out)@ + quoted(s@));
}

/// Append the written form of `j` to `out`.
pub fn write_json_into(j: &Json, out: &mut Vec<char>)
    ensures
        final(out)@ == old(out)@ + spec_write(*j),
    decreases j, 2int,
{
    match j {
        Json::Null => {
            push_str(out, "null");
            proof {
                reveal_strlit("null");
            }
            assert(final(out)@ =~= old(out)@ + spec_write(*j));
        },
        Json::Bool(b) => {
            if *b {
                push_str(out, "true");
                proof {
                    reveal_strlit("true");
                }
            } else {
                push_str(out, "false");
                proof {
                    reveal_strlit("false");
                }
            }
            assert(final(out)@ =~= old(out)@ + spec_write(*j));
        },
        Json::Num(tok) => {
            let mut t = tok.clone();
            out.append(&mut t);
        },
        Json::Str(s) => {
            write_quoted(s, out);
        },
        Json::Arr(items) => {
            out.push('[');
            write_arr_into(items, 0, out);
            out.push(']');
            assert(items@.skip(0) =~= items@);
            assert(final(out)@ =~= old(out)@ + spec_write(*j));
        },
        Json::Obj(fields) => {
            out.push('{');
            write_obj_into(fields, 0, out);
            out.push('}');
            assert(fields@.skip(0) =~= fields@);
            assert(final(out)@ =~= old(out)@ + spec_write(*j));
        },
    }
}

fn write_arr_into(items: &Vec<Json>, i: usize, out: &mut Vec<char>)
    requires
        i <= items@.len(),
    ensures
        final(out)@ == old(out)@ + spec_write_arr(items@.skip(i as int)),
    decreases items, 1int, items@.len() - i,
{
    if i < items.len() {
        write_json_into(&items[i], out);
        assert(items@.skip(i as int)[0] == items@[i as int]);
        if i + 1 < items.len() {
            out.push(',');
            write_arr_into(items, i + 1, out);
            assert(items@.skip(i as int).skip(1) =~= items@.skip(i + 1));
            assert(final(out)@ =~= old(out)@ + spec_write_arr(items@.skip(i as int)));
        } else {
            assert(items@.skip(i as int).len() == 1);
        }
    }
}

fn write_obj_into(fields: &Vec<(Vec<char>, Json)>, i: usize, out: &mut Vec<char>)
    requires
        i <= fields@.len(),
    ensures
        final(out)@ == old(out)@ + spec_write_obj(fields@.skip(i as int)),
    decreases fields, 1int, fields@.len() - i,
{
    if i < fields.len() {
        write_quoted(&fields[i].0, out);
        out.push(':');
        write_json_into(&fields[i].1, out);
        assert(fields@.skip(i as int)[0] == fields@[i as int]);
        if i + 1 < fields.len() {
            out.push(',');
            write_obj_into(fields, i + 1, out);
            assert(fields@.skip(i as int).skip(1) =~= fields@.skip(i + 1));
            assert(final(out)@ =~= old(out)@ + spec_write_obj(fields@.skip(i as int)));
        } else {
            assert(fields@.skip(i as int).len() == 1);
        }
    }
}

/// Render a JSON value as text.
pub fn write_json(j: &Json) -> (r: Vec<char>)
    ensures
        r@ == spec_write(*j),
{
    let mut out: Vec<char> = Vec::new();
    write_json_into(j, &mut out);
    out
}

// ---------------------------------------------------------------------------
// Parser
// ---------------------------------------------------------------------------
/// A character's unicode scalar value.
pub open spec fn char_val(c: char) -> nat {
    c as nat
}

/// Relies on `char::from_u32`: `Some` exactly for unicode scalar values, and
/// the result is the one character with the given scalar value.
#[verifier::external_body]
fn char_from_u32(u: u32) -> (r: Option<char>)
    ensures
        r is Some ==> r.unwrap() as nat == u as nat,
        r is Some ==> forall|c2: char| #[trigger] char_val(c2) == u as nat ==> r.unwrap() == c2,
        u < 0xD800 ==> r is Some,
        0xE000 <= u <= 0x10FFFF ==> r is Some,
{
    char::from_u32(u)
}

fn is_ws(c: char) -> (r: bool)
    ensures
        r == crate::text::is_space(c),
{
    c == ' ' || c == '\t' || c == '\n' || c == '\r'
}

fn skip_ws(s: &Vec<char>, pos: usize) -> (r: usize)
    requires
        pos <= s@.len(),
    ensures
        pos <= r <= s@.len(),
        (pos == s@.len() || !crate::text::is_space(s@[pos as int])) ==> r == pos,
{
    let mut p = pos;
    while p < s.len() && is_ws(s[p])
        invariant
            pos <= p <= s@.len(),
            p != pos ==> pos < s@.len() && crate::text::is_space(s@[pos as int]),
        decreases s@.len() - p,
    {
        p += 1;
    }
    p
}

/// The value of a hexadecimal digit character.
pub open spec fn spec_hex_val(c: char) -> Option<u32> {
    if 48 <= c as nat && c as nat <= 57 {
        Some((c as nat - 48) as u32)
    } else if 97 <= c as nat && c as nat <= 102 {
        Some((c as nat - 87) as u32)
    } else if 65 <= c as nat && c as nat <= 70 {
        Some((c as nat - 55) as u32)
    } else {
        None
    }
}

/// The writer's digit reads back as its value.
proof fn lemma_hex_digit_val(d: nat)
    requires
        d < 16,
    ensures
        spec_hex_val(hex_digit(d)) == Some(d as u32),
{
}

fn hex_val(c: char) -> (r: Option<u32>)
    ensures
        r == spec_hex_val(c),
        r is Some ==> r.unwrap() < 16,
{
    let u = c as u32;
    if u >= 48 && u <= 57 {
        Some(u - 48)
    } else if u >= 97 && u <= 102 {
        Some(u - 97 + 10)
    } else if u >= 65 && u <= 70 {
        Some(u - 65 + 10)
    } else {
        None
    }
}

fn parse_hex4(s: &Vec<char>, pos: usize) -> (r: Option<(u32, usize)>)
    requires
        pos <= s@.len(),
    ensures
        r is Some ==> r.unwrap().1 == pos + 4 && pos + 4 <= s@.len() && r.unwrap().0 < 0x10000,
        pos + 4 <= s@.len() ==> r == (match (
            spec_hex_val(s@[pos as int]),
            spec_hex_val(s@[pos + 1]),
            spec_hex_val(s@[pos + 2]),
            spec_hex_val(s@[pos + 3]),
        ) {
            (Some(a), Some(b), Some(c), Some(d)) => Some(
                (((a * 0x1000 + b * 0x100 + c * 0x10 + d) as u32), (pos + 4) as usize),
            ),
            _ => None::<(u32, usize)>,
        }),
{
    if s.len() - pos < 4 {
        return None;
    }
    let d0 = hex_val(s[pos]);
    let d1 = hex_val(s[pos + 1]);
    let d2 = hex_val(s[pos + 2]);
    let d3 = hex_val(s[pos + 3]);
    match (d0, d1, d2, d3) {
        (Some(a), Some(b), Some(c), Some(d)) => Some(
            (a * 0x1000 + b * 0x100 + c * 0x10 + d, pos + 4),
        ),
        _ => None,
    }
}

/// The text from `pos` holds the escaped body of `t` and its closing quote.
pub open spec fn lit_at(s: Seq<char>, pos: int, t: Seq<char>) -> bool {
    &&& 0 <= pos
    &&& pos + esc_str(t).len() + 1 <= s.len()
    &&& s.subrange(pos, pos + esc_str(t).len() + 1) == esc_str(t) + seq!['"']
}

proof fn lemma_esc_str_concat(a: Seq<char>, b: Seq<char>)
    ensures
        esc_str(a + b) == esc_str(a) + esc_str(b),
    decreases a.len(),
{
    if a.len() == 0 {
        assert(a + b =~= b);
        assert(esc_str(a) + esc_str(b) =~= esc_str(b));
    } else {
        lemma_esc_str_concat(a.skip(1), b);
        assert((a + b).skip(1) =~= a.skip(1) + b);
        assert((a + b)[0] == a[0]);
        assert(esc_str(a + b) =~= esc_str(a) + esc_str(b));
    }
}

proof fn lemma_esc_char_shape(c: char)
    ensures
        1 <= esc_char(c).len(),
        esc_char(c)[0] != '"',
        esc_char(c)[0] == '\\' || esc_char(c) =~= seq![c],
        esc_char(c)[0] == '\\' ==> esc_char(c).len() == 2 || esc_char(c).len() == 6,
{
}

/// Unfold the escaped text at one character boundary: what the next
/// characters of the literal are, seen from `n` body characters in.
proof fn lemma_lit_step(s: Seq<char>, pos: int, t: Seq<char>, n: int)
    requires
        lit_at(s, pos, t),
        0 <= n <= t.len(),
    ensures
        esc_str(t).len() == esc_str(t.take(n)).len() + esc_str(t.skip(n)).len(),
        n == t.len() ==> s[pos + esc_str(t.take(n)).len()] == '"' && esc_str(t.take(n)).len()
            == esc_str(t).len(),
        n < t.len() ==> {
            &&& esc_str(t.take(n)).len() + esc_char(t[n]).len() <= esc_str(t).len()
            &&& esc_str(t.take(n + 1)) == esc_str(t.take(n)) + esc_char(t[n])
            &&& forall|j: int|
                0 <= j < esc_char(t[n]).len() ==> s[pos + esc_str(t.take(n)).len() + j]
                    == esc_char(t[n])[j]
        },
{
    assert(t.take(n) + t.skip(n) =~= t);
    lemma_esc_str_concat(t.take(n), t.skip(n));
    let w = esc_str(t) + seq!['"'];
    assert(forall|i: int| 0 <= i < w.len() ==> s[pos + i] == #[trigger] w[i]) by {
        assert(forall|i: int|
            0 <= i < w.len() ==> s.subrange(pos, pos + esc_str(t).len() + 1)[i] == #[trigger] w[i]);
    }
    if n == t.len() {
        assert(t.take(n) =~= t);
        assert(w[esc_str(t).len() as int] == '"');
    } else {
        assert(t.skip(n)[0] == t[n]);
        assert(t.skip(n).skip(1) =~= t.skip(n + 1));
        assert(esc_str(t.skip(n)) == esc_char(t[n]) + esc_str(t.skip(n + 1)));
        assert(t.take(n + 1) =~= t.take(n) + seq![t[n]]);
        lemma_esc_str_concat(t.take(n), seq![t[n]]);
        assert(seq![t[n]].skip(1) =~= Seq::<char>::empty());
        assert(seq![t[n]][0] == t[n]);
        assert(esc_str(seq![t[n]]) == esc_char(t[n]) + esc_str(seq![t[n]].skip(1)));
        assert(esc_str(Seq::<char>::empty()) =~= Seq::<char>::empty());
        assert(esc_str(seq![t[n]]) =~= esc_char(t[n]));
        assert forall|j: int| 0 <= j < esc_char(t[n]).len() implies s[pos + esc_str(t.take(n)).len()
            + j] == esc_char(t[n])[j] by {
            let i = esc_str(t.take(n)).len() + j;
            assert(w[i] == esc_str(t)[i]);
            assert(esc_str(t)[i] == esc_str(t.skip(n))[j]);
            assert(esc_str(t.skip(n))[j] == esc_char(t[n])[j]);
        }
    }
}

/// Parse a string literal body starting just after the opening quote.
/// On success the returned position is just past the closing quote. On a
/// literal the writer emitted, the exact body is recovered.
#[verifier::rlimit(100)]
fn parse_string_body(s: &Vec<char>, pos: usize) -> (r: Option<(Vec<char>, usize)>)
    requires
        pos <= s@.len(),
    ensures
        r is Some ==> pos < r.unwrap().1 <= s@.len(),
        forall|t: Seq<char>|
            #[trigger] lit_at(s@, pos as int, t) ==> (r matches Some(p) && p.0@ == t && p.1 as int
                == pos + esc_str(t).len() + 1),
    decreases s@.len() - pos,
{
    let mut out: Vec<char> = Vec::new();
    let mut p = pos;
    proof {
        assert forall|t: Seq<char>| #[trigger] lit_at(s@, pos as int, t) implies out@.len()
            <= t.len() && out@ == t.take(out@.len() as int) && p - pos == esc_str(
            t.take(out@.len() as int),
        ).len() by {
            assert(t.take(0) =~= Seq::<char>::empty());
            assert(out@ =~= t.take(0));
            assert(esc_str(t.take(0)) =~= Seq::<char>::empty());
        }
    }
    while p < s.len()
        invariant
            pos <= p <= s@.len(),
            forall|t: Seq<char>|
                #[trigger] lit_at(s@, pos as int, t) ==> out@.len() <= t.len() && out@ == t.take(
                    out@.len() as int,
                ) && p - pos == esc_str(t.take(out@.len() as int)).len(),
        decreases s@.len() - p,
    {
        let ghost out0 = out@;
        let ghost p0 = p as int;
        let c = s[p];
        if c == '"' {
            proof {
                assert forall|t: Seq<char>| #[trigger] lit_at(s@, pos as int, t) implies out@ == t
                    && p + 1 == pos + esc_str(t).len() + 1 by {
                    let n = out0.len() as int;
                    lemma_lit_step(s@, pos as int, t, n);
                    if n < t.len() {
                        lemma_esc_char_shape(t[n]);
                        assert(s@[p0] == esc_char(t[n])[0]);
                        assert(false);
                    }
                    assert(t.take(n) =~= t);
                }
            }
            return Some((out, p + 1));
        } else if c == '\\' {
            if p + 1 >= s.len() {
                proof {
                    assert forall|t: Seq<char>| !(#[trigger] lit_at(s@, pos as int, t)) by {
                        if lit_at(s@, pos as int, t) {
                            let n = out0.len() as int;
                            lemma_lit_step(s@, pos as int, t, n);
                            if n == t.len() {
                                assert(s@[p0] == '"');
                            } else {
                                lemma_esc_char_shape(t[n]);
                                assert(s@[p0] == esc_char(t[n])[0]);
                            }
                        }
                    }
                }
                return None;
            }
            let e = s[p + 1];
            if e == '"' || e == '\\' || e == 'n' || e == 'r' || e == 't' {
                let x: char = if e == '"' {
                    '"'
                } else if e == '\\' {
                    '\\'
                } else if e == 'n' {
                    '\n'
                } else if e == 'r' {
                    '\r'
                } else {
                    '\t'
                };
                out.push(x);
                p += 2;
                proof {
                    assert forall|t: Seq<char>| #[trigger] lit_at(s@, pos as int, t) implies
                        out@.len() <= t.len() && out@ == t.take(out@.len() as int) && p - pos
                        == esc_str(t.take(out@.len() as int)).len() by {
                        let n = out0.len() as int;
                        lemma_lit_step(s@, pos as int, t, n);
                        if n == t.len() {
                            assert(s@[p0] == '"');
                            assert(false);
                        }
                        let h = t[n];
                        lemma_esc_char_shape(h);
                        assert(s@[p0] == esc_char(h)[0]);
                        assert(s@[p0 + 1] == esc_char(h)[1]);
                        assert(h == x);
                        assert(out@ =~= t.take(n + 1));
                    }
                }
            } else if e == '/' || e == 'b' || e == 'f' {
                proof {
                    assert forall|t: Seq<char>| !(#[trigger] lit_at(s@, pos as int, t)) by {
                        if lit_at(s@, pos as int, t) {
                            let n = out0.len() as int;
                            lemma_lit_step(s@, pos as int, t, n);
                            if n == t.len() {
                                assert(s@[p0] == '"');
                            } else {
                                let h = t[n];
                                lemma_esc_char_shape(h);
                                assert(s@[p0] == esc_char(h)[0]);
                                assert(s@[p0 + 1] == esc_char(h)[1]);
                            }
                        }
                    }
                }
                if e == '/' {
                    out.push('/');
                } else if e == 'b' {
                    out.push(8 as u8 as char);
                } else {
                    out.push(12 as u8 as char);
                }
                p += 2;
            } else if e == 'u' {
                // On a written literal the escape is `u00` and the
                // hexadecimal form of a control character.
                proof {
                    assert forall|t: Seq<char>| #[trigger] lit_at(s@, pos as int, t) implies ({
                        let n = out0.len() as int;
                        let h = t[n];
                        &&& n < t.len()
                        &&& (h as nat) < 0x20
                        &&& p0 + 6 <= s@.len()
                        &&& s@[p0 + 2] == '0'
                        &&& s@[p0 + 3] == '0'
                        &&& s@[p0 + 4] == hex_digit((h as nat) / 16)
                        &&& s@[p0 + 5] == hex_digit((h as nat) % 16)
                    }) by {
                        let n = out0.len() as int;
                        lemma_lit_step(s@, pos as int, t, n);
                        if n == t.len() {
                            assert(s@[p0] == '"');
                            assert(false);
                        }
                        let h = t[n];
                        lemma_esc_char_shape(h);
                        assert(s@[p0] == esc_char(h)[0]);
                        assert(s@[p0 + 1] == esc_char(h)[1]);
                        assert(esc_char(h).len() == 6);
                        assert(s@[p0 + 2] == esc_char(h)[2]);
                        assert(s@[p0 + 3] == esc_char(h)[3]);
                        assert(s@[p0 + 4] == esc_char(h)[4]);
                        assert(s@[p0 + 5] == esc_char(h)[5]);
                    }
                }
                match parse_hex4(s, p + 2) {
                    None => {
                        proof {
                            assert forall|t: Seq<char>| !(#[trigger] lit_at(s@, pos as int, t)) by {
                                if lit_at(s@, pos as int, t) {
                                    let h = t[out0.len() as int];
                                    lemma_hex_digit_val((h as nat) / 16);
                                    lemma_hex_digit_val((h as nat) % 16);
                                }
                            }
                        }
                        return None;
                    },
                    Some((u1, p1)) => {
                        proof {
                            assert forall|t: Seq<char>| #[trigger] lit_at(s@, pos as int, t)
                                implies ({
                                let h = t[out0.len() as int];
                                u1 as nat == h as nat && u1 < 0x20 && p1 == p0 + 6
                            }) by {
                                let h = t[out0.len() as int];
                                let a = (h as nat) / 16;
                                let b = (h as nat) % 16;
                                assert((h as nat) < 0x20);
                                assert(a < 16 && b < 16) by {
                                    vstd::arithmetic::div_mod::lemma_fundamental_div_mod(
                                        h as int,
                                        16,
                                    );
                                }
                                lemma_hex_digit_val(a);
                                lemma_hex_digit_val(b);
                                assert(s@[p0 + 2] == '0' && s@[p0 + 3] == '0');
                                assert(spec_hex_val('0') == Some(0u32));
                                assert(spec_hex_val(s@[p0 + 2]) == Some(0u32));
                                assert(spec_hex_val(s@[p0 + 3]) == Some(0u32));
                                assert(spec_hex_val(s@[p0 + 4]) == Some(a as u32));
                                assert(spec_hex_val(s@[p0 + 5]) == Some(b as u32));
                                assert(p0 + 2 + 4 <= s@.len());
                                assert(u1 == ((0 * 0x1000 + 0 * 0x100 + (a as u32) * 0x10 + (
                                b as u32)) as u32));
                                assert(p1 == p0 + 6);
                                assert(a * 16 + b == h as nat) by {
                                    vstd::arithmetic::div_mod::lemma_fundamental_div_mod(
                                        h as int,
                                        16,
                                    );
                                }
                                assert(u1 == ((a * 16 + b) as u32));
                                assert(u1 as nat == a * 16 + b);
                                assert(u1 as nat == h as nat);
                            }
                        }
                        if u1 >= 0xD800 && u1 < 0xDC00 {
                            proof {
                                assert forall|t: Seq<char>| !(#[trigger] lit_at(s@, pos as int, t))
                                    by {
                                    if lit_at(s@, pos as int, t) {
                                        assert(u1 < 0x20);
                                    }
                                }
                            }
                            // High surrogate: a low surrogate escape must follow.
                            if s.len() - p1 >= 2 && s[p1] == '\\' && s[p1 + 1] == 'u' {
                                match parse_hex4(s, p1 + 2) {
                                    None => {
                                        return None;
                                    },
                                    Some((u2, p2)) => {
                                        if u2 >= 0xDC00 && u2 < 0xE000 {
                                            let scalar: u32 = 0x10000 + (u1 - 0xD800) * 0x400 + (
                                            u2 - 0xDC00);
                                            match char_from_u32(scalar) {
                                                Some(ch) => {
                                                    out.push(ch);
                                                    p = p2;
                                                },
                                                None => {
                                                    return None;
                                                },
                                            }
                                        } else {
                                            return None;
                                        }
                                    },
                                }
                            } else {
                                return None;
                            }
                        } else if u1 >= 0xDC00 && u1 < 0xE000 {
                            proof {
                                assert forall|t: Seq<char>| !(#[trigger] lit_at(s@, pos as int, t))
                                    by {
                                    if lit_at(s@, pos as int, t) {
                                        assert(u1 < 0x20);
                                    }
                                }
                            }
                            // A lone low surrogate is not a scalar value.
                            return None;
                        } else {
                            match char_from_u32(u1) {
                                Some(ch) => {
                                    out.push(ch);
                                    p = p1;
                                    proof {
                                        assert forall|t: Seq<char>| #[trigger] lit_at(
                                            s@,
                                            pos as int,
                                            t,
                                        ) implies out@.len() <= t.len() && out@ == t.take(
                                            out@.len() as int,
                                        ) && p - pos == esc_str(t.take(out@.len() as int)).len()
                                            by {
                                            let n = out0.len() as int;
                                            let h = t[n];
                                            assert(char_val(h) == u1 as nat);
                                            assert(ch == h);
                                            lemma_lit_step(s@, pos as int, t, n);
                                            assert(esc_char(h).len() == 6);
                                            assert(out@ =~= t.take(n + 1));
                                        }
                                    }
                                },
                                None => {
                                    proof {
                                        assert(u1 < 0x10000);
                                        assert(false);
                                    }
                                    return None;
                                },
                            }
                        }
                    },
                }
            } else {
                proof {
                    assert forall|t: Seq<char>| !(#[trigger] lit_at(s@, pos as int, t)) by {
                        if lit_at(s@, pos as int, t) {
                            let n = out0.len() as int;
                            lemma_lit_step(s@, pos as int, t, n);
                            if n == t.len() {
                                assert(s@[p0] == '"');
                            } else {
                                let h = t[n];
                                lemma_esc_char_shape(h);
                                assert(s@[p0] == esc_char(h)[0]);
                                assert(s@[p0 + 1] == esc_char(h)[1]);
                            }
                        }
                    }
                }
                return None;
            }
        } else {
            out.push(c);
            p += 1;
            proof {
                assert forall|t: Seq<char>| #[trigger] lit_at(s@, pos as int, t) implies out@.len()
                    <= t.len() && out@ == t.take(out@.len() as int) && p - pos == esc_str(
                    t.take(out@.len() as int),
                ).len() by {
                    let n = out0.len() as int;
                    lemma_lit_step(s@, pos as int, t, n);
                    if n == t.len() {
                        assert(s@[p0] == '"');
                        assert(false);
                    }
                    let h = t[n];
                    lemma_esc_char_shape(h);
                    assert(s@[p0] == esc_char(h)[0]);
                    assert(esc_char(h) =~= seq![h]);
                    assert(h == c);
                    assert(out@ =~= t.take(n + 1));
                }
            }
        }
    }
    proof {
        assert forall|t: Seq<char>| !(#[trigger] lit_at(s@, pos as int, t)) by {
            if lit_at(s@, pos as int, t) {
                let n = out@.len() as int;
                lemma_lit_step(s@, pos as int, t, n);
                if n == t.len() {
                    assert(s@[p as int] == '"');
                } else {
                    lemma_esc_char_shape(t[n]);
                }
            }
        }
    }
    None
}

/// The characters a number token may hold.
pub open spec fn spec_num_char(c: char) -> bool {
    ||| c == '-' || c == '+' || c == '.' || c == 'e' || c == 'E'
    ||| spec_digit(c)
}

/// A decimal digit character.
pub open spec fn spec_digit(c: char) -> bool {
    c == '0' || c == '1' || c == '2' || c == '3' || c == '4' || c == '5' || c == '6' || c == '7'
        || c == '8' || c == '9'
}

fn is_num_char(c: char) -> (r: bool)
    ensures
        r == spec_num_char(c),
{
    c == '-' || c == '+' || c == '.' || c == 'e' || c == 'E' || is_digit(c)
}

fn is_digit(c: char) -> (r: bool)
    ensures
        r == spec_digit(c),
{
    c == '0' || c == '1' || c == '2' || c == '3' || c == '4' || c == '5' || c == '6' || c == '7'
        || c == '8' || c == '9'
}

/// A value whose written text the parser reads back exactly: number tokens
/// are nonempty, open with a sign or digit, and hold only token characters.
pub open spec fn wf_text(jv: JsonV) -> bool
    decreases jv, 2int,
{
    match jv {
        JsonV::Num(t) => t.len() > 0 && (t[0] == '-' || spec_digit(t[0])) && (forall|i: int|
            0 <= i < t.len() ==> spec_num_char(#[trigger] t[i])),
        JsonV::Arr(items) => wf_text_arr(items),
        JsonV::Obj(fields) => wf_text_obj(fields),
        _ => true,
    }
}

/// Every element's written text reads back exactly.
pub open spec fn wf_text_arr(s: Seq<JsonV>) -> bool
    decreases s, 1int,
{
    s.len() == 0 || (wf_text(s[0]) && wf_text_arr(s.skip(1)))
}

/// Every field value's written text reads back exactly.
pub open spec fn wf_text_obj(s: Seq<(Seq<char>, JsonV)>) -> bool
    decreases s, 1int,
{
    s.len() == 0 || (wf_text(s[0].1) && wf_text_obj(s.skip(1)))
}

/// The written form of `jv` stands at `pos` in `s`; where it is a bare
/// number token, the character after it cannot extend the token.
pub open spec fn val_at(s: Seq<char>, pos: int, jv: JsonV) -> bool {
    &&& wf_text(jv)
    &&& 0 <= pos
    &&& pos + v_write(jv).len() <= s.len()
    &&& s.subrange(pos, pos + v_write(jv).len()) == v_write(jv)
    &&& (jv is Num && pos + v_write(jv).len() < s.len() ==> !spec_num_char(
        s[pos + v_write(jv).len()],
    ))
}

proof fn lemma_wf_arr_elem(s: Seq<JsonV>, k: int)
    requires
        wf_text_arr(s),
        0 <= k < s.len(),
    ensures
        wf_text(s[k]),
    decreases k,
{
    if k > 0 {
        lemma_wf_arr_elem(s.skip(1), k - 1);
        assert(s.skip(1)[k - 1] == s[k]);
    }
}

proof fn lemma_wf_obj_elem(s: Seq<(Seq<char>, JsonV)>, k: int)
    requires
        wf_text_obj(s),
        0 <= k < s.len(),
    ensures
        wf_text(s[k].1),
    decreases k,
{
    if k > 0 {
        lemma_wf_obj_elem(s.skip(1), k - 1);
        assert(s.skip(1)[k - 1] == s[k]);
    }
}

/// The first character of a written value: at least one character, never
/// whitespace nor a structural separator, and it identifies the variant.
proof fn lemma_write_head(jv: JsonV)
    requires
        wf_text(jv),
    ensures
        v_write(jv).len() >= 1,
        !crate::text::is_space(v_write(jv)[0]),
        v_write(jv)[0] != ']' && v_write(jv)[0] != '}' && v_write(jv)[0] != ',' && v_write(jv)[0]
            != ':',
        jv is Null ==> v_write(jv)[0] == 'n',
        jv is Bool ==> v_write(jv)[0] == (if jv->Bool_0 {
            't'
        } else {
            'f'
        }),
        jv is Num ==> v_write(jv)[0] == jv->Num_0[0] && (jv->Num_0[0] == '-' || spec_digit(
            jv->Num_0[0],
        )),
        jv is Str ==> v_write(jv)[0] == '"',
        jv is Arr ==> v_write(jv)[0] == '[',
        jv is Obj ==> v_write(jv)[0] == '{',
{
    match jv {
        JsonV::Str(t) => {
            assert(v_write(jv)[0] == '"');
        },
        JsonV::Arr(items) => {
            assert(v_write(jv)[0] == '[');
        },
        JsonV::Obj(fields) => {
            assert(v_write(jv)[0] == '{');
        },
        _ => {},
    }
}

/// Transfer one character of the written form onto the text.
proof fn lemma_val_at_char(s: Seq<char>, pos: int, jv: JsonV, i: int)
    requires
        val_at(s, pos, jv),
        0 <= i < v_write(jv).len(),
    ensures
        s[pos + i] == v_write(jv)[i],
{
    assert(s.subrange(pos, pos + v_write(jv).len())[i] == v_write(jv)[i]);
}

/// How far into an array's element text element `k` starts.
pub open spec fn arr_prefix_len(items: Seq<JsonV>, k: int) -> int {
    v_write_arr(items).len() - v_write_arr(items.skip(k)).len()
}

/// Unfold the element text at element `k`.
proof fn lemma_write_arr_step(items: Seq<JsonV>, k: int)
    requires
        0 <= k < items.len(),
    ensures
        v_write_arr(items.skip(k)) == v_write(items[k]) + (if k < items.len() - 1 {
            seq![','] + v_write_arr(items.skip(k + 1))
        } else {
            Seq::<char>::empty()
        }),
{
    let t = items.skip(k);
    assert(t[0] == items[k]);
    assert(t.skip(1) =~= items.skip(k + 1));
    if t.len() == 1 {
        assert(v_write_arr(t) == v_write(t[0]));
        assert(v_write(items[k]) + Seq::<char>::empty() =~= v_write(items[k]));
    } else {
        assert(v_write_arr(t) == v_write(t[0]) + seq![','] + v_write_arr(t.skip(1)));
        assert(v_write(t[0]) + seq![','] + v_write_arr(t.skip(1)) =~= v_write(items[k]) + (seq![
            ',',
        ] + v_write_arr(items.skip(k + 1))));
    }
}

/// The element text from element `k` on is a suffix of the whole element
/// text.
proof fn lemma_write_arr_suffix(items: Seq<JsonV>, k: int)
    requires
        0 <= k <= items.len(),
    ensures
        v_write_arr(items.skip(k)).len() <= v_write_arr(items).len(),
        v_write_arr(items).subrange(
            v_write_arr(items).len() - v_write_arr(items.skip(k)).len(),
            v_write_arr(items).len() as int,
        ) == v_write_arr(items.skip(k)),
    decreases k,
{
    let a = v_write_arr(items);
    if k == 0 {
        assert(items.skip(0) =~= items);
        assert(a.subrange(0, a.len() as int) =~= a);
    } else {
        lemma_write_arr_suffix(items, k - 1);
        lemma_write_arr_step(items, k - 1);
        let t1 = v_write_arr(items.skip(k - 1));
        let t = v_write_arr(items.skip(k));
        if k - 1 < items.len() - 1 {
            assert(t1.len() == v_write(items[k - 1]).len() + 1 + t.len());
            assert forall|j: int| 0 <= j < t.len() implies a[a.len() - t.len() + j] == t[j] by {
                assert(a.subrange(a.len() - t1.len(), a.len() as int)[t1.len() - t.len() + j]
                    == t1[t1.len() - t.len() + j]);
                assert(t1[t1.len() - t.len() + j] == t[j]);
            }
            assert(a.subrange(a.len() - t.len(), a.len() as int) =~= t);
        } else {
            assert(items.skip(k).len() == 0);
            assert(t =~= Seq::<char>::empty());
            assert(a.subrange(a.len() as int, a.len() as int) =~= t);
        }
    }
}

/// Where element `k` of an array stands in the text, what follows it, and
/// that the element's own written form stands there.
proof fn lemma_arr_elem_at(s: Seq<char>, pos: int, items: Seq<JsonV>, k: int)
    requires
        val_at(s, pos, JsonV::Arr(items)),
        0 <= k < items.len(),
    ensures
        ({
            let p = pos + 1 + arr_prefix_len(items, k);
            let w = v_write(items[k]).len();
            &&& pos + 1 <= p
            &&& val_at(s, p, items[k])
            &&& p + w < s.len()
            &&& (k < items.len() - 1 ==> s[p + w] == ',' && p + w + 1 == pos + 1 + arr_prefix_len(
                items,
                k + 1,
            ))
            &&& (k == items.len() - 1 ==> s[p + w] == ']' && p + w + 1 == pos + v_write(
                JsonV::Arr(items),
            ).len())
        }),
{
    lemma_wf_arr_elem(items, k);
    lemma_write_arr_suffix(items, k);
    lemma_write_arr_step(items, k);
    let a = v_write_arr(items);
    let t = v_write_arr(items.skip(k));
    let w = v_write(items[k]);
    let full = v_write(JsonV::Arr(items));
    let pre = a.len() - t.len();
    let p = pos + 1 + pre;
    assert(full == seq!['['] + a + seq![']']);
    assert(forall|i: int| 0 <= i < full.len() ==> s[pos + i] == #[trigger] full[i]) by {
        assert(forall|i: int|
            0 <= i < full.len() ==> s.subrange(pos, pos + full.len())[i] == #[trigger] full[i]);
    }
    assert(forall|j: int| 0 <= j < t.len() ==> #[trigger] a[pre + j] == t[j]) by {
        assert(forall|j: int|
            0 <= j < t.len() ==> a.subrange(pre, a.len() as int)[j] == #[trigger] t[j]);
    }
    assert forall|j: int| 0 <= j < w.len() implies s[p + j] == w[j] by {
        assert(full[1 + pre + j] == a[pre + j]);
        assert(t[j] == w[j]);
    }
    assert(s.subrange(p, p + w.len()) =~= w);
    if k < items.len() - 1 {
        assert(t[w.len() as int] == ',');
        assert(s[p + w.len()] == full[1 + pre + w.len()]);
        assert(s[p + w.len()] == ',');
        lemma_write_arr_step(items, k + 1);
        assert(t.len() == w.len() + 1 + v_write_arr(items.skip(k + 1)).len());
    } else {
        assert(t =~= w);
        assert(pre + w.len() == a.len());
        assert(full[1 + a.len() as int] == ']');
        assert(s[p + w.len()] == ']');
    }
    if items[k] is Num && p + w.len() < s.len() {
        assert(!spec_num_char(s[p + w.len()]));
    }
}

/// How far into an object's field text field `k` starts.
pub open spec fn obj_prefix_len(fs: Seq<(Seq<char>, JsonV)>, k: int) -> int {
    v_write_obj(fs).len() - v_write_obj(fs.skip(k)).len()
}

/// Unfold the field text at field `k`.
proof fn lemma_write_obj_step(fs: Seq<(Seq<char>, JsonV)>, k: int)
    requires
        0 <= k < fs.len(),
    ensures
        v_write_obj(fs.skip(k)) == quoted(fs[k].0) + seq![':'] + v_write(fs[k].1) + (if k < fs.len()
            - 1 {
            seq![','] + v_write_obj(fs.skip(k + 1))
        } else {
            Seq::<char>::empty()
        }),
{
    let t = fs.skip(k);
    assert(t[0] == fs[k]);
    assert(t.skip(1) =~= fs.skip(k + 1));
    if t.len() == 1 {
        assert(v_write_obj(t) == quoted(t[0].0) + seq![':'] + v_write(t[0].1));
        assert(quoted(fs[k].0) + seq![':'] + v_write(fs[k].1) + Seq::<char>::empty() =~= quoted(
            fs[k].0,
        ) + seq![':'] + v_write(fs[k].1));
    } else {
        assert(v_write_obj(t) == quoted(t[0].0) + seq![':'] + v_write(t[0].1) + seq![',']
            + v_write_obj(t.skip(1)));
        assert(quoted(t[0].0) + seq![':'] + v_write(t[0].1) + seq![','] + v_write_obj(t.skip(1))
            =~= quoted(fs[k].0) + seq![':'] + v_write(fs[k].1) + (seq![','] + v_write_obj(
            fs.skip(k + 1),
        )));
    }
}

/// The field text from field `k` on is a suffix of the whole field text.
proof fn lemma_write_obj_suffix(fs: Seq<(Seq<char>, JsonV)>, k: int)
    requires
        0 <= k <= fs.len(),
    ensures
        v_write_obj(fs.skip(k)).len() <= v_write_obj(fs).len(),
        v_write_obj(fs).subrange(
            v_write_obj(fs).len() - v_write_obj(fs.skip(k)).len(),
            v_write_obj(fs).len() as int,
        ) == v_write_obj(fs.skip(k)),
    decreases k,
{
    let a = v_write_obj(fs);
    if k == 0 {
        assert(fs.skip(0) =~= fs);
        assert(a.subrange(0, a.len() as int) =~= a);
    } else {
        lemma_write_obj_suffix(fs, k - 1);
        lemma_write_obj_step(fs, k - 1);
        let t1 = v_write_obj(fs.skip(k - 1));
        let t = v_write_obj(fs.skip(k));
        if k - 1 < fs.len() - 1 {
            assert(t1.len() == quoted(fs[k - 1].0).len() + 1 + v_write(fs[k - 1].1).len() + 1
                + t.len());
            assert forall|j: int| 0 <= j < t.len() implies a[a.len() - t.len() + j] == t[j] by {
                assert(a.subrange(a.len() - t1.len(), a.len() as int)[t1.len() - t.len() + j]
                    == t1[t1.len() - t.len() + j]);
                assert(t1[t1.len() - t.len() + j] == t[j]);
            }
            assert(a.subrange(a.len() - t.len(), a.len() as int) =~= t);
        } else {
            assert(fs.skip(k).len() == 0);
            assert(t =~= Seq::<char>::empty());
            assert(a.subrange(a.len() as int, a.len() as int) =~= t);
        }
    }
}

/// Where field `k` of an object stands in the text: its key literal, the
/// colon, its value's written form, and what follows.
proof fn lemma_obj_field_at(s: Seq<char>, pos: int, fs: Seq<(Seq<char>, JsonV)>, k: int)
    requires
        val_at(s, pos, JsonV::Obj(fs)),
        0 <= k < fs.len(),
    ensures
        ({
            let p = pos + 1 + obj_prefix_len(fs, k);
            let kq = quoted(fs[k].0).len();
            let w = v_write(fs[k].1).len();
            &&& pos + 1 <= p
            &&& p + kq + 1 + w < s.len()
            &&& s[p] == '"'
            &&& lit_at(s, p + 1, fs[k].0)
            &&& p + 1 + esc_str(fs[k].0).len() + 1 == p + kq
            &&& s[p + kq] == ':'
            &&& val_at(s, p + kq + 1, fs[k].1)
            &&& (k < fs.len() - 1 ==> s[p + kq + 1 + w] == ',' && p + kq + 1 + w + 1 == pos + 1
                + obj_prefix_len(fs, k + 1))
            &&& (k == fs.len() - 1 ==> s[p + kq + 1 + w] == '}' && p + kq + 1 + w + 1 == pos
                + v_write(JsonV::Obj(fs)).len())
        }),
{
    lemma_wf_obj_elem(fs, k);
    lemma_write_obj_suffix(fs, k);
    lemma_write_obj_step(fs, k);
    let a = v_write_obj(fs);
    let t = v_write_obj(fs.skip(k));
    let kw = quoted(fs[k].0);
    let w = v_write(fs[k].1);
    let full = v_write(JsonV::Obj(fs));
    let pre = a.len() - t.len();
    let p = pos + 1 + pre;
    assert(full == seq!['{'] + a + seq!['}']);
    assert(forall|i: int| 0 <= i < full.len() ==> s[pos + i] == #[trigger] full[i]) by {
        assert(forall|i: int|
            0 <= i < full.len() ==> s.subrange(pos, pos + full.len())[i] == #[trigger] full[i]);
    }
    assert(forall|j: int| 0 <= j < t.len() ==> #[trigger] a[pre + j] == t[j]) by {
        assert(forall|j: int|
            0 <= j < t.len() ==> a.subrange(pre, a.len() as int)[j] == #[trigger] t[j]);
    }
    assert forall|j: int| 0 <= j < t.len() implies #[trigger] s[p + j] == t[j] by {
        assert(s[pos + (1 + pre + j)] == full[1 + pre + j]);
        assert(full[1 + pre + j] == a[pre + j]);
        assert(a[pre + j] == t[j]);
    }
    assert(t.len() >= kw.len() + 1 + w.len());
    assert forall|j: int| 0 <= j < kw.len() implies s[p + j] == kw[j] by {
        assert(t[j] == kw[j]);
    }
    assert(s[p] == kw[0]);
    assert(kw[0] == '"');
    assert forall|j: int| 0 <= j < esc_str(fs[k].0).len() + 1 implies s[p + 1 + j] == (esc_str(
        fs[k].0,
    ) + seq!['"'])[j] by {
        assert(s[p + 1 + j] == kw[1 + j]);
        assert(kw[1 + j] == (esc_str(fs[k].0) + seq!['"'])[j]);
    }
    assert(s.subrange(p + 1, p + 1 + esc_str(fs[k].0).len() + 1) =~= esc_str(fs[k].0) + seq!['"']);
    assert(t[kw.len() as int] == ':');
    assert(s[p + kw.len()] == ':');
    assert forall|j: int| 0 <= j < w.len() implies s[p + kw.len() + 1 + j] == w[j] by {
        assert(s[p + (kw.len() as int + 1 + j)] == t[kw.len() as int + 1 + j]);
        assert(t[kw.len() as int + 1 + j] == w[j]);
    }
    assert(s.subrange(p + kw.len() + 1, p + kw.len() + 1 + w.len()) =~= w);
    if k < fs.len() - 1 {
        assert(t[kw.len() as int + 1 + w.len()] == ',');
        assert(s[p + (kw.len() as int + 1 + w.len())] == t[kw.len() as int + 1 + w.len()]);
        assert(s[p + kw.len() + 1 + w.len()] == ',');
        lemma_write_obj_step(fs, k + 1);
        assert(t.len() == kw.len() + 1 + w.len() + 1 + v_write_obj(fs.skip(k + 1)).len());
    } else {
        assert(t =~= kw + seq![':'] + w);
        assert(pre + kw.len() + 1 + w.len() == a.len());
        assert(full[1 + a.len() as int] == '}');
        assert(s[p + kw.len() + 1 + w.len()] == '}');
    }
    if fs[k].1 is Num && p + kw.len() + 1 + w.len() < s.len() {
        assert(!spec_num_char(s[p + kw.len() + 1 + w.len()]));
    }
}

/// Parse one JSON value starting at `pos`; on success the result carries the
/// position just past the value. Number tokens are kept verbatim. Where the
/// writer's form of a value stands at `pos`, that value is read back.
#[verifier::rlimit(100)]
pub fn parse_value(s: &Vec<char>, pos: usize) -> (r: Option<(Json, usize)>)
    requires
        pos <= s@.len(),
    ensures
        r is Some ==> pos < r.unwrap().1 <= s@.len(),
        forall|jv: JsonV|
            #[trigger] val_at(s@, pos as int, jv) ==> (r matches Some(p) && p.0@ == jv
                && p.1 as int == pos + v_write(jv).len()),
    decreases s@.len() - pos, 1int,
{
    let n = s.len();
    if pos >= n {
        proof {
            assert forall|jv: JsonV| !(#[trigger] val_at(s@, pos as int, jv)) by {
                if val_at(s@, pos as int, jv) {
                    lemma_write_head(jv);
                }
            }
        }
        return None;
    }
    let c = s[pos];
    if c == 'n' {
        if n - pos >= 4 && s[pos + 1] == 'u' && s[pos + 2] == 'l' && s[pos + 3] == 'l' {
            proof {
                assert forall|jv: JsonV| #[trigger] val_at(s@, pos as int, jv) implies jv
                    == JsonV::Null by {
                    lemma_write_head(jv);
                    lemma_val_at_char(s@, pos as int, jv, 0);
                    if !(jv is Null) {
                        assert(false);
                    }
                }
            }
            Some((Json::Null, pos + 4))
        } else {
            proof {
                assert forall|jv: JsonV| !(#[trigger] val_at(s@, pos as int, jv)) by {
                    if val_at(s@, pos as int, jv) {
                        lemma_write_head(jv);
                        lemma_val_at_char(s@, pos as int, jv, 0);
                        assert(jv is Null);
                        lemma_val_at_char(s@, pos as int, jv, 1);
                        lemma_val_at_char(s@, pos as int, jv, 2);
                        lemma_val_at_char(s@, pos as int, jv, 3);
                    }
                }
            }
            None
        }
    } else if c == 't' {
        if n - pos >= 4 && s[pos + 1] == 'r' && s[pos + 2] == 'u' && s[pos + 3] == 'e' {
            proof {
                assert forall|jv: JsonV| #[trigger] val_at(s@, pos as int, jv) implies jv
                    == JsonV::Bool(true) by {
                    lemma_write_head(jv);
                    lemma_val_at_char(s@, pos as int, jv, 0);
                    if jv != JsonV::Bool(true) {
                        assert(false);
                    }
                }
            }
            Some((Json::Bool(true), pos + 4))
        } else {
            proof {
                assert forall|jv: JsonV| !(#[trigger] val_at(s@, pos as int, jv)) by {
                    if val_at(s@, pos as int, jv) {
                        lemma_write_head(jv);
                        lemma_val_at_char(s@, pos as int, jv, 0);
                        assert(jv == JsonV::Bool(true));
                        lemma_val_at_char(s@, pos as int, jv, 1);
                        lemma_val_at_char(s@, pos as int, jv, 2);
                        lemma_val_at_char(s@, pos as int, jv, 3);
                    }
                }
            }
            None
        }
    } else if c == 'f' {
        if n - pos >= 5 && s[pos + 1] == 'a' && s[pos + 2] == 'l' && s[pos + 3] == 's' && s[pos + 4]
            == 'e' {
            proof {
                assert forall|jv: JsonV| #[trigger] val_at(s@, pos as int, jv) implies jv
                    == JsonV::Bool(false) by {
                    lemma_write_head(jv);
                    lemma_val_at_char(s@, pos as int, jv, 0);
                    if jv != JsonV::Bool(false) {
                        assert(false);
                    }
                }
            }
            Some((Json::Bool(false), pos + 5))
        } else {
            proof {
                assert forall|jv: JsonV| !(#[trigger] val_at(s@, pos as int, jv)) by {
                    if val_at(s@, pos as int, jv) {
                        lemma_write_head(jv);
                        lemma_val_at_char(s@, pos as int, jv, 0);
                        assert(jv == JsonV::Bool(false));
                        lemma_val_at_char(s@, pos as int, jv, 1);
                        lemma_val_at_char(s@, pos as int, jv, 2);
                        lemma_val_at_char(s@, pos as int, jv, 3);
                        lemma_val_at_char(s@, pos as int, jv, 4);
                    }
                }
            }
            None
        }
    } else if c == '"' {
        proof {
            assert forall|jv: JsonV| #[trigger] val_at(s@, pos as int, jv) implies (jv is Str
                && lit_at(s@, pos + 1, jv->Str_0) && pos + v_write(jv).len() == pos + 1 + esc_str(
                jv->Str_0,
            ).len() + 1) by {
                lemma_write_head(jv);
                lemma_val_at_char(s@, pos as int, jv, 0);
                if !(jv is Str) {
                    assert(false);
                }
                let t = jv->Str_0;
                assert(v_write(jv) == quoted(t));
                assert forall|j: int| 0 <= j < esc_str(t).len() + 1 implies s@[pos + 1 + j] == (
                esc_str(t) + seq!['"'])[j] by {
                    lemma_val_at_char(s@, pos as int, jv, 1 + j);
                    assert(quoted(t)[1 + j] == (esc_str(t) + seq!['"'])[j]);
                }
                assert(s@.subrange(pos + 1, pos + 1 + esc_str(t).len() + 1) =~= esc_str(t) + seq![
                    '"',
                ]);
            }
        }
        match parse_string_body(s, pos + 1) {
            Some((txt, p)) => Some((Json::Str(txt), p)),
            None => None,
        }
    } else if c == '-' || is_digit(c) {
        proof {
            assert forall|jv: JsonV| #[trigger] val_at(s@, pos as int, jv) implies (jv is Num
                && v_write(jv) == jv->Num_0 && jv->Num_0.len() >= 1) by {
                lemma_write_head(jv);
                lemma_val_at_char(s@, pos as int, jv, 0);
                if !(jv is Num) {
                    assert(false);
                }
            }
        }
        let mut tok: Vec<char> = Vec::new();
        tok.push(c);
        let mut p = pos + 1;
        proof {
            assert(tok@ =~= s@.subrange(pos as int, pos + 1));
        }
        while p < s.len() && is_num_char(s[p])
            invariant
                pos < p <= s@.len(),
                tok@ == s@.subrange(pos as int, p as int),
                forall|jv: JsonV|
                    #[trigger] val_at(s@, pos as int, jv) ==> jv is Num && p - pos
                        <= jv->Num_0.len(),
            decreases s@.len() - p,
        {
            proof {
                assert forall|jv: JsonV| #[trigger] val_at(s@, pos as int, jv) implies p + 1 - pos
                    <= jv->Num_0.len() by {
                    let tk = jv->Num_0;
                    if p - pos == tk.len() {
                        assert(v_write(jv) == tk);
                        assert(!spec_num_char(s@[p as int]));
                        assert(false);
                    }
                }
            }
            tok.push(s[p]);
            p += 1;
            proof {
                assert(tok@ =~= s@.subrange(pos as int, p as int));
            }
        }
        proof {
            assert forall|jv: JsonV| #[trigger] val_at(s@, pos as int, jv) implies (tok@
                == jv->Num_0 && p == pos + v_write(jv).len()) by {
                let tk = jv->Num_0;
                assert(v_write(jv) == tk);
                if p - pos < tk.len() {
                    lemma_val_at_char(s@, pos as int, jv, p - pos);
                    assert(s@[p as int] == tk[p - pos]);
                    assert(spec_num_char(tk[p - pos]));
                    assert(false);
                }
                assert(p == pos + tk.len());
                assert(tok@ =~= tk) by {
                    assert(s@.subrange(pos as int, pos + tk.len()) == tk);
                }
            }
        }
        Some((Json::Num(tok), p))
    } else if c == '[' {
        parse_array(s, pos)
    } else if c == '{' {
        parse_object(s, pos)
    } else {
        proof {
            assert forall|jv: JsonV| !(#[trigger] val_at(s@, pos as int, jv)) by {
                if val_at(s@, pos as int, jv) {
                    lemma_write_head(jv);
                    lemma_val_at_char(s@, pos as int, jv, 0);
                }
            }
        }
        None
    }
}

#[verifier::rlimit(100)]
fn parse_array(s: &Vec<char>, pos: usize) -> (r: Option<(Json, usize)>)
    requires
        pos < s@.len(),
        s@[pos as int] == '[',
    ensures
        r is Some ==> pos < r.unwrap().1 <= s@.len(),
        forall|jv: JsonV|
            #[trigger] val_at(s@, pos as int, jv) ==> (r matches Some(p) && p.0@ == jv
                && p.1 as int == pos + v_write(jv).len()),
    decreases s@.len() - pos, 0int,
{
    let n = s.len();
    let mut items: Vec<Json> = Vec::new();
    let p1 = skip_ws(s, pos + 1);
    proof {
        assert forall|jv: JsonV| #[trigger] val_at(s@, pos as int, jv) implies ({
            &&& jv is Arr
            &&& p1 == pos + 1
            &&& pos + 1 < s@.len()
            &&& (jv->Arr_0.len() == 0 ==> s@[pos + 1] == ']' && v_write(jv).len() == 2)
            &&& (jv->Arr_0.len() > 0 ==> s@[pos + 1] != ']')
        }) by {
            lemma_write_head(jv);
            lemma_val_at_char(s@, pos as int, jv, 0);
            if !(jv is Arr) {
                assert(false);
            }
            let elems = jv->Arr_0;
            if elems.len() == 0 {
                assert(v_write_arr(elems) =~= Seq::<char>::empty());
                assert(v_write(jv) =~= seq!['[', ']']);
                lemma_val_at_char(s@, pos as int, jv, 1);
                assert(!crate::text::is_space(s@[pos + 1]));
            } else {
                lemma_arr_elem_at(s@, pos as int, elems, 0);
                assert(elems.skip(0) =~= elems);
                assert(arr_prefix_len(elems, 0) == 0);
                lemma_wf_arr_elem(elems, 0);
                lemma_write_head(elems[0]);
                lemma_val_at_char(s@, pos + 1, elems[0], 0);
                assert(s@[pos + 1] == v_write(elems[0])[0]);
                assert(!crate::text::is_space(s@[pos + 1]));
            }
        }
    }
    if p1 < s.len() && s[p1] == ']' {
        proof {
            assert forall|jv: JsonV| #[trigger] val_at(s@, pos as int, jv) implies (json_view(
                Json::Arr(items),
            ) == jv && p1 + 1 == pos + v_write(jv).len()) by {
                if jv->Arr_0.len() > 0 {
                    assert(s@[pos + 1] != ']');
                    assert(false);
                }
                assert(arr_view(items@) =~= jv->Arr_0);
                assert(json_view(Json::Arr(items)) =~~= jv);
            }
        }
        return Some((Json::Arr(items), p1 + 1));
    }
    let mut p = p1;
    proof {
        assert forall|jv: JsonV| #[trigger] val_at(s@, pos as int, jv) implies ({
            let elems = jv->Arr_0;
            &&& jv is Arr
            &&& (items@.len() as int) < elems.len()
            &&& arr_view(items@) == elems.take(items@.len() as int)
            &&& p == pos + 1 + arr_prefix_len(elems, items@.len() as int)
        }) by {
            let elems = jv->Arr_0;
            if elems.len() == 0 {
                assert(pos + 1 < s@.len() && s@[pos + 1] == ']');
                assert(false);
            }
            assert(elems.skip(0) =~= elems);
            assert(arr_view(items@) =~= elems.take(0));
        }
    }
    loop
        invariant
            pos < p <= s@.len(),
            pos < s@.len(),
            forall|jv: JsonV|
                #[trigger] val_at(s@, pos as int, jv) ==> ({
                    let elems = jv->Arr_0;
                    &&& jv is Arr
                    &&& (items@.len() as int) < elems.len()
                    &&& arr_view(items@) == elems.take(items@.len() as int)
                    &&& p == pos + 1 + arr_prefix_len(elems, items@.len() as int)
                }),
        decreases s@.len() - p,
    {
        let ghost items0 = items@;
        let ghost p_0 = p as int;
        proof {
            assert forall|jv: JsonV| #[trigger] val_at(s@, pos as int, jv) implies val_at(
                s@,
                p_0,
                jv->Arr_0[items0.len() as int],
            ) by {
                lemma_arr_elem_at(s@, pos as int, jv->Arr_0, items0.len() as int);
            }
        }
        match parse_value(s, p) {
            None => {
                proof {
                    assert forall|jv: JsonV| !(#[trigger] val_at(s@, pos as int, jv)) by {
                        if val_at(s@, pos as int, jv) {
                            assert(val_at(s@, p_0, jv->Arr_0[items0.len() as int]));
                        }
                    }
                }
                return None;
            },
            Some((v, p2)) => {
                proof {
                    assert forall|jv: JsonV| #[trigger] val_at(s@, pos as int, jv) implies ({
                        let elems = jv->Arr_0;
                        let k = items0.len() as int;
                        &&& v@ == elems[k]
                        &&& p2 == p_0 + v_write(elems[k]).len()
                        &&& (p2 as int) < s@.len()
                        &&& (k < elems.len() - 1 ==> s@[p2 as int] == ',')
                        &&& (k == elems.len() - 1 ==> s@[p2 as int] == ']')
                    }) by {
                        lemma_arr_elem_at(s@, pos as int, jv->Arr_0, items0.len() as int);
                    }
                }
                items.push(v);
                let p3 = skip_ws(s, p2);
                proof {
                    assert forall|jv: JsonV| #[trigger] val_at(s@, pos as int, jv) implies ({
                        let elems = jv->Arr_0;
                        let k = items0.len() as int;
                        &&& p3 == p2
                        &&& arr_view(items@) == elems.take(k + 1)
                    }) by {
                        assert(!crate::text::is_space(s@[p2 as int]));
                        lemma_arr_view(items@);
                        lemma_arr_view(items0);
                        assert(arr_view(items@) =~= jv->Arr_0.take(items0.len() as int + 1));
                    }
                }
                if p3 < s.len() && s[p3] == ',' {
                    let p4 = skip_ws(s, p3 + 1);
                    proof {
                        assert forall|jv: JsonV| #[trigger] val_at(s@, pos as int, jv) implies ({
                            let elems = jv->Arr_0;
                            &&& (items@.len() as int) < elems.len()
                            &&& p4 == pos + 1 + arr_prefix_len(elems, items@.len() as int)
                            &&& p_0 < p4
                        }) by {
                            let elems = jv->Arr_0;
                            let k = items0.len() as int;
                            if k == elems.len() - 1 {
                                assert(s@[p3 as int] == ']');
                                assert(false);
                            }
                            lemma_arr_elem_at(s@, pos as int, elems, k);
                            lemma_arr_elem_at(s@, pos as int, elems, k + 1);
                            lemma_wf_arr_elem(elems, k + 1);
                            lemma_write_head(elems[k + 1]);
                            lemma_val_at_char(
                                s@,
                                pos + 1 + arr_prefix_len(elems, k + 1),
                                elems[k + 1],
                                0,
                            );
                            assert(!crate::text::is_space(s@[p3 + 1]));
                        }
                    }
                    if p4 == p {
                        proof {
                            assert forall|jv: JsonV| !(#[trigger] val_at(s@, pos as int, jv)) by {
                                if val_at(s@, pos as int, jv) {
                                    assert(p_0 < p4);
                                }
                            }
                        }
                        return None;
                    }
                    p = p4;
                } else if p3 < s.len() && s[p3] == ']' {
                    proof {
                        assert forall|jv: JsonV| #[trigger] val_at(s@, pos as int, jv) implies (
                        json_view(Json::Arr(items)) == jv && p3 + 1 == pos + v_write(jv).len()) by {
                            let elems = jv->Arr_0;
                            let k = items0.len() as int;
                            if k < elems.len() - 1 {
                                assert(s@[p3 as int] == ',');
                                assert(false);
                            }
                            lemma_arr_elem_at(s@, pos as int, elems, k);
                            assert(elems.take(k + 1) =~= elems);
                            assert(json_view(Json::Arr(items)) =~~= jv);
                        }
                    }
                    return Some((Json::Arr(items), p3 + 1));
                } else {
                    proof {
                        assert forall|jv: JsonV| !(#[trigger] val_at(s@, pos as int, jv)) by {
                            if val_at(s@, pos as int, jv) {
                                assert((p3 as int) < s@.len());
                            }
                        }
                    }
                    return None;
                }
            },
        }
    }
}

#[verifier::rlimit(100)]
fn parse_object(s: &Vec<char>, pos: usize) -> (r: Option<(Json, usize)>)
    requires
        pos < s@.len(),
        s@[pos as int] == '{',
    ensures
        r is Some ==> pos < r.unwrap().1 <= s@.len(),
        forall|jv: JsonV|
            #[trigger] val_at(s@, pos as int, jv) ==> (r matches Some(p) && p.0@ == jv
                && p.1 as int == pos + v_write(jv).len()),
    decreases s@.len() - pos, 0int,
{
    let n = s.len();
    let mut fields: Vec<(Vec<char>, Json)> = Vec::new();
    let p1 = skip_ws(s, pos + 1);
    proof {
        assert forall|jv: JsonV| #[trigger] val_at(s@, pos as int, jv) implies ({
            &&& jv is Obj
            &&& p1 == pos + 1
            &&& pos + 1 < s@.len()
            &&& (jv->Obj_0.len() == 0 ==> s@[pos + 1] == '}' && v_write(jv).len() == 2)
            &&& (jv->Obj_0.len() > 0 ==> s@[pos + 1] == '"')
        }) by {
            lemma_write_head(jv);
            lemma_val_at_char(s@, pos as int, jv, 0);
            if !(jv is Obj) {
                assert(false);
            }
            let fs = jv->Obj_0;
            if fs.len() == 0 {
                assert(v_write_obj(fs) =~= Seq::<char>::empty());
                assert(v_write(jv) =~= seq!['{', '}']);
                lemma_val_at_char(s@, pos as int, jv, 1);
                assert(!crate::text::is_space(s@[pos + 1]));
            } else {
                lemma_obj_field_at(s@, pos as int, fs, 0);
                assert(fs.skip(0) =~= fs);
                assert(obj_prefix_len(fs, 0) == 0);
                assert(s@[pos + 1] == '"');
                assert(!crate::text::is_space(s@[pos + 1]));
            }
        }
    }
    if p1 < s.len() && s[p1] == '}' {
        proof {
            assert forall|jv: JsonV| #[trigger] val_at(s@, pos as int, jv) implies (json_view(
                Json::Obj(fields),
            ) == jv && p1 + 1 == pos + v_write(jv).len()) by {
                if jv->Obj_0.len() > 0 {
                    assert(s@[pos + 1] == '"');
                    assert(false);
                }
                assert(obj_view(fields@) =~= jv->Obj_0);
                assert(json_view(Json::Obj(fields)) =~~= jv);
            }
        }
        return Some((Json::Obj(fields), p1 + 1));
    }
    let mut p = p1;
    proof {
        assert forall|jv: JsonV| #[trigger] val_at(s@, pos as int, jv) implies ({
            let fs = jv->Obj_0;
            &&& jv is Obj
            &&& (fields@.len() as int) < fs.len()
            &&& obj_view(fields@) == fs.take(fields@.len() as int)
            &&& p == pos + 1 + obj_prefix_len(fs, fields@.len() as int)
        }) by {
            let fs = jv->Obj_0;
            if fs.len() == 0 {
                assert(pos + 1 < s@.len() && s@[pos + 1] == '}');
                assert(false);
            }
            assert(fs.skip(0) =~= fs);
            assert(obj_view(fields@) =~= fs.take(0));
        }
    }
    loop
        invariant
            pos < p <= s@.len(),
            pos < s@.len(),
            forall|jv: JsonV|
                #[trigger] val_at(s@, pos as int, jv) ==> ({
                    let fs = jv->Obj_0;
                    &&& jv is Obj
                    &&& (fields@.len() as int) < fs.len()
                    &&& obj_view(fields@) == fs.take(fields@.len() as int)
                    &&& p == pos + 1 + obj_prefix_len(fs, fields@.len() as int)
                }),
        decreases s@.len() - p,
    {
        let ghost fields0 = fields@;
        let ghost p_0 = p as int;
        proof {
            assert forall|jv: JsonV| #[trigger] val_at(s@, pos as int, jv) implies ({
                let fs = jv->Obj_0;
                let k = fields0.len() as int;
                &&& (p_0 as int) < s@.len()
                &&& s@[p_0] == '"'
                &&& lit_at(s@, p_0 + 1, fs[k].0)
            }) by {
                lemma_obj_field_at(s@, pos as int, jv->Obj_0, fields0.len() as int);
            }
        }
        if !(p < s.len() && s[p] == '"') {
            proof {
                assert forall|jv: JsonV| !(#[trigger] val_at(s@, pos as int, jv)) by {
                    if val_at(s@, pos as int, jv) {
                        assert(s@[p_0] == '"');
                    }
                }
            }
            return None;
        }
        match parse_string_body(s, p + 1) {
            None => {
                proof {
                    assert forall|jv: JsonV| !(#[trigger] val_at(s@, pos as int, jv)) by {
                        if val_at(s@, pos as int, jv) {
                            assert(lit_at(s@, p_0 + 1, jv->Obj_0[fields0.len() as int].0));
                        }
                    }
                }
                return None;
            },
            Some((key, pk)) => {
                proof {
                    assert forall|jv: JsonV| #[trigger] val_at(s@, pos as int, jv) implies ({
                        let fs = jv->Obj_0;
                        let k = fields0.len() as int;
                        &&& key@ == fs[k].0
                        &&& pk == p_0 + quoted(fs[k].0).len()
                        &&& (pk as int) < s@.len()
                        &&& s@[pk as int] == ':'
                        &&& val_at(s@, pk + 1, fs[k].1)
                    }) by {
                        lemma_obj_field_at(s@, pos as int, jv->Obj_0, fields0.len() as int);
                    }
                }
                let pc = skip_ws(s, pk);
                if !(pc < s.len() && s[pc] == ':') {
                    proof {
                        assert forall|jv: JsonV| !(#[trigger] val_at(s@, pos as int, jv)) by {
                            if val_at(s@, pos as int, jv) {
                                assert(!crate::text::is_space(s@[pk as int]));
                                assert(pc == pk);
                            }
                        }
                    }
                    return None;
                }
                let pv = skip_ws(s, pc + 1);
                proof {
                    assert forall|jv: JsonV| #[trigger] val_at(s@, pos as int, jv) implies ({
                        let fs = jv->Obj_0;
                        let k = fields0.len() as int;
                        &&& pc == pk
                        &&& pv == pk + 1
                        &&& val_at(s@, pv as int, fs[k].1)
                    }) by {
                        let fs = jv->Obj_0;
                        let k = fields0.len() as int;
                        assert(!crate::text::is_space(s@[pk as int]));
                        assert(pc == pk);
                        lemma_write_head(fs[k].1);
                        lemma_val_at_char(s@, pk + 1, fs[k].1, 0);
                        assert(!crate::text::is_space(s@[pk + 1]));
                    }
                }
                match parse_value(s, pv) {
                    None => {
                        proof {
                            assert forall|jv: JsonV| !(#[trigger] val_at(s@, pos as int, jv)) by {
                                if val_at(s@, pos as int, jv) {
                                    assert(val_at(
                                        s@,
                                        pv as int,
                                        jv->Obj_0[fields0.len() as int].1,
                                    ));
                                }
                            }
                        }
                        return None;
                    },
                    Some((v, p2)) => {
                        proof {
                            assert forall|jv: JsonV| #[trigger] val_at(s@, pos as int, jv) implies ({
                                let fs = jv->Obj_0;
                                let k = fields0.len() as int;
                                &&& v@ == fs[k].1
                                &&& p2 == pv + v_write(fs[k].1).len()
                                &&& (p2 as int) < s@.len()
                                &&& (k < fs.len() - 1 ==> s@[p2 as int] == ',')
                                &&& (k == fs.len() - 1 ==> s@[p2 as int] == '}')
                            }) by {
                                lemma_obj_field_at(s@, pos as int, jv->Obj_0, fields0.len() as int);
                            }
                        }
                        fields.push((key, v));
                        let p3 = skip_ws(s, p2);
                        proof {
                            assert forall|jv: JsonV| #[trigger] val_at(s@, pos as int, jv) implies ({
                                let fs = jv->Obj_0;
                                let k = fields0.len() as int;
                                &&& p3 == p2
                                &&& obj_view(fields@) == fs.take(k + 1)
                            }) by {
                                assert(!crate::text::is_space(s@[p2 as int]));
                                lemma_obj_view(fields@);
                                lemma_obj_view(fields0);
                                assert(obj_view(fields@) =~= jv->Obj_0.take(fields0.len() as int + 1));
                            }
                        }
                        if p3 < s.len() && s[p3] == ',' {
                            let p4 = skip_ws(s, p3 + 1);
                            proof {
                                assert forall|jv: JsonV| #[trigger] val_at(s@, pos as int, jv)
                                    implies ({
                                    let fs = jv->Obj_0;
                                    &&& (fields@.len() as int) < fs.len()
                                    &&& p4 == pos + 1 + obj_prefix_len(fs, fields@.len() as int)
                                    &&& p_0 < p4
                                }) by {
                                    let fs = jv->Obj_0;
                                    let k = fields0.len() as int;
                                    if k == fs.len() - 1 {
                                        assert(s@[p3 as int] == '}');
                                        assert(false);
                                    }
                                    lemma_obj_field_at(s@, pos as int, fs, k);
                                    lemma_obj_field_at(s@, pos as int, fs, k + 1);
                                    assert(s@[pos + 1 + obj_prefix_len(fs, k + 1)] == '"');
                                    assert(!crate::text::is_space(s@[p3 + 1]));
                                }
                            }
                            if p4 == p {
                                proof {
                                    assert forall|jv: JsonV| !(#[trigger] val_at(
                                        s@,
                                        pos as int,
                                        jv,
                                    )) by {
                                        if val_at(s@, pos as int, jv) {
                                            assert(p_0 < p4);
                                        }
                                    }
                                }
                                return None;
                            }
                            p = p4;
                        } else if p3 < s.len() && s[p3] == '}' {
                            proof {
                                assert forall|jv: JsonV| #[trigger] val_at(s@, pos as int, jv)
                                    implies (json_view(Json::Obj(fields)) == jv && p3 + 1 == pos
                                    + v_write(jv).len()) by {
                                    let fs = jv->Obj_0;
                                    let k = fields0.len() as int;
                                    if k < fs.len() - 1 {
                                        assert(s@[p3 as int] == ',');
                                        assert(false);
                                    }
                                    lemma_obj_field_at(s@, pos as int, fs, k);
                                    assert(fs.take(k + 1) =~= fs);
                                    assert(json_view(Json::Obj(fields)) =~~= jv);
                                }
                            }
                            return Some((Json::Obj(fields), p3 + 1));
                        } else {
                            proof {
                                assert forall|jv: JsonV| !(#[trigger] val_at(s@, pos as int, jv))
                                    by {
                                    if val_at(s@, pos as int, jv) {
                                        assert((p3 as int) < s@.len());
                                    }
                                }
                            }
                            return None;
                        }
                    },
                }
            },
        }
    }
}

/// Parse a complete JSON document: one value with only whitespace around it.
/// The writer's exact text for any well-formed value parses back to it.
pub fn parse_json(s: &Vec<char>) -> (r: Option<Json>)
    ensures
        forall|jv: JsonV|
            #![trigger v_write(jv)]
            wf_text(jv) && s@ == v_write(jv) ==> (r matches Some(j) && j@ == jv),
{
    proof {
        assert forall|jv: JsonV| wf_text(jv) && s@ == #[trigger] v_write(jv) implies val_at(
            s@,
            0,
            jv,
        ) by {
            lemma_write_head(jv);
            assert(s@.subrange(0, v_write(jv).len() as int) =~= v_write(jv));
        }
    }
    let p = skip_ws(s, 0);
    proof {
        assert forall|jv: JsonV| wf_text(jv) && s@ == #[trigger] v_write(jv) implies p == 0 by {
            lemma_write_head(jv);
            assert(s@[0] == v_write(jv)[0]);
            assert(!crate::text::is_space(s@[0]));
        }
    }
    if p >= s.len() {
        proof {
            assert forall|jv: JsonV| !(wf_text(jv) && s@ == #[trigger] v_write(jv)) by {
                if wf_text(jv) && s@ == v_write(jv) {
                    lemma_write_head(jv);
                }
            }
        }
        return None;
    }
    match parse_value(s, p) {
        None => {
            proof {
                assert forall|jv: JsonV| !(wf_text(jv) && s@ == #[trigger] v_write(jv)) by {
                    if wf_text(jv) && s@ == v_write(jv) {
                        assert(val_at(s@, 0, jv));
                    }
                }
            }
            None
        },
        Some((v, p2)) => {
            let p3 = skip_ws(s, p2);
            if p3 == s.len() {
                Some(v)
            } else {
                proof {
                    assert forall|jv: JsonV| !(wf_text(jv) && s@ == #[trigger] v_write(jv)) by {
                        if wf_text(jv) && s@ == v_write(jv) {
                            assert(val_at(s@, 0, jv));
                            assert(p2 == v_write(jv).len());
                            assert(p2 == s@.len());
                        }
                    }
                }
                None
            }
        },
    }
}

// ---------------------------------------------------------------------------
// Accessors and builders
// ---------------------------------------------------------------------------
/// The value of the first field named `key`, at the spec level.
pub open spec fn spec_obj_get(fields: Seq<(Vec<char>, Json)>, key: Seq<char>) -> Option<Json>
    decreases fields.len(),
{
    if fields.len() == 0 {
        None
    } else if fields[0].0@ == key {
        Some(fields[0].1)
    } else {
        spec_obj_get(fields.skip(1), key)
    }
}

/// Look up the first field named `key` in an object's field list.
pub fn obj_get<'a>(fields: &'a Vec<(Vec<char>, Json)>, key: &str) -> (r: Option<&'a Json>)
    ensures
        match r {
            Some(v) => spec_obj_get(fields@, key@) == Some(*v),
            None => spec_obj_get(fields@, key@) is None,
        },
{
    let kc = str_chars(key);
    assert(fields@.skip(0) =~= fields@);
    let mut i: usize = 0;
    while i < fields.len()
        invariant
            0 <= i <= fields@.len(),
            kc@ == key@,
            forall|j: int| 0 <= j < i ==> fields@[j].0@ != key@,
            spec_obj_get(fields@, key@) == spec_obj_get(fields@.skip(i as int), key@),
        decreases fields@.len() - i,
    {
        if chars_eq(&fields[i].0, &kc) {
            assert(fields@.skip(i as int)[0] == fields@[i as int]);
            return Some(&fields[i].1);
        }
        assert(fields@.skip(i as int).skip(1) =~= fields@.skip(i + 1));
        assert(fields@.skip(i as int)[0] == fields@[i as int]);
        i += 1;
    }
    assert(fields@.skip(i as int).len() == 0);
    None
}

/// The string contents of the field `key`, or empty when the field is absent
/// or not a string. This is the lenient accessor the transcript reader uses.
pub open spec fn spec_str_field(fields: Seq<(Vec<char>, Json)>, key: Seq<char>) -> Seq<char> {
    match spec_obj_get(fields, key) {
        Some(Json::Str(s)) => s@,
        _ => Seq::empty(),
    }
}

/// Read a string field leniently: absent or non-string fields read as empty.
pub fn str_field(fields: &Vec<(Vec<char>, Json)>, key: &str) -> (r: Vec<char>)
    ensures
        r@ == spec_str_field(fields@, key@),
{
    match obj_get(fields, key) {
        Some(Json::Str(s)) => s.clone(),
        _ => Vec::new(),
    }
}

// ---------------------------------------------------------------------------
// The mathematical model of a JSON value
// ---------------------------------------------------------------------------
/// The ghost model of a JSON value, over sequences.
#[verifier::ext_equal]
pub enum JsonV {
    Null,
    Bool(bool),
    Num(Seq<char>),
    Str(Seq<char>),
    Arr(Seq<JsonV>),
    Obj(Seq<(Seq<char>, JsonV)>),
}

/// The model of a concrete JSON value.
pub open spec fn json_view(j: Json) -> JsonV
    decreases j, 1int,
{
    match j {
        Json::Null => JsonV::Null,
        Json::Bool(b) => JsonV::Bool(b),
        Json::Num(t) => JsonV::Num(t@),
        Json::Str(s) => JsonV::Str(s@),
        Json::Arr(v) => JsonV::Arr(arr_view(v@)),
        Json::Obj(f) => JsonV::Obj(obj_view(f@)),
    }
}

/// The models of the elements of an array.
pub open spec fn arr_view(s: Seq<Json>) -> Seq<JsonV>
    decreases s, 0int,
{
    if s.len() == 0 {
        Seq::empty()
    } else {
        seq![json_view(s[0])] + arr_view(s.skip(1))
    }
}

/// The models of the fields of an object.
pub open spec fn obj_view(s: Seq<(Vec<char>, Json)>) -> Seq<(Seq<char>, JsonV)>
    decreases s, 0int,
{
    if s.len() == 0 {
        Seq::empty()
    } else {
        seq![(s[0].0@, json_view(s[0].1))] + obj_view(s.skip(1))
    }
}

impl View for Json {
    type V = JsonV;

    open spec fn view(&self) -> JsonV {
        json_view(*self)
    }
}

/// Element-wise description of `arr_view`.
pub proof fn lemma_arr_view(s: Seq<Json>)
    ensures
        arr_view(s).len() == s.len(),
        forall|i: int| 0 <= i < s.len() ==> arr_view(s)[i] == json_view(s[i]),
    decreases s,
{
    if s.len() > 0 {
        lemma_arr_view(s.skip(1));
    }
}

/// Element-wise description of `obj_view`.
pub proof fn lemma_obj_view(s: Seq<(Vec<char>, Json)>)
    ensures
        obj_view(s).len() == s.len(),
        forall|i: int|
            0 <= i < s.len() ==> obj_view(s)[i] == (s[i].0@, json_view(s[i].1)),
    decreases s,
{
    if s.len() > 0 {
        lemma_obj_view(s.skip(1));
    }
}

/// The value of the first field named `key` in a modelled object.
pub open spec fn v_obj_get(fields: Seq<(Seq<char>, JsonV)>, key: Seq<char>) -> Option<JsonV>
    decreases fields.len(),
{
    if fields.len() == 0 {
        None
    } else if fields[0].0 == key {
        Some(fields[0].1)
    } else {
        v_obj_get(fields.skip(1), key)
    }
}

/// The string contents of the field `key`, or empty when absent or not a
/// string: the lenient read the transcript decoder uses.
pub open spec fn v_str_field(fields: Seq<(Seq<char>, JsonV)>, key: Seq<char>) -> Seq<char> {
    match v_obj_get(fields, key) {
        Some(JsonV::Str(s)) => s,
        _ => Seq::empty(),
    }
}

/// Relates the concrete lenient string read to the modelled one.
pub proof fn lemma_str_field_view(fields: Seq<(Vec<char>, Json)>, key: Seq<char>)
    ensures
        v_str_field(obj_view(fields), key) == spec_str_field(fields, key),
{
    lemma_obj_get_view(fields, key);
    match spec_obj_get(fields, key) {
        Some(v) => {
            match v {
                Json::Str(s) => {},
                _ => {},
            }
        },
        None => {},
    }
}

/// Relates the concrete field lookup to the modelled one.
pub proof fn lemma_obj_get_view(fields: Seq<(Vec<char>, Json)>, key: Seq<char>)
    ensures
        match spec_obj_get(fields, key) {
            Some(v) => v_obj_get(obj_view(fields), key) == Some(json_view(v)),
            None => v_obj_get(obj_view(fields), key) is None,
        },
    decreases fields.len(),
{
    if fields.len() > 0 {
        lemma_obj_get_view(fields.skip(1), key);
        assert(obj_view(fields).skip(1) =~= obj_view(fields.skip(1))) by {
            lemma_obj_view(fields);
            lemma_obj_view(fields.skip(1));
        };
    }
}

/// A structural size measure, used as the termination measure for walks of a
/// JSON value.
pub open spec fn json_size(j: Json) -> nat
    decreases j,
{
    match j {
        Json::Arr(v) => 1 + json_size_seq(v@),
        Json::Obj(v) => 1 + json_size_obj(v@),
        _ => 1,
    }
}

/// Total size of a sequence of values.
pub open spec fn json_size_seq(s: Seq<Json>) -> nat
    decreases s,
{
    if s.len() == 0 {
        0
    } else {
        json_size(s[0]) + json_size_seq(s.skip(1))
    }
}

/// Total size of an object's field values.
pub open spec fn json_size_obj(s: Seq<(Vec<char>, Json)>) -> nat
    decreases s,
{
    if s.len() == 0 {
        0
    } else {
        json_size(s[0].1) + json_size_obj(s.skip(1))
    }
}

/// Every element counts no more than the whole sequence.
pub proof fn lemma_json_size_elem(s: Seq<Json>, i: int)
    requires
        0 <= i < s.len(),
    ensures
        json_size(s[i]) <= json_size_seq(s),
    decreases s,
{
    if i > 0 {
        lemma_json_size_elem(s.skip(1), i - 1);
    }
}

/// Every field's value counts no more than the whole field list.
pub proof fn lemma_json_size_field(s: Seq<(Vec<char>, Json)>, i: int)
    requires
        0 <= i < s.len(),
    ensures
        json_size(s[i].1) <= json_size_obj(s),
    decreases s,
{
    if i > 0 {
        lemma_json_size_field(s.skip(1), i - 1);
    }
}

/// The text the writer emits, phrased over the model of the value.
pub open spec fn v_write(jv: JsonV) -> Seq<char>
    decreases jv, 2int,
{
    match jv {
        JsonV::Null => seq!['n', 'u', 'l', 'l'],
        JsonV::Bool(b) => if b {
            seq!['t', 'r', 'u', 'e']
        } else {
            seq!['f', 'a', 'l', 's', 'e']
        },
        JsonV::Num(t) => t,
        JsonV::Str(s) => quoted(s),
        JsonV::Arr(items) => seq!['['] + v_write_arr(items) + seq![']'],
        JsonV::Obj(fields) => seq!['{'] + v_write_obj(fields) + seq!['}'],
    }
}

/// Modelled array elements joined by commas.
pub open spec fn v_write_arr(s: Seq<JsonV>) -> Seq<char>
    decreases s, 1int,
{
    if s.len() == 0 {
        Seq::empty()
    } else if s.len() == 1 {
        v_write(s[0])
    } else {
        v_write(s[0]) + seq![','] + v_write_arr(s.skip(1))
    }
}

/// Modelled object fields joined by commas.
pub open spec fn v_write_obj(s: Seq<(Seq<char>, JsonV)>) -> Seq<char>
    decreases s, 1int,
{
    if s.len() == 0 {
        Seq::empty()
    } else if s.len() == 1 {
        quoted(s[0].0) + seq![':'] + v_write(s[0].1)
    } else {
        quoted(s[0].0) + seq![':'] + v_write(s[0].1) + seq![','] + v_write_obj(s.skip(1))
    }
}

/// The writer's text depends only on the model of the value.
pub proof fn lemma_write_view(j: Json)
    ensures
        spec_write(j) == v_write(j@),
    decreases j, 2int,
{
    match j {
        Json::Arr(items) => {
            lemma_write_view_arr(items@);
        },
        Json::Obj(fields) => {
            lemma_write_view_obj(fields@);
        },
        _ => {},
    }
}

proof fn lemma_write_view_arr(s: Seq<Json>)
    ensures
        spec_write_arr(s) == v_write_arr(arr_view(s)),
    decreases s, 1int,
{
    lemma_arr_view(s);
    if s.len() == 0 {
    } else if s.len() == 1 {
        lemma_write_view(s[0]);
        assert(arr_view(s)[0] == json_view(s[0]));
    } else {
        lemma_write_view(s[0]);
        lemma_write_view_arr(s.skip(1));
        lemma_arr_view(s.skip(1));
        assert(arr_view(s).skip(1) =~= arr_view(s.skip(1)));
        assert(arr_view(s)[0] == json_view(s[0]));
    }
}

proof fn lemma_write_view_obj(s: Seq<(Vec<char>, Json)>)
    ensures
        spec_write_obj(s) == v_write_obj(obj_view(s)),
    decreases s, 1int,
{
    lemma_obj_view(s);
    if s.len() == 0 {
    } else if s.len() == 1 {
        lemma_write_view(s[0].1);
        assert(obj_view(s)[0] == (s[0].0@, json_view(s[0].1)));
    } else {
        lemma_write_view(s[0].1);
        lemma_write_view_obj(s.skip(1));
        lemma_obj_view(s.skip(1));
        assert(obj_view(s).skip(1) =~= obj_view(s.skip(1)));
        assert(obj_view(s)[0] == (s[0].0@, json_view(s[0].1)));
    }
}

/// Render a JSON value as a `String`, by its model.
pub fn write_json_text(j: &Json) -> (r: String)
    ensures
        r@ == v_write(j@),
{
    proof {
        lemma_write_view(*j);
    }
    let v = write_json(j);
    crate::text::chars_to_string(&v)
}

/// Parse a document held in a `String`. The writer's exact text for any
/// well-formed value parses back to it.
pub fn parse_json_text(s: &str) -> (r: Option<Json>)
    ensures
        forall|jv: JsonV|
            #![trigger v_write(jv)]
            wf_text(jv) && s@ == v_write(jv) ==> (r matches Some(j) && j@ == jv),
{
    let cs = str_chars(s);
    parse_json(&cs)
}

/// Deep-copy a JSON value; the copy has the same model.
#[verifier::loop_isolation(false)]
pub fn json_clone(j: &Json) -> (r: Json)
    ensures
        r@ == j@,
    decreases json_size(*j),
{
    match j {
        Json::Null => Json::Null,
        Json::Bool(b) => Json::Bool(*b),
        Json::Num(t) => Json::Num(t.clone()),
        Json::Str(s) => Json::Str(s.clone()),
        Json::Arr(v) => {
            let mut out: Vec<Json> = Vec::new();
            let mut k: usize = 0;
            while k < v.len()
                invariant
                    0 <= k <= v@.len(),
                    out@.len() == k,
                    forall|i: int| 0 <= i < k ==> json_view(#[trigger] out@[i]) == json_view(v@[i]),
                decreases v@.len() - k,
            {
                proof {
                    lemma_json_size_elem(v@, k as int);
                }
                let c = json_clone(&v[k]);
                out.push(c);
                k += 1;
            }
            proof {
                lemma_arr_view(out@);
                lemma_arr_view(v@);
                assert(arr_view(out@) =~= arr_view(v@));
            }
            Json::Arr(out)
        },
        Json::Obj(f) => {
            let mut out: Vec<(Vec<char>, Json)> = Vec::new();
            let mut k: usize = 0;
            while k < f.len()
                invariant
                    0 <= k <= f@.len(),
                    out@.len() == k,
                    forall|i: int|
                        0 <= i < k ==> (#[trigger] out@[i]).0@ == f@[i].0@ && json_view(
                            out@[i].1,
                        ) == json_view(f@[i].1),
                decreases f@.len() - k,
            {
                proof {
                    lemma_json_size_field(f@, k as int);
                }
                let kc = f[k].0.clone();
                let vc = json_clone(&f[k].1);
                out.push((kc, vc));
                k += 1;
            }
            proof {
                lemma_obj_view(out@);
                lemma_obj_view(f@);
                assert(obj_view(out@) =~= obj_view(f@));
            }
            Json::Obj(out)
        },
    }
}

/// A JSON string value for the characters of `s`.
pub fn json_str(s: &str) -> (r: Json)
    ensures
        r matches Json::Str(v) && v@ == s@,
{
    Json::Str(str_chars(s))
}

} // verus!
