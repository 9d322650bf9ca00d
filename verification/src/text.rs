//! Character-level text utilities shared by the codecs and tools.
//!
//! All internal text logic works on `Vec<char>` (viewed as `Seq<char>`), with
//! two trusted conversions to and from `String` at the public boundary.

use vstd::prelude::*;

verus! {

/// Relies on `std::iter::Iterator::collect` via `str::chars`: the collected
/// characters of a string are exactly its view.
#[verifier::external_body]
pub fn str_chars(s: &str) -> (r: Vec<char>)
    ensures
        r@ == s@,
{
    s.chars().collect()
}

/// Relies on `String: FromIterator<char>`: collecting characters yields the
/// string whose characters they are.
#[verifier::external_body]
pub fn chars_to_string(v: &Vec<char>) -> (r: String)
    ensures
        r@ == v@,
{
    v.iter().collect()
}

/// Append every character of `s` to the accumulator `acc`.
pub fn push_str(acc: &mut Vec<char>, s: &str)
    ensures
        final(acc)@ == old(acc)@ + s@,
{
    let mut cs = str_chars(s);
    acc.append(&mut cs);
}

/// Append every character of `s` to the accumulator `acc`.
pub fn push_chars(acc: &mut Vec<char>, s: &Vec<char>)
    ensures
        final(acc)@ == old(acc)@ + s@,
{
    let mut cs = s.clone();
    acc.append(&mut cs);
}

/// The decimal digit character for a value below ten.
pub open spec fn spec_digit(d: nat) -> char {
    if d == 0 { '0' }
    else if d == 1 { '1' }
    else if d == 2 { '2' }
    else if d == 3 { '3' }
    else if d == 4 { '4' }
    else if d == 5 { '5' }
    else if d == 6 { '6' }
    else if d == 7 { '7' }
    else if d == 8 { '8' }
    else { '9' }
}

/// Decimal digits of `n`, most significant first.
pub open spec fn spec_dec(n: nat) -> Seq<char>
    decreases n,
{
    if n < 10 {
        seq![spec_digit(n)]
    } else {
        spec_dec(n / 10) + seq![spec_digit(n % 10)]
    }
}

fn digit_char(d: u64) -> (r: char)
    requires
        d < 10,
    ensures
        r == spec_digit(d as nat),
{
    if d == 0 { '0' }
    else if d == 1 { '1' }
    else if d == 2 { '2' }
    else if d == 3 { '3' }
    else if d == 4 { '4' }
    else if d == 5 { '5' }
    else if d == 6 { '6' }
    else if d == 7 { '7' }
    else if d == 8 { '8' }
    else { '9' }
}

/// Render `n` in decimal.
pub fn u64_chars(n: u64) -> (r: Vec<char>)
    ensures
        r@ == spec_dec(n as nat),
    decreases n,
{
    if n < 10 {
        let mut v: Vec<char> = Vec::new();
        v.push(digit_char(n));
        v
    } else {
        let mut v = u64_chars(n / 10);
        v.push(digit_char(n % 10));
        assert(v@ == spec_dec((n / 10) as nat) + seq![spec_digit((n % 10) as nat)]);
        v
    }
}

/// Decimal rendering of `n`, with a leading minus sign when negative.
pub open spec fn spec_i64_dec(n: int) -> Seq<char> {
    if n < 0 {
        seq!['-'] + spec_dec((-n) as nat)
    } else {
        spec_dec(n as nat)
    }
}

/// Render a signed value in decimal.
pub fn i64_chars(n: i64) -> (r: Vec<char>)
    ensures
        r@ == spec_i64_dec(n as int),
{
    if n < 0 {
        let mut v: Vec<char> = Vec::new();
        v.push('-');
        let mag: u64 = if n == i64::MIN { 9223372036854775808u64 } else { (-n) as u64 };
        let mut m = u64_chars(mag);
        v.append(&mut m);
        v
    } else {
        u64_chars(n as u64)
    }
}

/// `n` in decimal, left-padded with zeroes to at least `width` characters.
pub open spec fn spec_dec_pad(n: nat, width: nat) -> Seq<char>
    decreases width,
{
    if spec_dec(n).len() >= width {
        spec_dec(n)
    } else {
        seq!['0'] + spec_dec_pad(n, (width - 1) as nat)
    }
}

/// Render `n` in decimal, zero-padded to at least `width` characters.
pub fn u64_chars_pad(n: u64, width: usize) -> (r: Vec<char>)
    ensures
        r@ == spec_dec_pad(n as nat, width as nat),
    decreases width,
{
    let digits = u64_chars(n);
    if digits.len() >= width {
        digits
    } else {
        let mut v: Vec<char> = Vec::new();
        v.push('0');
        let mut rest = u64_chars_pad(n, width - 1);
        v.append(&mut rest);
        v
    }
}

/// Compare two character vectors for equality of their contents.
pub fn chars_eq(a: &Vec<char>, b: &Vec<char>) -> (r: bool)
    ensures
        r == (a@ == b@),
{
    if a.len() != b.len() {
        return false;
    }
    let mut k: usize = 0;
    while k < a.len()
        invariant
            a@.len() == b@.len(),
            0 <= k <= a@.len(),
            forall|j: int| 0 <= j < k ==> a@[j] == b@[j],
        decreases a@.len() - k,
    {
        if a[k] != b[k] {
            return false;
        }
        k += 1;
    }
    assert(a@ =~= b@);
    true
}

/// True when every character of `s` is a decimal digit.
pub open spec fn all_digits(s: Seq<char>) -> bool {
    forall|i: int| 0 <= i < s.len() ==> 48 <= (#[trigger] s[i]) as u32 <= 57
}

/// The numeric value of a digit string, most significant digit first.
pub open spec fn dec_val(s: Seq<char>) -> nat
    decreases s.len(),
{
    if s.len() == 0 {
        0
    } else {
        (dec_val(s.take(s.len() - 1)) * 10 + ((s[s.len() - 1] as u32) - 48)) as nat
    }
}

/// The value of a prefix never exceeds the value of the whole digit string.
pub proof fn lemma_dec_val_prefix(s: Seq<char>, m: int)
    requires
        0 <= m <= s.len(),
        all_digits(s),
    ensures
        dec_val(s.take(m)) <= dec_val(s),
    decreases s.len() - m,
{
    if m < s.len() {
        lemma_dec_val_prefix(s, m + 1);
        assert(s.take(m + 1).take(m) =~= s.take(m));
        assert(s.take(m + 1)[m] == s[m]);
        assert(48 <= s[m] as u32 <= 57);
        assert(dec_val(s.take(m + 1)) == (dec_val(s.take(m)) * 10 + ((s[m] as u32) - 48)) as nat);
        assert(dec_val(s.take(m)) <= dec_val(s.take(m + 1)));
    } else {
        assert(s.take(m) =~= s);
    }
}

/// The value a decimal token denotes when it is a plain digit string that
/// fits in a `u64`.
pub open spec fn u64_of_token(s: Seq<char>) -> Option<u64> {
    if s.len() > 0 && all_digits(s) && dec_val(s) <= u64::MAX {
        Some(dec_val(s) as u64)
    } else {
        None
    }
}

/// Parse a plain decimal digit string into a `u64`.
#[verifier::loop_isolation(false)]
pub fn parse_u64(s: &Vec<char>) -> (r: Option<u64>)
    ensures
        r == u64_of_token(s@),
{
    if s.len() == 0 {
        return None;
    }
    let mut acc: u64 = 0;
    let mut k: usize = 0;
    while k < s.len()
        invariant
            0 <= k <= s@.len(),
            all_digits(s@.take(k as int)),
            acc == dec_val(s@.take(k as int)),
        decreases s@.len() - k,
    {
        let c = s[k];
        let u = c as u32;
        if !(u >= 48 && u <= 57) {
            proof {
                assert((s@[k as int] as u32) < 48 || (s@[k as int] as u32) > 57);
                assert(!all_digits(s@));
            }
            return None;
        }
        let d: u64 = (u - 48) as u64;
        if acc > (u64::MAX - d) / 10 {
            proof {
                assert(s@.take(k + 1).take(k as int) =~= s@.take(k as int));
                assert(s@.take(k + 1)[k as int] == s@[k as int]);
                assert(dec_val(s@.take(k + 1)) == (acc * 10 + d as int) as nat);
                if all_digits(s@) {
                    lemma_dec_val_prefix(s@, k + 1);
                    assert(dec_val(s@) > u64::MAX);
                }
            }
            return None;
        }
        acc = acc * 10 + d;
        proof {
            assert(s@.take(k + 1).take(k as int) =~= s@.take(k as int));
            assert(s@.take(k + 1)[k as int] == s@[k as int]);
        }
        k += 1;
    }
    assert(s@.take(s@.len() as int) =~= s@);
    Some(acc)
}

/// The value a decimal token denotes as a `u32`, when it fits.
pub open spec fn u32_of_token(s: Seq<char>) -> Option<u32> {
    if s.len() > 0 && all_digits(s) && dec_val(s) <= u32::MAX {
        Some(dec_val(s) as u32)
    } else {
        None
    }
}

/// Parse a plain decimal digit string into a `u32`.
pub fn parse_u32(s: &Vec<char>) -> (r: Option<u32>)
    ensures
        r == u32_of_token(s@),
{
    match parse_u64(s) {
        Some(v) => {
            if v <= 0xFFFF_FFFF {
                Some(v as u32)
            } else {
                None
            }
        },
        None => None,
    }
}

/// The value a signed decimal token denotes, when it fits in an `i64`.
pub open spec fn i64_of_token(s: Seq<char>) -> Option<i64> {
    if s.len() > 0 && s[0] == '-' {
        let mag = s.skip(1);
        if mag.len() > 0 && all_digits(mag) && dec_val(mag) <= 0x8000_0000_0000_0000 {
            Some((-(dec_val(mag) as int)) as i64)
        } else {
            None
        }
    } else if s.len() > 0 && all_digits(s) && dec_val(s) <= i64::MAX {
        Some(dec_val(s) as i64)
    } else {
        None
    }
}

/// Parse a decimal token, with an optional leading minus, into an `i64`.
pub fn parse_i64(s: &Vec<char>) -> (r: Option<i64>)
    ensures
        r == i64_of_token(s@),
{
    if s.len() > 0 && s[0] == '-' {
        let mut mag: Vec<char> = Vec::new();
        let mut k: usize = 1;
        while k < s.len()
            invariant
                1 <= k <= s@.len(),
                mag@ == s@.subrange(1, k as int),
            decreases s@.len() - k,
        {
            mag.push(s[k]);
            assert(mag@ =~= s@.subrange(1, k + 1));
            k += 1;
        }
        assert(mag@ =~= s@.skip(1));
        match parse_u64(&mag) {
            Some(v) => {
                if v < 0x8000_0000_0000_0000 {
                    Some(-(v as i64))
                } else if v == 0x8000_0000_0000_0000 {
                    Some(i64::MIN)
                } else {
                    None
                }
            },
            None => None,
        }
    } else {
        match parse_u64(s) {
            Some(v) => {
                if v <= i64::MAX as u64 {
                    Some(v as i64)
                } else {
                    None
                }
            },
            None => None,
        }
    }
}

/// Decimal rendering round-trips: the digits of `n` denote `n`.
pub proof fn lemma_dec_round(n: nat)
    ensures
        all_digits(spec_dec(n)),
        dec_val(spec_dec(n)) == n,
        spec_dec(n).len() >= 1,
        48 <= spec_dec(n)[0] as u32 <= 57,
    decreases n,
{
    if n < 10 {
        assert(spec_dec(n) =~= seq![spec_digit(n)]);
        assert(spec_dec(n).take(0) =~= Seq::<char>::empty());
        assert(dec_val(Seq::<char>::empty()) == 0);
        assert(dec_val(spec_dec(n)) == (dec_val(spec_dec(n).take(0)) * 10 + (spec_dec(n)[0] as u32
            - 48)) as nat);
        assert(48 <= spec_digit(n) as u32 <= 57);
        assert((spec_digit(n) as u32 - 48) as nat == n);
    } else {
        lemma_dec_round(n / 10);
        let s = spec_dec(n);
        assert(s =~= spec_dec(n / 10) + seq![spec_digit(n % 10)]);
        assert(s.take(s.len() - 1) =~= spec_dec(n / 10));
        assert(s[s.len() - 1] == spec_digit(n % 10));
        assert(48 <= spec_digit(n % 10) as u32 <= 57);
        assert(dec_val(s) == (dec_val(spec_dec(n / 10)) * 10 + (spec_digit(n % 10) as u32
            - 48)) as nat);
        assert((spec_digit(n % 10) as u32 - 48) as nat == n % 10);
        assert(dec_val(s) == ((n / 10) * 10 + n % 10) as nat);
    }
}

/// A `u32` written in decimal reads back as itself.
pub proof fn lemma_u32_token_round(n: u32)
    ensures
        u32_of_token(spec_dec(n as nat)) == Some(n),
{
    lemma_dec_round(n as nat);
}

/// An `i64` written in decimal, sign included, reads back as itself.
pub proof fn lemma_i64_token_round(n: i64)
    ensures
        i64_of_token(spec_i64_dec(n as int)) == Some(n),
{
    if n < 0 {
        let mag = (-(n as int)) as nat;
        lemma_dec_round(mag);
        let s = spec_i64_dec(n as int);
        assert(s =~= seq!['-'] + spec_dec(mag));
        assert(s[0] == '-');
        assert(s.skip(1) =~= spec_dec(mag));
        assert(mag <= 0x8000_0000_0000_0000);
    } else {
        lemma_dec_round(n as nat);
        let s = spec_i64_dec(n as int);
        assert(s == spec_dec(n as nat));
        assert(s[0] != '-') by {
            assert(48 <= s[0] as u32 <= 57);
            assert(('-' as u32) == 45);
        };
    }
}

/// True when `pat` occurs in `s` starting at index `i`.
pub open spec fn match_at(s: Seq<char>, pat: Seq<char>, i: int) -> bool {
    0 <= i && i + pat.len() <= s.len() && s.subrange(i, i + pat.len()) == pat
}

/// The first index where `pat` occurs in `s`, if any.
pub open spec fn first_match(s: Seq<char>, pat: Seq<char>) -> Option<int> {
    if exists|i: int| match_at(s, pat, i) {
        Some(choose|i: int| match_at(s, pat, i) && forall|j: int| 0 <= j < i ==> !match_at(s, pat, j))
    } else {
        None
    }
}

fn match_at_exec(s: &Vec<char>, pat: &Vec<char>, i: usize) -> (r: bool)
    requires
        i + pat@.len() <= s@.len(),
    ensures
        r == match_at(s@, pat@, i as int),
{
    let n = s.len();
    let mut k: usize = 0;
    while k < pat.len()
        invariant
            i + pat@.len() <= n == s@.len(),
            0 <= k <= pat@.len(),
            forall|j: int| 0 <= j < k ==> s@[i + j] == pat@[j],
        decreases pat@.len() - k,
    {
        if s[i + k] != pat[k] {
            assert(s@.subrange(i as int, i + pat@.len())[k as int] != pat@[k as int]);
            return false;
        }
        k += 1;
    }
    assert(s@.subrange(i as int, i + pat@.len()) =~= pat@);
    true
}

/// Find the first occurrence of `pat` in `s`.
pub fn find_first(s: &Vec<char>, pat: &Vec<char>) -> (r: Option<usize>)
    ensures
        match r {
            Some(i) => {
                &&& match_at(s@, pat@, i as int)
                &&& forall|j: int| 0 <= j < i ==> !match_at(s@, pat@, j)
                &&& first_match(s@, pat@) == Some(i as int)
            },
            None => {
                &&& forall|j: int| !match_at(s@, pat@, j)
                &&& first_match(s@, pat@) is None
            },
        },
{
    if pat.len() > s.len() {
        assert(forall|j: int| !match_at(s@, pat@, j));
        return None;
    }
    if pat.len() == 0 {
        assert(s@.subrange(0, 0) =~= pat@);
        assert(match_at(s@, pat@, 0));
        return Some(0);
    }
    let n = s.len();
    let mut i: usize = 0;
    while i <= n - pat.len()
        invariant
            1 <= pat@.len() <= n == s@.len(),
            0 <= i <= n - pat@.len() + 1,
            forall|j: int| 0 <= j < i ==> !match_at(s@, pat@, j),
        decreases s@.len() - pat@.len() - i + 1,
    {
        if match_at_exec(s, pat, i) {
            assert(first_match(s@, pat@) == Some(i as int)) by {
                let w = choose|w: int| match_at(s@, pat@, w) && forall|j: int| 0 <= j < w ==> !match_at(s@, pat@, j);
                assert(match_at(s@, pat@, i as int));
            };
            return Some(i);
        }
        i += 1;
    }
    assert(forall|j: int| !match_at(s@, pat@, j));
    None
}

/// True when `s` contains `pat`.
pub open spec fn contains_seq(s: Seq<char>, pat: Seq<char>) -> bool {
    exists|i: int| match_at(s, pat, i)
}

/// Replace the first occurrence of `old_text` in `content` with `new_text`;
/// `None` when `old_text` does not occur.
pub fn replace_first(content: &Vec<char>, old_text: &Vec<char>, new_text: &Vec<char>) -> (r: Option<
    Vec<char>,
>)
    ensures
        match r {
            Some(out) => {
                &&& contains_seq(content@, old_text@)
                &&& first_match(content@, old_text@) is Some
                &&& out@ == content@.take(first_match(content@, old_text@).unwrap()) + new_text@
                    + content@.skip(first_match(content@, old_text@).unwrap() + old_text@.len())
            },
            None => !contains_seq(content@, old_text@),
        },
{
    match find_first(content, old_text) {
        None => None,
        Some(i) => {
            let n = content.len();
            assert(i + old_text@.len() <= n);
            let mut out: Vec<char> = Vec::new();
            let mut k: usize = 0;
            while k < i
                invariant
                    0 <= k <= i,
                    i + old_text@.len() <= content@.len(),
                    out@ == content@.take(k as int),
                decreases i - k,
            {
                out.push(content[k]);
                assert(out@ =~= content@.take(k + 1));
                k += 1;
            }
            push_chars(&mut out, new_text);
            let mut k2: usize = i + old_text.len();
            while k2 < content.len()
                invariant
                    i + old_text@.len() <= k2 <= content@.len(),
                    out@ == content@.take(i as int) + new_text@ + content@.subrange(
                        i + old_text@.len(),
                        k2 as int,
                    ),
                decreases content@.len() - k2,
            {
                out.push(content[k2]);
                assert(out@ =~= content@.take(i as int) + new_text@ + content@.subrange(
                    i + old_text@.len(),
                    k2 + 1,
                ));
                k2 += 1;
            }
            assert(content@.subrange(i + old_text@.len(), content@.len() as int) =~= content@.skip(
                i + old_text@.len(),
            ));
            Some(out)
        },
    }
}

/// `s` with every occurrence of `from` replaced by `to`.
pub open spec fn spec_replace_char(s: Seq<char>, from: char, to: char) -> Seq<char> {
    s.map_values(|c: char| if c == from { to } else { c })
}

/// Replace every occurrence of the character `from` with `to`.
pub fn replace_char(s: &Vec<char>, from: char, to: char) -> (r: Vec<char>)
    ensures
        r@ == spec_replace_char(s@, from, to),
{
    let mut out: Vec<char> = Vec::new();
    let mut k: usize = 0;
    while k < s.len()
        invariant
            0 <= k <= s@.len(),
            out@ == spec_replace_char(s@.take(k as int), from, to),
        decreases s@.len() - k,
    {
        let c = s[k];
        out.push(if c == from { to } else { c });
        assert(out@ =~= spec_replace_char(s@.take(k + 1), from, to));
        k += 1;
    }
    assert(s@.take(s@.len() as int) =~= s@);
    out
}

/// ASCII whitespace, as `str::trim` treats the usual cases.
pub open spec fn is_space(c: char) -> bool {
    c == ' ' || c == '\t' || c == '\n' || c == '\r'
}

/// `s` without leading and trailing whitespace.
pub open spec fn spec_trim(s: Seq<char>) -> Seq<char>
    decreases s.len(),
{
    if s.len() == 0 {
        s
    } else if is_space(s[0]) {
        spec_trim(s.skip(1))
    } else if is_space(s[s.len() - 1]) {
        spec_trim(s.take(s.len() - 1))
    } else {
        s
    }
}

/// Strip leading and trailing whitespace.
#[verifier::rlimit(50)]
pub fn trim_chars(s: &Vec<char>) -> (r: Vec<char>)
    ensures
        r@ == spec_trim(s@),
{
    let mut lo: usize = 0;
    let mut hi: usize = s.len();
    assert(s@.subrange(0, s@.len() as int) =~= s@);
    while lo < hi && (s[lo] == ' ' || s[lo] == '\t' || s[lo] == '\n' || s[lo] == '\r')
        invariant
            0 <= lo <= hi <= s@.len(),
            spec_trim(s@) == spec_trim(s@.subrange(lo as int, hi as int)),
        decreases hi - lo,
    {
        assert(s@.subrange(lo as int, hi as int).skip(1) =~= s@.subrange(lo + 1, hi as int));
        lo += 1;
    }
    while lo < hi && (s[hi - 1] == ' ' || s[hi - 1] == '\t' || s[hi - 1] == '\n' || s[hi - 1]
        == '\r')
        invariant
            0 <= lo <= hi <= s@.len(),
            spec_trim(s@) == spec_trim(s@.subrange(lo as int, hi as int)),
            lo < hi ==> !is_space(s@[lo as int]),
        decreases hi - lo,
    {
        assert(s@.subrange(lo as int, hi as int).take(hi - lo - 1) =~= s@.subrange(
            lo as int,
            hi - 1,
        ));
        hi -= 1;
    }
    let mut out: Vec<char> = Vec::new();
    let mut k: usize = lo;
    while k < hi
        invariant
            lo <= k <= hi <= s@.len(),
            out@ == s@.subrange(lo as int, k as int),
        decreases hi - k,
    {
        out.push(s[k]);
        assert(out@ =~= s@.subrange(lo as int, k + 1));
        k += 1;
    }
    proof {
        if lo < hi {
            assert(!is_space(s@.subrange(lo as int, hi as int)[0]));
            assert(!is_space(s@.subrange(lo as int, hi as int)[hi - lo - 1]));
        }
        assert(spec_trim(s@.subrange(lo as int, hi as int)) == s@.subrange(lo as int, hi as int));
    }
    out
}

/// The first `max` characters of `s`, with an ellipsis appended when anything
/// was cut off; `s` itself otherwise.
pub open spec fn spec_truncate(s: Seq<char>, max: nat) -> Seq<char> {
    if s.len() <= max {
        s
    } else {
        s.take(max as int) + seq!['.', '.', '.']
    }
}

/// Truncate to at most `max` characters, marking the cut with an ellipsis.
pub fn truncate_chars(s: &Vec<char>, max: usize) -> (r: Vec<char>)
    ensures
        r@ == spec_truncate(s@, max as nat),
{
    if s.len() <= max {
        s.clone()
    } else {
        let mut out: Vec<char> = Vec::new();
        let mut k: usize = 0;
        while k < max
            invariant
                max < s@.len(),
                0 <= k <= max,
                out@ == s@.take(k as int),
            decreases max - k,
        {
            out.push(s[k]);
            assert(out@ =~= s@.take(k + 1));
            k += 1;
        }
        out.push('.');
        out.push('.');
        out.push('.');
        assert(out@ =~= s@.take(max as int) + seq!['.', '.', '.']);
        out
    }
}

} // verus!
