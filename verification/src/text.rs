//! Text helpers over the character view of strings.
//!
//! Every function here is stated over `Seq<char>`, the view of `str` and
//! `String`, so that the rules built on top can be read as plain mathematics.

use vstd::prelude::*;
use vstd::string::*;
use vstd::utf8::*;

verus! {

/// `pat` occurs in `s` starting at index `i`.
pub open spec fn occurs_at(s: Seq<char>, pat: Seq<char>, i: int) -> bool {
    0 <= i && i + pat.len() <= s.len() && s.subrange(i, i + pat.len()) == pat
}

/// The greatest index not above `i` at which `pat` occurs in `s`, or `-1`.
pub open spec fn last_index_upto(s: Seq<char>, pat: Seq<char>, i: int) -> int
    decreases i + 1,
{
    if i < 0 {
        -1
    } else if occurs_at(s, pat, i) {
        i
    } else {
        last_index_upto(s, pat, i - 1)
    }
}

/// The index of the last occurrence of `pat` in `s`, or `-1` if there is none.
pub open spec fn last_index(s: Seq<char>, pat: Seq<char>) -> int {
    last_index_upto(s, pat, s.len() - pat.len())
}

/// What follows the last occurrence of `pat` in `s`; all of `s` if `pat`
/// does not occur.
pub open spec fn after_last(s: Seq<char>, pat: Seq<char>) -> Seq<char> {
    let i = last_index(s, pat);
    if i < 0 {
        s
    } else {
        s.subrange(i + pat.len(), s.len() as int)
    }
}

/// `s` begins with `prefix`.
pub open spec fn has_prefix(s: Seq<char>, prefix: Seq<char>) -> bool {
    prefix.len() <= s.len() && s.subrange(0, prefix.len() as int) == prefix
}

/// `s` ends with `suffix`.
pub open spec fn has_suffix(s: Seq<char>, suffix: Seq<char>) -> bool {
    suffix.len() <= s.len() && s.subrange(s.len() - suffix.len(), s.len() as int) == suffix
}

/// `s` with every `from` replaced by `to`.
pub open spec fn replaced(s: Seq<char>, from: char, to: char) -> Seq<char> {
    Seq::new(s.len(), |i: int| if s[i] == from { to } else { s[i] })
}

/// `c` is a decimal digit.
pub open spec fn is_digit(c: char) -> bool {
    '0' <= c && c <= '9'
}

/// Every character of `s` is a decimal digit.
pub open spec fn all_digits(s: Seq<char>) -> bool {
    forall|i: int| 0 <= i < s.len() ==> is_digit(#[trigger] s[i])
}

/// The number that the decimal digits `s` write.
pub open spec fn decimal_value(s: Seq<char>) -> nat
    decreases s.len(),
{
    if s.len() == 0 {
        0
    } else {
        (decimal_value(s.drop_last()) * 10 + (s.last() as u32 - '0' as u32)) as nat
    }
}

/// `s` without one leading plus sign.
pub open spec fn without_plus(s: Seq<char>) -> Seq<char> {
    if s.len() > 0 && s[0] == '+' {
        s.drop_first()
    } else {
        s
    }
}

/// The unsigned 64-bit number that `s` writes in decimal: an optional plus
/// sign, then at least one digit and nothing else, the value within range.
pub open spec fn parsed_u64(s: Seq<char>) -> Option<u64> {
    let d = without_plus(s);
    if d.len() > 0 && all_digits(d) && decimal_value(d) <= u64::MAX {
        Some(decimal_value(d) as u64)
    } else {
        None
    }
}

/// The last occurrence is an occurrence, and none comes after it.
pub proof fn lemma_last_index(s: Seq<char>, pat: Seq<char>)
    ensures
        last_index(s, pat) >= 0 ==> occurs_at(s, pat, last_index(s, pat)),
        forall|j: int| last_index(s, pat) < j ==> !occurs_at(s, pat, j),
        last_index(s, pat) >= -1,
{
    lemma_last_index_upto(s, pat, s.len() - pat.len());
}

proof fn lemma_last_index_upto(s: Seq<char>, pat: Seq<char>, i: int)
    ensures
        last_index_upto(s, pat, i) >= 0 ==> occurs_at(s, pat, last_index_upto(s, pat, i)),
        forall|j: int| last_index_upto(s, pat, i) < j <= i ==> !occurs_at(s, pat, j),
        -1 <= last_index_upto(s, pat, i),
        last_index_upto(s, pat, i) <= i || i < -1,
    decreases i + 1,
{
    if i >= 0 && !occurs_at(s, pat, i) {
        lemma_last_index_upto(s, pat, i - 1);
    }
}

/// A prefix of a digit string writes no larger a number than the whole.
proof fn lemma_decimal_prefix(s: Seq<char>, n: int)
    requires
        all_digits(s),
        0 <= n <= s.len(),
    ensures
        decimal_value(s.take(n)) <= decimal_value(s),
    decreases s.len() - n,
{
    if n == s.len() {
        assert(s.take(n) == s);
    } else {
        lemma_decimal_prefix(s, n + 1);
        assert(s.take(n + 1).drop_last() == s.take(n));
        assert(is_digit(s.take(n + 1).last()));
    }
}

/// The characters of `s`, in order.
pub fn chars_of(s: &str) -> (v: Vec<char>)
    ensures
        v@ == s@,
{
    let mut v: Vec<char> = Vec::new();
    for c in it: s.chars()
        invariant
            v@ == it.seq().take(it.index() as int),
            it.seq() == s@,
    {
        v.push(c);
    }
    v
}

/// Whether `pat` stands in `hay` at index `at`.
pub fn matches_at(hay: &Vec<char>, pat: &Vec<char>, at: usize) -> (r: bool)
    ensures
        r == occurs_at(hay@, pat@, at as int),
{
    if pat.len() > hay.len() || at > hay.len() - pat.len() {
        return false;
    }
    let mut k: usize = 0;
    while k < pat.len()
        invariant
            k <= pat.len(),
            at + pat.len() <= hay.len(),
            forall|j: int| 0 <= j < k ==> hay@[at + j] == pat@[j],
        decreases pat.len() - k,
    {
        if hay[at + k] != pat[k] {
            assert(hay@.subrange(at as int, at + pat.len())[k as int] == hay@[at + k]);
            return false;
        }
        k = k + 1;
    }
    assert(hay@.subrange(at as int, at + pat.len()) =~= pat@);
    true
}

/// Where `pat` last occurs in `hay`.
pub fn find_last(hay: &Vec<char>, pat: &Vec<char>) -> (r: Option<usize>)
    ensures
        match r {
            Some(i) => i as int == last_index(hay@, pat@),
            None => last_index(hay@, pat@) == -1,
        },
{
    if pat.len() > hay.len() {
        return None;
    }
    let mut i: usize = hay.len() - pat.len();
    loop
        invariant
            i + pat.len() <= hay.len(),
            last_index(hay@, pat@) == last_index_upto(hay@, pat@, i as int),
        decreases i,
    {
        if matches_at(hay, pat, i) {
            return Some(i);
        }
        if i == 0 {
            assert(last_index_upto(hay@, pat@, -1) == -1);
            return None;
        }
        i = i - 1;
    }
}

/// The part of `s` from character `from` up to character `to`.
pub(crate) fn slice_of(s: &str, from: usize, to: usize) -> (r: String)
    requires
        from <= to <= s@.len(),
    ensures
        r@ == s@.subrange(from as int, to as int),
{
    s.substring_char(from, to).to_owned()
}

/// `a`, then `b`, then `c`.
pub fn concat3(a: &str, b: &str, c: &str) -> (r: String)
    ensures
        r@ == a@ + b@ + c@,
{
    a.to_owned().concat(b).concat(c)
}

/// What follows the last occurrence of `pat` in `s`.
pub fn text_after_last(s: &str, pat: &str) -> (r: String)
    ensures
        r@ == after_last(s@, pat@),
{
    let hay = chars_of(s);
    let needle = chars_of(pat);
    proof {
        lemma_last_index(s@, pat@);
    }
    match find_last(&hay, &needle) {
        Some(i) => {
            let end = hay.len();
            assert(occurs_at(s@, pat@, i as int));
            slice_of(s, i + needle.len(), end)
        },
        None => s.to_owned(),
    }
}

/// Whether `s` begins with `prefix`.
pub fn starts_with(s: &str, prefix: &str) -> (r: bool)
    ensures
        r == has_prefix(s@, prefix@),
{
    let hay = chars_of(s);
    let needle = chars_of(prefix);
    needle.len() <= hay.len() && matches_at(&hay, &needle, 0)
}

/// Whether `s` ends with `suffix`.
pub fn ends_with(s: &str, suffix: &str) -> (r: bool)
    ensures
        r == has_suffix(s@, suffix@),
{
    let hay = chars_of(s);
    let needle = chars_of(suffix);
    needle.len() <= hay.len() && matches_at(&hay, &needle, hay.len() - needle.len())
}

/// Whether the two texts hold the same characters.
pub fn same_text(a: &str, b: &str) -> (r: bool)
    ensures
        r == (a@ == b@),
{
    let x = chars_of(a);
    let y = chars_of(b);
    assert(x@.subrange(0, x@.len() as int) == x@);
    x.len() == y.len() && matches_at(&x, &y, 0)
}

/// `s` with every space turned into a plus sign, as a query string wants it.
pub fn spaces_to_plus(s: &str) -> (r: String)
    ensures
        r@ == replaced(s@, ' ', '+'),
{
    let chars = chars_of(s);
    let mut out = String::new();
    let mut i: usize = 0;
    while i < chars.len()
        invariant
            i <= chars.len(),
            chars@ == s@,
            out@ == replaced(s@, ' ', '+').take(i as int),
        decreases chars.len() - i,
    {
        let ghost before = out@;
        if chars[i] == ' ' {
            proof {
                reveal_strlit("+");
            }
            out.append("+");
            assert(out@ =~= replaced(s@, ' ', '+').take(i + 1));
        } else {
            let piece = slice_of(s, i, i + 1);
            out.append(piece.as_str());
            assert(out@ =~= replaced(s@, ' ', '+').take(i + 1));
        }
        i = i + 1;
    }
    assert(replaced(s@, ' ', '+').take(chars.len() as int) == replaced(s@, ' ', '+'));
    out
}

/// The number that `s` writes in decimal, as the standard parser of unsigned
/// integers reads it.
pub fn parse_u64(s: &str) -> (r: Option<u64>)
    ensures
        r == parsed_u64(s@),
{
    let chars = chars_of(s);
    let start: usize = if chars.len() > 0 && chars[0] == '+' { 1 } else { 0 };
    let ghost d = without_plus(s@);
    assert(d == s@.subrange(start as int, s@.len() as int));
    if start == chars.len() {
        return None;
    }
    let mut acc: u64 = 0;
    let mut i: usize = start;
    while i < chars.len()
        invariant
            start <= i <= chars.len(),
            chars@ == s@,
            d == without_plus(s@),
            d == s@.subrange(start as int, s@.len() as int),
            all_digits(d.take(i - start)),
            acc == decimal_value(d.take(i - start)),
        decreases chars.len() - i,
    {
        let c = chars[i];
        assert(c == d[i - start]);
        if c < '0' || c > '9' {
            assert(!is_digit(d[i - start]));
            return None;
        }
        let digit: u64 = (c as u32 - '0' as u32) as u64;
        proof {
            assert(d.take(i + 1 - start).drop_last() == d.take(i - start));
            assert(d.take(i + 1 - start).last() == c);
            assert forall|j: int| 0 <= j < i + 1 - start implies is_digit(
                #[trigger] d.take(i + 1 - start)[j],
            ) by {
                if j < i - start {
                    assert(d.take(i - start)[j] == d.take(i + 1 - start)[j]);
                }
            }
        }
        if acc > (u64::MAX - digit) / 10 {
            proof {
                if all_digits(d) {
                    lemma_decimal_prefix(d, i + 1 - start);
                }
            }
            return None;
        }
        acc = acc * 10 + digit;
        i = i + 1;
    }
    assert(d.take(i - start) == d);
    Some(acc)
}

/// The lower-case form of a text, as the standard library computes it.
pub uninterp spec fn lowercase(s: Seq<char>) -> Seq<char>;

/// `str::to_lowercase`: the result is the lower-case form of the argument,
/// a function of its characters alone.
#[verifier::external_body]
pub(crate) fn to_lowercase(s: &str) -> (r: String)
    ensures
        r@ == lowercase(s@),
{
    s.to_lowercase()
}

/// `String::from_utf8`: succeeds exactly on well-formed UTF-8 and then holds
/// the characters that the bytes encode.
#[verifier::external_body]
pub(crate) fn decode_utf8_bytes(bytes: Vec<u8>) -> (r: Option<String>)
    ensures
        r is Some <==> valid_utf8(bytes@),
        r matches Some(s) ==> s@ == decode_utf8(bytes@),
{
    String::from_utf8(bytes).ok()
}

} // verus!
