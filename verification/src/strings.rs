//! Character-level helpers on `String`: appending, removing the last character,
//! trailing-whitespace trimming and decimal rendering of integers.
use vstd::prelude::*;

verus! {

/// Calls `String::push`. Claimed, as its documentation says: the string afterwards
/// holds its former characters followed by `c`.
#[verifier::external_body]
pub(crate) fn push_char(s: &mut String, c: char)
    ensures
        final(s)@ == old(s)@.push(c),
{
    s.push(c)
}

/// Calls `String::pop`. Claimed, as its documentation says: on a non-empty string
/// it removes the last character and returns it; on an empty one it returns `None`
/// and changes nothing.
#[verifier::external_body]
pub(crate) fn pop_char(s: &mut String) -> (r: Option<char>)
    ensures
        match r {
            None => old(s)@.len() == 0 && final(s)@ == old(s)@,
            Some(c) => old(s)@.len() > 0 && c == old(s)@.last() && final(s)@ == old(s)@.drop_last(),
        },
{
    s.pop()
}

/// Appends the characters of `t` to `buf`.
pub fn append_str(buf: &mut String, t: &str)
    ensures
        final(buf)@ == old(buf)@ + t@,
{
    buf.append(t);
}

/// Unicode `White_Space`: the characters that `char::is_whitespace` accepts.
pub open spec fn is_white_space(c: char) -> bool {
    let v = c as u32;
    ||| 0x9 <= v <= 0xD
    ||| v == 0x20
    ||| v == 0x85
    ||| v == 0xA0
    ||| v == 0x1680
    ||| 0x2000 <= v <= 0x200A
    ||| v == 0x2028
    ||| v == 0x2029
    ||| v == 0x202F
    ||| v == 0x205F
    ||| v == 0x3000
}

/// Whether `c` is Unicode white space.
pub fn is_white_space_char(c: char) -> (r: bool)
    ensures
        r == is_white_space(c),
{
    let v = c as u32;
    (0x9 <= v && v <= 0xD) || v == 0x20 || v == 0x85 || v == 0xA0 || v == 0x1680 || (0x2000 <= v
        && v <= 0x200A) || v == 0x2028 || v == 0x2029 || v == 0x202F || v == 0x205F || v == 0x3000
}

/// `s` without its trailing white space (what `str::trim_end` keeps).
pub open spec fn trim_white_end(s: Seq<char>) -> Seq<char>
    decreases s.len(),
{
    if s.len() > 0 && is_white_space(s.last()) {
        trim_white_end(s.drop_last())
    } else {
        s
    }
}

/// `s` without the copies of `c` at its end (what `str::trim_end_matches(c)` keeps).
pub open spec fn trim_char_end(s: Seq<char>, c: char) -> Seq<char>
    decreases s.len(),
{
    if s.len() > 0 && s.last() == c {
        trim_char_end(s.drop_last(), c)
    } else {
        s
    }
}

/// Removes the trailing white space of `s`.
pub fn trim_white_end_in_place(s: &mut String)
    ensures
        final(s)@ == trim_white_end(old(s)@),
{
    loop
        invariant
            trim_white_end(s@) == trim_white_end(old(s)@),
        decreases s@.len(),
    {
        let ghost before = s@;
        match pop_char(s) {
            None => {
                return;
            },
            Some(c) => {
                if !is_white_space_char(c) {
                    push_char(s, c);
                    assert(s@ =~= before);
                    return;
                }
            },
        }
    }
}

/// Trimming leaves a prefix of `s` that does not end with `c`.
pub proof fn lemma_trim_char_end(s: Seq<char>, c: char)
    ensures
        trim_char_end(s, c).len() <= s.len(),
        trim_char_end(s, c) == s.take(trim_char_end(s, c).len() as int),
        trim_char_end(s, c).len() == 0 || trim_char_end(s, c).last() != c,
    decreases s.len(),
{
    if s.len() > 0 && s.last() == c {
        lemma_trim_char_end(s.drop_last(), c);
        let t = trim_char_end(s.drop_last(), c);
        assert(s.drop_last().take(t.len() as int) =~= s.take(t.len() as int));
    } else {
        assert(s.take(s.len() as int) =~= s);
    }
}

/// Trimming removes nothing but copies of `c`.
pub proof fn lemma_trim_removes_only(s: Seq<char>, c: char)
    ensures
        forall|k: int| trim_char_end(s, c).len() <= k < s.len() ==> s[k] == c,
    decreases s.len(),
{
    if s.len() > 0 && s.last() == c {
        lemma_trim_removes_only(s.drop_last(), c);
        assert forall|k: int| trim_char_end(s, c).len() <= k < s.len() implies s[k] == c by {
            if k < s.len() - 1 {
                assert(s.drop_last()[k] == s[k]);
            }
        }
    }
}

/// Removes the copies of `c` at the end of `s`.
pub fn trim_char_end_in_place(s: &mut String, c: char)
    ensures
        final(s)@ == trim_char_end(old(s)@, c),
{
    loop
        invariant
            trim_char_end(s@, c) == trim_char_end(old(s)@, c),
        decreases s@.len(),
    {
        let ghost before = s@;
        match pop_char(s) {
            None => {
                return;
            },
            Some(d) => {
                if d != c {
                    push_char(s, d);
                    assert(s@ =~= before);
                    return;
                }
            },
        }
    }
}

/// The character of the decimal digit `d`.
pub open spec fn digit_char(d: nat) -> char {
    if d == 0 { '0' }
    else if d == 1 { '1' }
    else if d == 2 { '2' }
    else if d == 3 { '3' }
    else if d == 4 { '4' }
    else if d == 5 { '5' }
    else if d == 6 { '6' }
    else if d == 7 { '7' }
    else if d == 8 { '8' }
    else { '9' }
}

/// The decimal rendering of `n`, without leading zeros (`"0"` for zero).
pub open spec fn decimal(n: nat) -> Seq<char>
    decreases n,
{
    if n < 10 {
        seq![digit_char(n)]
    } else {
        decimal(n / 10).push(digit_char(n % 10))
    }
}

/// The decimal rendering of the signed integer `n`, with a leading `-` when negative.
pub open spec fn signed_decimal(n: int) -> Seq<char> {
    if n < 0 {
        seq!['-'] + decimal((-n) as nat)
    } else {
        decimal(n as nat)
    }
}

fn digit_to_char(d: u64) -> (c: char)
    requires
        d < 10,
    ensures
        c == digit_char(d as nat),
{
    if d == 0 { '0' }
    else if d == 1 { '1' }
    else if d == 2 { '2' }
    else if d == 3 { '3' }
    else if d == 4 { '4' }
    else if d == 5 { '5' }
    else if d == 6 { '6' }
    else if d == 7 { '7' }
    else if d == 8 { '8' }
    else { '9' }
}

/// Appends the decimal rendering of `n` to `s`.
pub fn push_decimal(s: &mut String, n: u64)
    ensures
        final(s)@ == old(s)@ + decimal(n as nat),
    decreases n,
{
    if n >= 10 {
        push_decimal(s, n / 10);
    }
    push_char(s, digit_to_char(n % 10));
    assert(s@ =~= old(s)@ + decimal(n as nat));
}

/// The decimal rendering of `n`.
pub fn u64_to_decimal(n: u64) -> (r: String)
    ensures
        r@ == decimal(n as nat),
{
    let mut s = String::new();
    push_decimal(&mut s, n);
    assert(s@ =~= decimal(n as nat));
    s
}

/// The decimal rendering of the signed integer `n`.
pub fn i64_to_decimal(n: i64) -> (r: String)
    ensures
        r@ == signed_decimal(n as int),
{
    let mut s = String::new();
    if n < 0 {
        push_char(&mut s, '-');
        let magnitude: u64 = if n == i64::MIN {
            9223372036854775808u64
        } else {
            (-n) as u64
        };
        push_decimal(&mut s, magnitude);
    } else {
        push_decimal(&mut s, n as u64);
    }
    assert(s@ =~= signed_decimal(n as int));
    s
}

} // verus!
