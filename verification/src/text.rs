//! Verified text utilities shared by the pipeline: character extraction,
//! appending, decimal rendering of line numbers, and the lexicographic
//! order on text that string comparison operators use.
use vstd::prelude::*;
use vstd::string::*;

verus! {

/// Relies on std's `String::push`: appends the character to the end.
#[verifier::external_body]
pub fn string_push(s: &mut String, c: char)
    ensures
        final(s)@ == old(s)@.push(c),
{
    s.push(c);
}

/// The characters of a string slice, in order, as a vector.
pub fn chars_of(s: &str) -> (r: Vec<char>)
    ensures
        r@ == s@,
{
    let n: usize = s.unicode_len();
    let mut r: Vec<char> = Vec::new();
    let mut i: usize = 0;
    while i < n
        invariant
            i <= n,
            n == s@.len(),
            r@ == s@.subrange(0, i as int),
        decreases n - i,
    {
        let c = s.get_char(i);
        r.push(c);
        assert(r@ =~= s@.subrange(0, i + 1 as int));
        i = i + 1;
    }
    assert(r@ =~= s@);
    r
}

/// Whether two strings hold the same characters.
pub fn string_eq(a: &String, b: &String) -> (r: bool)
    ensures
        r == (a@ == b@),
{
    *a == *b
}

/// Whether a string holds the same characters as a string slice.
pub fn string_eq_str(a: &String, b: &str) -> (r: bool)
    ensures
        r == (a@ == b@),
{
    let bs = String::from_str(b);
    *a == bs
}

/// Whether a character is in one of std's Unicode number classes.
pub uninterp spec fn char_is_numeric(c: char) -> bool;

/// Whether a character is in one of std's Unicode letter classes.
pub uninterp spec fn char_is_alphabetic(c: char) -> bool;

/// Relies on std's `char::is_numeric`: a fixed class of Unicode that,
/// within ASCII, holds exactly of the ten decimal digits.
#[verifier::external_body]
pub fn is_numeric_char(c: char) -> (r: bool)
    ensures
        r == char_is_numeric(c),
        '0' <= c && c <= '9' ==> r,
        c < '\u{80}' && !('0' <= c && c <= '9') ==> !r,
{
    c.is_numeric()
}

/// Relies on std's `char::is_alphabetic`: a fixed class of Unicode that,
/// within ASCII, holds exactly of the letters.
#[verifier::external_body]
pub fn is_alphabetic_char(c: char) -> (r: bool)
    ensures
        r == char_is_alphabetic(c),
        ('a' <= c && c <= 'z') || ('A' <= c && c <= 'Z') ==> r,
        c < '\u{80}' && !(('a' <= c && c <= 'z') || ('A' <= c && c <= 'Z')) ==> !r,
{
    c.is_alphabetic()
}

/// Relies on std's `char::is_alphanumeric`, which holds exactly where
/// `char::is_alphabetic` or `char::is_numeric` does.
#[verifier::external_body]
pub fn is_alphanumeric_char(c: char) -> (r: bool)
    ensures
        r == (char_is_alphabetic(c) || char_is_numeric(c)),
{
    c.is_alphanumeric()
}

/// A string of one character.
pub fn char_to_string(c: char) -> (r: String)
    ensures
        r@ == seq![c],
{
    let mut r = String::new();
    string_push(&mut r, c);
    assert(r@ =~= seq![c]);
    r
}

/// The string of a range of a vector of characters.
pub fn string_from_range(cs: &Vec<char>, from: usize, to: usize) -> (r: String)
    requires
        from <= to <= cs@.len(),
    ensures
        r@ == cs@.subrange(from as int, to as int),
{
    let mut r = String::new();
    let mut i: usize = from;
    while i < to
        invariant
            from <= i <= to <= cs@.len(),
            r@ == cs@.subrange(from as int, i as int),
        decreases to - i,
    {
        string_push(&mut r, cs[i]);
        assert(r@ =~= cs@.subrange(from as int, i + 1 as int));
        i = i + 1;
    }
    r
}

/// The character for a single decimal digit.
pub open spec fn spec_digit_char(d: int) -> char {
    if d == 0 {
        '0'
    } else if d == 1 {
        '1'
    } else if d == 2 {
        '2'
    } else if d == 3 {
        '3'
    } else if d == 4 {
        '4'
    } else if d == 5 {
        '5'
    } else if d == 6 {
        '6'
    } else if d == 7 {
        '7'
    } else if d == 8 {
        '8'
    } else {
        '9'
    }
}

/// The decimal digits of a positive number, most significant first;
/// empty for zero.
pub open spec fn spec_digits(n: nat) -> Seq<char>
    decreases n,
{
    if n == 0 {
        Seq::empty()
    } else {
        spec_digits(n / 10).push(spec_digit_char((n % 10) as int))
    }
}

/// The decimal rendering of a number, with no leading zeroes.
pub open spec fn spec_u32_string(n: u32) -> Seq<char> {
    if n == 0 {
        seq!['0']
    } else {
        spec_digits(n as nat)
    }
}

fn digit_char(d: u32) -> (r: char)
    requires
        d < 10,
    ensures
        r == spec_digit_char(d as int),
{
    if d == 0 {
        '0'
    } else if d == 1 {
        '1'
    } else if d == 2 {
        '2'
    } else if d == 3 {
        '3'
    } else if d == 4 {
        '4'
    } else if d == 5 {
        '5'
    } else if d == 6 {
        '6'
    } else if d == 7 {
        '7'
    } else if d == 8 {
        '8'
    } else {
        '9'
    }
}

/// The decimal rendering of a number.
pub fn u32_to_string(n: u32) -> (r: String)
    ensures
        r@ == spec_u32_string(n),
{
    if n == 0 {
        let mut r = String::new();
        string_push(&mut r, '0');
        assert(r@ =~= seq!['0']);
        return r;
    }
    let mut digits: Vec<char> = Vec::new();
    let mut m: u32 = n;
    while m > 0
        invariant
            spec_digits(n as nat) == spec_digits(m as nat) + digits@.reverse(),
        decreases m,
    {
        let d: u32 = m % 10;
        let ghost pre = digits@;
        digits.push(digit_char(d));
        assert(digits@.reverse() =~= seq![spec_digit_char(d as int)] + pre.reverse());
        assert(spec_digits(m as nat) == spec_digits((m / 10) as nat).push(
            spec_digit_char((m as nat % 10) as int),
        ));
        assert(spec_digits((m / 10) as nat) + digits@.reverse() =~= spec_digits(m as nat)
            + pre.reverse());
        m = m / 10;
    }
    assert(spec_digits(0nat) =~= Seq::<char>::empty());
    assert(digits@.reverse() =~= spec_digits(n as nat));
    let r = string_of_rev(&digits);
    assert(r@ == spec_u32_string(n));
    r
}

/// The string of a vector of characters, taken in reverse order.
fn string_of_rev(v: &Vec<char>) -> (r: String)
    ensures
        r@ == v@.reverse(),
{
    let mut r = String::new();
    let mut i: usize = v.len();
    while i > 0
        invariant
            i <= v@.len(),
            r@ == v@.reverse().subrange(0, v@.len() - i),
        decreases i,
    {
        i = i - 1;
        string_push(&mut r, v[i]);
        assert(r@ =~= v@.reverse().subrange(0, v@.len() - i));
    }
    assert(r@ =~= v@.reverse());
    r
}

/// The lexicographic order on text by character: the order `<` on Rust
/// strings, with a proper prefix ordered before its extensions.
pub open spec fn spec_chars_lt(a: Seq<char>, b: Seq<char>) -> bool
    decreases a.len(),
{
    if b.len() == 0 {
        false
    } else if a.len() == 0 {
        true
    } else if a[0] != b[0] {
        a[0] < b[0]
    } else {
        spec_chars_lt(a.skip(1), b.skip(1))
    }
}

/// Whether one string orders strictly before another, character by
/// character.
pub fn string_lt(a: &String, b: &String) -> (r: bool)
    ensures
        r == spec_chars_lt(a@, b@),
{
    let sa = a.as_str();
    let sb = b.as_str();
    let na: usize = sa.unicode_len();
    let nb: usize = sb.unicode_len();
    let mut i: usize = 0;
    assert(a@.skip(0) =~= a@);
    assert(b@.skip(0) =~= b@);
    while i < na && i < nb
        invariant
            i <= na,
            i <= nb,
            na == a@.len(),
            nb == b@.len(),
            sa@ == a@,
            sb@ == b@,
            spec_chars_lt(a@, b@) == spec_chars_lt(a@.skip(i as int), b@.skip(i as int)),
        decreases na - i,
    {
        let ca = sa.get_char(i);
        let cb = sb.get_char(i);
        if ca != cb {
            return ca < cb;
        }
        assert(a@.skip(i as int).skip(1) =~= a@.skip(i + 1 as int));
        assert(b@.skip(i as int).skip(1) =~= b@.skip(i + 1 as int));
        i = i + 1;
    }
    na < nb
}

} // verus!
