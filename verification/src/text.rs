//! Character classes and decimal text shared by the scanners and the code generator.
use vstd::prelude::*;

verus! {

/// `char::is_whitespace`: the Unicode `White_Space` property.
pub open spec fn is_space(c: char) -> bool {
    let u = c as u32;
    ||| 0x09 <= u <= 0x0d
    ||| u == 0x20
    ||| u == 0x85
    ||| u == 0xa0
    ||| u == 0x1680
    ||| 0x2000 <= u <= 0x200a
    ||| u == 0x2028
    ||| u == 0x2029
    ||| u == 0x202f
    ||| u == 0x205f
    ||| u == 0x3000
}

/// `char::is_digit(10)`.
pub open spec fn is_digit(c: char) -> bool {
    '0' <= c <= '9'
}

/// `char::is_ascii_alphabetic`.
pub open spec fn is_alpha(c: char) -> bool {
    ('a' <= c <= 'z') || ('A' <= c <= 'Z')
}

/// An identifier character: ASCII letter, ASCII digit or `_`.
pub open spec fn is_ident_char(c: char) -> bool {
    is_alpha(c) || is_digit(c) || c == '_'
}

pub fn char_is_space(c: char) -> (r: bool)
    ensures
        r == is_space(c),
{
    let u = c as u32;
    (0x09 <= u && u <= 0x0d) || u == 0x20 || u == 0x85 || u == 0xa0 || u == 0x1680 || (0x2000
        <= u && u <= 0x200a) || u == 0x2028 || u == 0x2029 || u == 0x202f || u == 0x205f || u
        == 0x3000
}

pub fn char_is_digit(c: char) -> (r: bool)
    ensures
        r == is_digit(c),
{
    '0' <= c && c <= '9'
}

/// The value of a decimal digit.
pub open spec fn digit_value(c: char) -> nat {
    (c as u32 - '0' as u32) as nat
}

/// The value of a string of decimal digits, most significant first.
pub open spec fn digits_value(s: Seq<char>) -> nat
    decreases s.len(),
{
    if s.len() == 0 {
        0
    } else {
        digits_value(s.drop_last()) * 10 + digit_value(s.last())
    }
}

/// The character of a digit `0..=9`.
pub open spec fn digit_char(d: nat) -> char {
    (('0' as u32) + d) as char
}

/// The decimal text of a natural number, as `Display` writes it.
pub open spec fn nat_text(n: nat) -> Seq<char>
    decreases n,
{
    if n < 10 {
        seq![digit_char(n)]
    } else {
        nat_text(n / 10).push(digit_char(n % 10))
    }
}

/// The decimal text of an integer, as `Display` writes it.
pub open spec fn int_text(i: int) -> Seq<char> {
    if i < 0 {
        seq!['-'] + nat_text((-i) as nat)
    } else {
        nat_text(i as nat)
    }
}

/// The characters of `s` that are not whitespace, in order.
pub open spec fn visible(s: Seq<char>) -> Seq<char>
    decreases s.len(),
{
    if s.len() == 0 {
        Seq::empty()
    } else if is_space(s[0]) {
        visible(s.drop_first())
    } else {
        seq![s[0]] + visible(s.drop_first())
    }
}

/// Lemma: the visible text from `i` on, one character at a time.
pub proof fn lemma_visible_step(s: Seq<char>, i: int)
    requires
        0 <= i < s.len(),
    ensures
        visible(s.skip(i)) == if is_space(s[i]) {
            visible(s.skip(i + 1))
        } else {
            seq![s[i]] + visible(s.skip(i + 1))
        },
{
    assert(s.skip(i).drop_first() =~= s.skip(i + 1));
    assert(s.skip(i)[0] == s[i]);
}

/// Lemma: a run of characters without whitespace is visible as it is.
pub proof fn lemma_visible_run(s: Seq<char>, i: int, j: int)
    requires
        0 <= i <= j <= s.len(),
        forall|k: int| i <= k < j ==> !is_space(#[trigger] s[k]),
    ensures
        visible(s.skip(i)) == s.subrange(i, j) + visible(s.skip(j)),
    decreases j - i,
{
    if i == j {
        assert(s.subrange(i, j) + visible(s.skip(j)) =~= visible(s.skip(j)));
    } else {
        lemma_visible_step(s, i);
        lemma_visible_run(s, i + 1, j);
        assert(seq![s[i]] + (s.subrange(i + 1, j) + visible(s.skip(j))) =~= s.subrange(i, j)
            + visible(s.skip(j)));
    }
}

/// The characters of `s`, in order.
pub fn chars_of(s: &str) -> (r: Vec<char>)
    ensures
        r@ == s@,
{
    let mut v: Vec<char> = Vec::new();
    for c in it: s.chars()
        invariant
            v@ == it.seq().take(it.index() as int),
            it.seq() == s@,
    {
        v.push(c);
    }
    v
}

/// Lemma: a longer run of digits has at least the value of its prefix.
pub proof fn lemma_digits_prefix_le(s: Seq<char>, k: int)
    requires
        0 <= k <= s.len(),
    ensures
        digits_value(s.take(k)) <= digits_value(s),
    decreases s.len(),
{
    if k < s.len() {
        assert(s.drop_last().take(k) =~= s.take(k));
        lemma_digits_prefix_le(s.drop_last(), k);
    } else {
        assert(s.take(k) =~= s);
    }
}

/// Appends `c` to `s` by `String::push`, which vstd gives no specification.
/// Trusted, not proved: the contract claims that the characters of `s`
/// afterwards are those before with `c` added at the end.
#[verifier::external_body]
pub(crate) fn push_char(s: &mut String, c: char)
    ensures
        final(s)@ == old(s)@.push(c),
{
    s.push(c);
}

fn digit_to_char(d: u64) -> (c: char)
    requires
        d < 10,
    ensures
        c == digit_char(d as nat),
{
    let c = match d {
        0 => '0',
        1 => '1',
        2 => '2',
        3 => '3',
        4 => '4',
        5 => '5',
        6 => '6',
        7 => '7',
        8 => '8',
        _ => '9',
    };
    assert(c == digit_char(d as nat));
    c
}

/// Appends the decimal text of `n` to `s`.
pub fn push_u64_text(s: &mut String, n: u64)
    ensures
        final(s)@ == old(s)@ + nat_text(n as nat),
    decreases n,
{
    if n < 10 {
        push_char(s, digit_to_char(n));
        assert(old(s)@.push(digit_char(n as nat)) =~= old(s)@ + nat_text(n as nat));
    } else {
        push_u64_text(s, n / 10);
        push_char(s, digit_to_char(n % 10));
        assert(old(s)@ + nat_text((n / 10) as nat) + seq![digit_char((n % 10) as nat)]
            =~= old(s)@ + nat_text(n as nat));
    }
}

/// Appends the decimal text of `v` to `s`.
pub fn push_i64_text(s: &mut String, v: i64)
    ensures
        final(s)@ == old(s)@ + int_text(v as int),
{
    if v < 0 {
        push_char(s, '-');
        let m: u64 = if v == i64::MIN {
            0x8000_0000_0000_0000u64
        } else {
            (-v) as u64
        };
        push_u64_text(s, m);
        assert(old(s)@.push('-') + nat_text(m as nat) =~= old(s)@ + int_text(v as int));
    } else {
        push_u64_text(s, v as u64);
    }
}

/// A `String` holding the given text.
pub fn text_of(lit: &str) -> (r: String)
    ensures
        r@ == lit@,
{
    String::from_str(lit)
}

/// `head`, then `mid`, then `tail`.
pub fn framed(head: &str, mid: &String, tail: &str) -> (r: String)
    ensures
        r@ == head@ + mid@ + tail@,
{
    let mut s = text_of(head);
    push_text(&mut s, mid.as_str());
    push_text(&mut s, tail);
    s
}

/// `head`, then `mid`.
pub fn joined(head: &str, mid: &String) -> (r: String)
    ensures
        r@ == head@ + mid@,
{
    let mut s = text_of(head);
    push_text(&mut s, mid.as_str());
    s
}

/// `head`, then the decimal text of `n`.
pub fn with_nat(head: &str, n: usize) -> (r: String)
    ensures
        r@ == head@ + nat_text(n as nat),
{
    let mut s = text_of(head);
    push_u64_text(&mut s, n as u64);
    s
}

/// `head`, then the decimal text of `v`.
pub fn with_int(head: &str, v: i32) -> (r: String)
    ensures
        r@ == head@ + int_text(v as int),
{
    let mut s = text_of(head);
    push_i64_text(&mut s, v as i64);
    s
}

/// Appends `tail` to `s`.
pub fn push_text(s: &mut String, tail: &str)
    ensures
        final(s)@ == old(s)@ + tail@,
{
    s.append(tail);
}

/// Lemma: the digits of `nat_text` read back as the number.
pub proof fn lemma_nat_text_digits(n: nat)
    ensures
        digits_value(nat_text(n)) == n,
        nat_text(n).len() > 0,
        forall|k: int| 0 <= k < nat_text(n).len() ==> is_digit(#[trigger] nat_text(n)[k]),
    decreases n,
{
    if n < 10 {
        let s = nat_text(n);
        assert(s.drop_last() =~= Seq::<char>::empty());
        assert(digit_value(digit_char(n)) == n);
        assert(digits_value(s) == digits_value(s.drop_last()) * 10 + digit_value(s.last()));
        assert(digits_value(Seq::<char>::empty()) == 0);
    } else {
        lemma_nat_text_digits(n / 10);
        let s = nat_text(n);
        assert(s.drop_last() =~= nat_text(n / 10));
        assert(digit_value(digit_char(n % 10)) == n % 10);
        assert(s.last() == digit_char(n % 10));
        assert(digits_value(s) == digits_value(nat_text(n / 10)) * 10 + digit_value(s.last()));
        assert(n == (n / 10) * 10 + n % 10);
        assert forall|k: int| 0 <= k < s.len() implies is_digit(#[trigger] s[k]) by {
            if k < s.len() - 1 {
                assert(s[k] == nat_text(n / 10)[k]);
            }
        }
    }
}

} // verus!
