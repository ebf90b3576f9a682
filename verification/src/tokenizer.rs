//! The scanner of the arithmetic front end: `+ - * / ( )` and decimal numbers.
use vstd::prelude::*;
use crate::text::{
    chars_of, char_is_digit, char_is_space, digits_value, is_digit, is_space,
    lemma_digits_prefix_le, lemma_nat_text_digits, lemma_visible_run, nat_text, lemma_visible_step,
    push_char, text_of, visible,
};
use crate::lexer::{digit_run_end, lemma_digit_run_end, lemma_digit_run_to_end};

verus! {

#[derive(Debug, PartialEq, Eq, Structural, Clone, Copy)]
pub enum TokenKind {
    Reserved,
    Num,
    Eof,
}

#[derive(Debug, Clone)]
pub struct Token {
    pub kind: TokenKind,
    pub val: Option<i32>,
    pub str: String,
}

/// What a token holds, with its text as a sequence of characters.
pub ghost struct TokenV {
    pub kind: TokenKind,
    pub val: Option<i32>,
    pub text: Seq<char>,
}

impl View for Token {
    type V = TokenV;

    open spec fn view(&self) -> TokenV {
        TokenV { kind: self.kind, val: self.val, text: self.str@ }
    }
}

pub open spec fn tokens_view(v: Seq<Token>) -> Seq<TokenV> {
    v.map_values(|t: Token| t@)
}

/// The result of scanning a whole input.
pub ghost enum ScanOutcome {
    /// The tokens, ending with the end-of-input token.
    Tokens(Seq<TokenV>),
    /// A character that starts no token.
    Untokenizable,
    /// A decimal literal whose value exceeds `i32::MAX`.
    NumberTooLarge,
}

pub open spec fn is_arith_punct(c: char) -> bool {
    c == '+' || c == '-' || c == '*' || c == '/' || c == '(' || c == ')'
}

pub open spec fn cons_token(t: TokenV, rest: ScanOutcome) -> ScanOutcome {
    match rest {
        ScanOutcome::Tokens(ts) => ScanOutcome::Tokens(seq![t] + ts),
        other => other,
    }
}

pub open spec fn prefix_tokens(pre: Seq<TokenV>, rest: ScanOutcome) -> ScanOutcome {
    match rest {
        ScanOutcome::Tokens(ts) => ScanOutcome::Tokens(pre + ts),
        other => other,
    }
}

/// Scanning `s` from position `i`: whitespace is skipped, an operator or a
/// parenthesis is a token, a run of digits is a number.
pub open spec fn scan_from(s: Seq<char>, i: nat) -> ScanOutcome
    decreases s.len() - i,
{
    if i >= s.len() {
        ScanOutcome::Tokens(seq![TokenV { kind: TokenKind::Eof, val: None, text: Seq::empty() }])
    } else {
        let c = s[i as int];
        if is_space(c) {
            scan_from(s, i + 1)
        } else if is_arith_punct(c) {
            cons_token(TokenV { kind: TokenKind::Reserved, val: None, text: seq![c] }, scan_from(s, i + 1))
        } else if is_digit(c) {
            let j = digit_run_end(s, i + 1);
            proof {
                lemma_digit_run_end(s, i + 1);
            }
            let text = s.subrange(i as int, j as int);
            if digits_value(text) > i32::MAX {
                ScanOutcome::NumberTooLarge
            } else {
                cons_token(
                    TokenV { kind: TokenKind::Num, val: Some(digits_value(text) as i32), text },
                    scan_from(s, j),
                )
            }
        } else {
            ScanOutcome::Untokenizable
        }
    }
}

pub open spec fn scan_spec(s: Seq<char>) -> ScanOutcome {
    scan_from(s, 0)
}

/// The texts of the tokens, one after the other.
pub open spec fn spelled(ts: Seq<TokenV>) -> Seq<char>
    decreases ts.len(),
{
    if ts.len() == 0 {
        Seq::empty()
    } else {
        ts[0].text + spelled(ts.drop_first())
    }
}

pub open spec fn eof_token() -> TokenV {
    TokenV { kind: TokenKind::Eof, val: None, text: Seq::empty() }
}

/// A token before the end of input: a number holds the value of its digits,
/// an operator is one character.
pub open spec fn sound_token(t: TokenV) -> bool {
    &&& t.text.len() > 0
    &&& match t.kind {
        TokenKind::Num => {
            &&& forall|k: int| 0 <= k < t.text.len() ==> is_digit(#[trigger] t.text[k])
            &&& digits_value(t.text) <= i32::MAX
            &&& t.val == Some(digits_value(t.text) as i32)
        },
        TokenKind::Reserved => t.text.len() == 1 && is_arith_punct(t.text[0]) && t.val is None,
        TokenKind::Eof => false,
    }
}

/// A token sequence as the scanner makes it: sound tokens, then one
/// end-of-input token.
pub open spec fn token_stream(ts: Seq<TokenV>) -> bool {
    &&& ts.len() >= 1
    &&& ts.last() == eof_token()
    &&& forall|k: int| 0 <= k < ts.len() - 1 ==> sound_token(#[trigger] ts[k])
}

proof fn lemma_cons_stream(t: TokenV, ts: Seq<TokenV>)
    requires
        sound_token(t),
        token_stream(ts),
    ensures
        token_stream(seq![t] + ts),
        spelled(seq![t] + ts) == t.text + spelled(ts),
{
    let u = seq![t] + ts;
    assert(u.drop_first() =~= ts);
    assert(u[0] == t);
    assert forall|k: int| 0 <= k < u.len() - 1 implies sound_token(#[trigger] u[k]) by {
        if k > 0 {
            assert(u[k] == ts[k - 1]);
        }
    }
}

proof fn lemma_scan_from(s: Seq<char>, i: nat)
    requires
        i <= s.len(),
    ensures
        scan_from(s, i) matches ScanOutcome::Tokens(ts) ==> token_stream(ts) && spelled(ts) == visible(s.skip(i as int)),
    decreases s.len() - i,
{
    if i >= s.len() {
        let ts = seq![eof_token()];
        assert(ts.drop_first() =~= Seq::<TokenV>::empty());
        assert(spelled(Seq::<TokenV>::empty()) == Seq::<char>::empty());
        assert(spelled(ts) =~= Seq::<char>::empty());
        assert(s.skip(i as int) =~= Seq::<char>::empty());
    } else {
        let c = s[i as int];
        lemma_visible_step(s, i as int);
        if is_space(c) {
            lemma_scan_from(s, i + 1);
        } else if is_arith_punct(c) {
            lemma_scan_from(s, i + 1);
            if let ScanOutcome::Tokens(ts) = scan_from(s, i + 1) {
                lemma_cons_stream(TokenV { kind: TokenKind::Reserved, val: None, text: seq![c] }, ts);
            }
        } else if is_digit(c) {
            let j = digit_run_end(s, i + 1);
            lemma_digit_run_end(s, i + 1);
            let text = s.subrange(i as int, j as int);
            if digits_value(text) <= i32::MAX {
                lemma_scan_from(s, j);
                assert forall|k: int| i <= k < j implies !is_space(#[trigger] s[k]) by {
                    if k > i {
                        assert(is_digit(s[k]));
                    }
                }
                lemma_visible_run(s, i as int, j as int);
                if let ScanOutcome::Tokens(ts) = scan_from(s, j) {
                    let t = TokenV { kind: TokenKind::Num, val: Some(digits_value(text) as i32), text };
                    assert forall|k: int| 0 <= k < text.len() implies is_digit(#[trigger] text[k]) by {
                        if k > 0 {
                            assert(text[k] == s[i + k]);
                        }
                    }
                    lemma_cons_stream(t, ts);
                }
            }
        }
    }
}

/// Law: a successful scan gives sound tokens ending with one end-of-input
/// token, and their texts, one after the other, are the input without its
/// whitespace.
pub proof fn lemma_scan_spec(s: Seq<char>)
    ensures
        scan_spec(s) matches ScanOutcome::Tokens(ts) ==> token_stream(ts) && spelled(ts) == visible(s),
{
    lemma_scan_from(s, 0);
    assert(s.skip(0) =~= s);
}

/// Law: the decimal text of a number up to `i32::MAX` scans as that one
/// number, then the end of input.
pub proof fn lemma_scan_number_text(n: nat)
    requires
        n <= i32::MAX,
    ensures
        scan_spec(nat_text(n)) == ScanOutcome::Tokens(
            seq![TokenV { kind: TokenKind::Num, val: Some(n as i32), text: nat_text(n) }, eof_token()],
        ),
{
    let s = nat_text(n);
    lemma_nat_text_digits(n);
    lemma_digit_run_to_end(s, 1);
    assert(is_digit(s[0]));
    assert(s.subrange(0, s.len() as int) =~= s);
    assert(scan_from(s, s.len()) == ScanOutcome::Tokens(seq![eof_token()]));
    let t = TokenV { kind: TokenKind::Num, val: Some(n as i32), text: s };
    assert(seq![t] + seq![eof_token()] =~= seq![t, eof_token()]);
}

proof fn lemma_scan_from_tokenizable(s: Seq<char>, i: nat)
    requires
        i <= s.len(),
        forall|k: int|
            0 <= k < s.len() ==> (is_space(#[trigger] s[k]) || '0' <= s[k] <= '9' || s[k] == '+' || s[k] == '-'
                || s[k] == '*' || s[k] == '/' || s[k] == '(' || s[k] == ')'),
    ensures
        !(scan_from(s, i) is Untokenizable),
    decreases s.len() - i,
{
    if i < s.len() {
        let c = s[i as int];
        assert(is_space(c) || '0' <= c <= '9' || c == '+' || c == '-' || c == '*' || c == '/' || c == '(' || c == ')');
        if is_space(c) || is_arith_punct(c) {
            lemma_scan_from_tokenizable(s, i + 1);
        } else {
            lemma_digit_run_end(s, i + 1);
            lemma_scan_from_tokenizable(s, digit_run_end(s, i + 1));
        }
    }
}

/// Law: an input made only of whitespace, decimal digits and `+ - * / ( )`
/// is never refused as untokenizable (a number above `i32::MAX` is the only
/// way its scan can fail).
pub proof fn lemma_scan_accepts_arithmetic(s: Seq<char>)
    requires
        forall|k: int|
            0 <= k < s.len() ==> (is_space(#[trigger] s[k]) || '0' <= s[k] <= '9' || s[k] == '+' || s[k] == '-'
                || s[k] == '*' || s[k] == '/' || s[k] == '(' || s[k] == ')'),
    ensures
        !(scan_spec(s) is Untokenizable),
{
    lemma_scan_from_tokenizable(s, 0);
}

/// The scan of an input, as a value.
pub enum Scanned {
    Tokens(Vec<Token>),
    Untokenizable,
    NumberTooLarge,
}

pub open spec fn scanned_view(l: Scanned) -> ScanOutcome {
    match l {
        Scanned::Tokens(v) => ScanOutcome::Tokens(tokens_view(v@)),
        Scanned::Untokenizable => ScanOutcome::Untokenizable,
        Scanned::NumberTooLarge => ScanOutcome::NumberTooLarge,
    }
}

proof fn lemma_prefix_push(pre: Seq<TokenV>, t: TokenV, rest: ScanOutcome)
    ensures
        prefix_tokens(pre, cons_token(t, rest)) == prefix_tokens(pre.push(t), rest),
{
    if let ScanOutcome::Tokens(ts) = rest {
        assert(pre + (seq![t] + ts) =~= pre.push(t) + ts);
    }
}

proof fn lemma_tokens_view_push(v: Seq<Token>, t: Token)
    ensures
        tokens_view(v.push(t)) == tokens_view(v).push(t@),
{
    assert(tokens_view(v.push(t)) =~= tokens_view(v).push(t@));
}

/// Scans `input` into tokens; the tokens end with one end-of-input token.
pub fn scan(input: &str) -> (r: Scanned)
    ensures
        scanned_view(r) == scan_spec(input@),
{
    let chars = chars_of(input);
    let n = chars.len();
    let ghost s = input@;
    let mut tokens: Vec<Token> = Vec::new();
    let mut i: usize = 0;
    while i < n
        invariant
            chars@ == s,
            s == input@,
            n == s.len(),
            i <= n,
            scan_spec(s) == prefix_tokens(tokens_view(tokens@), scan_from(s, i as nat)),
        decreases n - i,
    {
        let c = chars[i];
        let ghost pre = tokens_view(tokens@);
        if char_is_space(c) {
            i = i + 1;
        } else if c == '+' || c == '-' || c == '*' || c == '/' || c == '(' || c == ')' {
            let mut op = String::new();
            push_char(&mut op, c);
            assert(op@ =~= seq![c]);
            let t = Token { kind: TokenKind::Reserved, val: None, str: op };
            proof {
                lemma_prefix_push(pre, t@, scan_from(s, (i + 1) as nat));
                lemma_tokens_view_push(tokens@, t);
            }
            tokens.push(t);
            i = i + 1;
        } else if char_is_digit(c) {
            let start = i;
            let mut num_str = String::new();
            let mut acc: u64 = 0;
            proof {
                lemma_digit_run_end(s, (start + 1) as nat);
            }
            let ghost j = digit_run_end(s, (start + 1) as nat);
            while i < n && char_is_digit(chars[i])
                invariant
                    chars@ == s,
                    s == input@,
                    n == s.len(),
                    start <= i <= j,
                    j == digit_run_end(s, (start + 1) as nat),
                    start + 1 <= j <= n,
                    forall|k: int| start + 1 <= k < j ==> is_digit(#[trigger] s[k]),
                    j < n ==> !is_digit(s[j as int]),
                    is_digit(s[start as int]),
                    start < n,
                    scan_spec(s) == prefix_tokens(tokens_view(tokens@), scan_from(s, start as nat)),
                    num_str@ == s.subrange(start as int, i as int),
                    acc == digits_value(s.subrange(start as int, i as int)),
                    acc <= i32::MAX,
                decreases n - i,
            {
                let d = chars[i];
                let ghost prev = s.subrange(start as int, i as int);
                let next = acc * 10 + ((d as u32) - ('0' as u32)) as u64;
                assert(s.subrange(start as int, i + 1).drop_last() =~= prev);
                assert(s.subrange(start as int, i + 1) =~= prev.push(d));
                push_char(&mut num_str, d);
                i = i + 1;
                if next > 0x7fff_ffffu64 {
                    proof {
                        let whole = s.subrange(start as int, j as int);
                        assert(whole.take(i - start) =~= s.subrange(start as int, i as int));
                        lemma_digits_prefix_le(whole, i - start);
                        assert(scan_from(s, start as nat) == ScanOutcome::NumberTooLarge);
                    }
                    return Scanned::NumberTooLarge;
                }
                acc = next;
            }
            assert(i == j);
            let t = Token { kind: TokenKind::Num, val: Some(acc as i32), str: num_str };
            proof {
                lemma_prefix_push(pre, t@, scan_from(s, i as nat));
                lemma_tokens_view_push(tokens@, t);
            }
            tokens.push(t);
        } else {
            assert(scan_from(s, i as nat) == ScanOutcome::Untokenizable);
            return Scanned::Untokenizable;
        }
    }
    let eof = Token { kind: TokenKind::Eof, val: None, str: String::new() };
    proof {
        lemma_tokens_view_push(tokens@, eof);
        assert(tokens_view(tokens@) + seq![eof@] =~= tokens_view(tokens@).push(eof@));
    }
    tokens.push(eof);
    Scanned::Tokens(tokens)
}

/// Turns `input` into tokens, the last of them the end-of-input token. A
/// character that starts no token is an error.
pub fn tokenize(input: &str) -> (r: Result<Vec<Token>, String>)
    requires
        scan_spec(input@) != ScanOutcome::NumberTooLarge,
    ensures
        match scan_spec(input@) {
            ScanOutcome::Tokens(ts) => r matches Ok(v) && tokens_view(v@) == ts,
            _ => r matches Err(m) && m@ == "トークナイズできません"@,
        },
{
    match scan(input) {
        Scanned::Tokens(v) => Ok(v),
        _ => Err(text_of("トークナイズできません")),
    }
}

} // verus!
