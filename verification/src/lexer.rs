//! The scanner of the C subset: punctuation, comparison operators, decimal
//! numbers, identifiers and the keyword `return`.
use vstd::prelude::*;
use crate::text::{
    chars_of, char_is_digit, char_is_space, digits_value, is_digit, is_ident_char, is_space,
    lemma_digits_prefix_le, lemma_nat_text_digits, lemma_visible_run, nat_text, lemma_visible_step,
    push_char, text_of, visible,
};

verus! {

#[derive(Debug, PartialEq, Eq, Structural, Clone, Copy)]
pub enum TokenKind {
    Reserved,
    Ident,
    Return,
    Num,
    Eof,
}

#[derive(Clone)]
pub struct Token {
    pub kind: TokenKind,
    pub val: Option<i32>,
    pub str: String,
}

/// What a token holds, with its text as a sequence of characters.
pub ghost struct TokenV {
    pub kind: TokenKind,
    pub val: Option<i32>,
    pub text: Seq<char>,
}

impl View for Token {
    type V = TokenV;

    open spec fn view(&self) -> TokenV {
        TokenV { kind: self.kind, val: self.val, text: self.str@ }
    }
}

pub open spec fn tokens_view(v: Seq<Token>) -> Seq<TokenV> {
    v.map_values(|t: Token| t@)
}

/// The result of scanning a whole input.
pub ghost enum LexOutcome {
    /// The tokens, ending with the end-of-input token.
    Tokens(Seq<TokenV>),
    /// A character that starts no token.
    Untokenizable,
    /// A decimal literal whose value exceeds `i32::MAX`.
    NumberTooLarge,
}

pub open spec fn eof_token() -> TokenV {
    TokenV { kind: TokenKind::Eof, val: None, text: Seq::empty() }
}

pub open spec fn reserved_token(text: Seq<char>) -> TokenV {
    TokenV { kind: TokenKind::Reserved, val: None, text }
}

/// An identifier, or the keyword `return`.
pub open spec fn word_token(text: Seq<char>) -> TokenV {
    if text == "return"@ {
        TokenV { kind: TokenKind::Return, val: None, text }
    } else {
        TokenV { kind: TokenKind::Ident, val: None, text }
    }
}

/// A character that is a token by itself: an arithmetic operator, a
/// parenthesis, `;`, or one of the braces, brackets, `,` and `&` that the
/// production rule uses.
pub open spec fn is_single_punct(c: char) -> bool {
    ||| c == '+' || c == '-' || c == '*' || c == '/' || c == '(' || c == ')' || c == ';'
    ||| c == '{' || c == '}' || c == '[' || c == ']' || c == ',' || c == '&'
}

fn char_is_single_punct(c: char) -> (r: bool)
    ensures
        r == is_single_punct(c),
{
    c == '+' || c == '-' || c == '*' || c == '/' || c == '(' || c == ')' || c == ';' || c == '{'
        || c == '}' || c == '[' || c == ']' || c == ',' || c == '&'
}

/// A character that starts `=`, `!`, `<`, `>` or the same followed by `=`.
pub open spec fn is_relop_start(c: char) -> bool {
    c == '=' || c == '!' || c == '<' || c == '>'
}

/// The end of the run of digits that starts at `i`.
pub open spec fn digit_run_end(s: Seq<char>, i: nat) -> nat
    decreases s.len() - i,
{
    if i < s.len() && is_digit(s[i as int]) {
        digit_run_end(s, i + 1)
    } else {
        i
    }
}

/// The end of the run of identifier characters that starts at `i`.
pub open spec fn word_run_end(s: Seq<char>, i: nat) -> nat
    decreases s.len() - i,
{
    if i < s.len() && is_ident_char(s[i as int]) {
        word_run_end(s, i + 1)
    } else {
        i
    }
}

pub proof fn lemma_digit_run_end(s: Seq<char>, i: nat)
    requires
        i <= s.len(),
    ensures
        i <= digit_run_end(s, i) <= s.len(),
        forall|k: int| i <= k < digit_run_end(s, i) ==> is_digit(#[trigger] s[k]),
        digit_run_end(s, i) < s.len() ==> !is_digit(s[digit_run_end(s, i) as int]),
    decreases s.len() - i,
{
    if i < s.len() && is_digit(s[i as int]) {
        lemma_digit_run_end(s, i + 1);
    }
}

pub proof fn lemma_word_run_end(s: Seq<char>, i: nat)
    requires
        i <= s.len(),
    ensures
        i <= word_run_end(s, i) <= s.len(),
        forall|k: int| i <= k < word_run_end(s, i) ==> is_ident_char(#[trigger] s[k]),
        word_run_end(s, i) < s.len() ==> !is_ident_char(s[word_run_end(s, i) as int]),
    decreases s.len() - i,
{
    if i < s.len() && is_ident_char(s[i as int]) {
        lemma_word_run_end(s, i + 1);
    }
}

/// Puts `t` in front of the tokens of `rest`; a failure of `rest` stays.
pub open spec fn cons_token(t: TokenV, rest: LexOutcome) -> LexOutcome {
    match rest {
        LexOutcome::Tokens(ts) => LexOutcome::Tokens(seq![t] + ts),
        other => other,
    }
}

/// Puts the tokens `pre` in front of the tokens of `rest`; a failure of `rest` stays.
pub open spec fn prefix_tokens(pre: Seq<TokenV>, rest: LexOutcome) -> LexOutcome {
    match rest {
        LexOutcome::Tokens(ts) => LexOutcome::Tokens(pre + ts),
        other => other,
    }
}

/// Scanning `s` from position `i`: whitespace is skipped, the longest token
/// is taken, and the first character that starts no token fails the scan.
pub open spec fn lex_from(s: Seq<char>, i: nat) -> LexOutcome
    decreases s.len() - i,
{
    if i >= s.len() {
        LexOutcome::Tokens(seq![eof_token()])
    } else {
        let c = s[i as int];
        if is_space(c) {
            lex_from(s, i + 1)
        } else if is_single_punct(c) {
            cons_token(reserved_token(seq![c]), lex_from(s, i + 1))
        } else if is_relop_start(c) {
            if i + 1 < s.len() && s[i + 1int] == '=' {
                cons_token(reserved_token(seq![c, '=']), lex_from(s, i + 2))
            } else {
                cons_token(reserved_token(seq![c]), lex_from(s, i + 1))
            }
        } else if is_digit(c) {
            let j = digit_run_end(s, i + 1);
            proof {
                lemma_digit_run_end(s, i + 1);
            }
            let text = s.subrange(i as int, j as int);
            if digits_value(text) > i32::MAX {
                LexOutcome::NumberTooLarge
            } else {
                cons_token(
                    TokenV { kind: TokenKind::Num, val: Some(digits_value(text) as i32), text },
                    lex_from(s, j),
                )
            }
        } else if is_ident_char(c) {
            let j = word_run_end(s, i + 1);
            proof {
                lemma_word_run_end(s, i + 1);
            }
            cons_token(word_token(s.subrange(i as int, j as int)), lex_from(s, j))
        } else {
            LexOutcome::Untokenizable
        }
    }
}

/// The scan of a whole input.
pub open spec fn lex_spec(s: Seq<char>) -> LexOutcome {
    lex_from(s, 0)
}

/// The texts of the tokens, one after the other.
pub open spec fn spelled(ts: Seq<TokenV>) -> Seq<char>
    decreases ts.len(),
{
    if ts.len() == 0 {
        Seq::empty()
    } else {
        ts[0].text + spelled(ts.drop_first())
    }
}

/// A token before the end of input: its text is not empty, a number holds the
/// value of its digits, a word is an identifier or the keyword, and an
/// operator is one of the operators.
pub open spec fn sound_token(t: TokenV) -> bool {
    &&& t.text.len() > 0
    &&& match t.kind {
        TokenKind::Num => {
            &&& forall|k: int| 0 <= k < t.text.len() ==> is_digit(#[trigger] t.text[k])
            &&& digits_value(t.text) <= i32::MAX
            &&& t.val == Some(digits_value(t.text) as i32)
        },
        TokenKind::Ident => {
            &&& forall|k: int| 0 <= k < t.text.len() ==> is_ident_char(#[trigger] t.text[k])
            &&& !is_digit(t.text[0])
            &&& t.text != "return"@
            &&& t.val is None
        },
        TokenKind::Return => t.text == "return"@ && t.val is None,
        TokenKind::Reserved => {
            &&& t.val is None
            &&& (t.text.len() == 1 && (is_single_punct(t.text[0]) || is_relop_start(t.text[0]))
                || t.text.len() == 2 && is_relop_start(t.text[0]) && t.text[1] == '=')
        },
        TokenKind::Eof => false,
    }
}

/// A token sequence as the scanner makes it: sound tokens, then one
/// end-of-input token.
pub open spec fn token_stream(ts: Seq<TokenV>) -> bool {
    &&& ts.len() >= 1
    &&& ts.last() == eof_token()
    &&& forall|k: int| 0 <= k < ts.len() - 1 ==> sound_token(#[trigger] ts[k])
}

proof fn lemma_cons_stream(t: TokenV, ts: Seq<TokenV>)
    requires
        sound_token(t),
        token_stream(ts),
    ensures
        token_stream(seq![t] + ts),
        spelled(seq![t] + ts) == t.text + spelled(ts),
{
    let u = seq![t] + ts;
    assert(u.drop_first() =~= ts);
    assert(u[0] == t);
    assert forall|k: int| 0 <= k < u.len() - 1 implies sound_token(#[trigger] u[k]) by {
        if k > 0 {
            assert(u[k] == ts[k - 1]);
        }
    }
}

proof fn lemma_lex_from(s: Seq<char>, i: nat)
    requires
        i <= s.len(),
    ensures
        lex_from(s, i) matches LexOutcome::Tokens(ts) ==> token_stream(ts) && spelled(ts) == visible(s.skip(i as int)),
    decreases s.len() - i,
{
    if i >= s.len() {
        let ts = seq![eof_token()];
        assert(ts.drop_first() =~= Seq::<TokenV>::empty());
        assert(spelled(Seq::<TokenV>::empty()) == Seq::<char>::empty());
        assert(spelled(ts) =~= Seq::<char>::empty());
        assert(s.skip(i as int) =~= Seq::<char>::empty());
    } else {
        let c = s[i as int];
        lemma_visible_step(s, i as int);
        if is_space(c) {
            lemma_lex_from(s, i + 1);
        } else if is_single_punct(c) {
            lemma_lex_from(s, i + 1);
            if let LexOutcome::Tokens(ts) = lex_from(s, i + 1) {
                lemma_cons_stream(reserved_token(seq![c]), ts);
            }
        } else if is_relop_start(c) {
            if i + 1 < s.len() && s[i + 1int] == '=' {
                lemma_lex_from(s, i + 2);
                lemma_visible_step(s, i + 1int);
                if let LexOutcome::Tokens(ts) = lex_from(s, i + 2) {
                    lemma_cons_stream(reserved_token(seq![c, '=']), ts);
                    assert(seq![c] + (seq!['='] + visible(s.skip(i + 2int))) =~= seq![c, '=']
                        + visible(s.skip(i + 2int)));
                }
            } else {
                lemma_lex_from(s, i + 1);
                if let LexOutcome::Tokens(ts) = lex_from(s, i + 1) {
                    lemma_cons_stream(reserved_token(seq![c]), ts);
                }
            }
        } else if is_digit(c) {
            let j = digit_run_end(s, i + 1);
            lemma_digit_run_end(s, i + 1);
            let text = s.subrange(i as int, j as int);
            if digits_value(text) <= i32::MAX {
                lemma_lex_from(s, j);
                assert forall|k: int| i <= k < j implies !is_space(#[trigger] s[k]) by {
                    if k > i {
                        assert(is_digit(s[k]));
                    }
                }
                lemma_visible_run(s, i as int, j as int);
                if let LexOutcome::Tokens(ts) = lex_from(s, j) {
                    let t = TokenV { kind: TokenKind::Num, val: Some(digits_value(text) as i32), text };
                    assert forall|k: int| 0 <= k < text.len() implies is_digit(#[trigger] text[k]) by {
                        if k > 0 {
                            assert(text[k] == s[i + k]);
                        }
                    }
                    lemma_cons_stream(t, ts);
                }
            }
        } else if is_ident_char(c) {
            let j = word_run_end(s, i + 1);
            lemma_word_run_end(s, i + 1);
            let text = s.subrange(i as int, j as int);
            lemma_lex_from(s, j);
            assert forall|k: int| i <= k < j implies !is_space(#[trigger] s[k]) by {
                if k > i {
                    assert(is_ident_char(s[k]));
                }
            }
            lemma_visible_run(s, i as int, j as int);
            if let LexOutcome::Tokens(ts) = lex_from(s, j) {
                assert forall|k: int| 0 <= k < text.len() implies is_ident_char(#[trigger] text[k]) by {
                    if k > 0 {
                        assert(text[k] == s[i + k]);
                    }
                }
                assert(text[0] == c);
                lemma_cons_stream(word_token(text), ts);
            }
        }
    }
}

/// Law: a successful scan gives sound tokens ending with one end-of-input
/// token, and their texts, one after the other, are the input without its
/// whitespace.
pub proof fn lemma_lex_spec(s: Seq<char>)
    ensures
        lex_spec(s) matches LexOutcome::Tokens(ts) ==> token_stream(ts) && spelled(ts) == visible(s),
{
    lemma_lex_from(s, 0);
    assert(s.skip(0) =~= s);
}

pub proof fn lemma_digit_run_to_end(s: Seq<char>, i: nat)
    requires
        i <= s.len(),
        forall|k: int| i <= k < s.len() ==> is_digit(#[trigger] s[k]),
    ensures
        digit_run_end(s, i) == s.len(),
    decreases s.len() - i,
{
    if i < s.len() {
        lemma_digit_run_to_end(s, i + 1);
    }
}

/// Law: the decimal text of a number up to `i32::MAX` scans as that one
/// number, then the end of input.
pub proof fn lemma_lex_number_text(n: nat)
    requires
        n <= i32::MAX,
    ensures
        lex_spec(nat_text(n)) == LexOutcome::Tokens(
            seq![TokenV { kind: TokenKind::Num, val: Some(n as i32), text: nat_text(n) }, eof_token()],
        ),
{
    let s = nat_text(n);
    lemma_nat_text_digits(n);
    lemma_digit_run_to_end(s, 1);
    assert(is_digit(s[0]));
    assert(s.subrange(0, s.len() as int) =~= s);
    assert(lex_from(s, s.len()) == LexOutcome::Tokens(seq![eof_token()]));
    let t = TokenV { kind: TokenKind::Num, val: Some(n as i32), text: s };
    assert(seq![t] + seq![eof_token()] =~= seq![t, eof_token()]);
}

/// A character that may appear in a program: whitespace, an ASCII letter or
/// digit, `_`, or an operator or punctuation mark of the production rule.
pub open spec fn source_char(c: char) -> bool {
    ||| is_space(c)
    ||| 'a' <= c <= 'z'
    ||| 'A' <= c <= 'Z'
    ||| '0' <= c <= '9'
    ||| c == '_'
    ||| c == '+' || c == '-' || c == '*' || c == '/' || c == '(' || c == ')' || c == ';'
    ||| c == '{' || c == '}' || c == '[' || c == ']' || c == ',' || c == '&'
    ||| c == '=' || c == '!' || c == '<' || c == '>'
}

proof fn lemma_lex_from_tokenizable(s: Seq<char>, i: nat)
    requires
        i <= s.len(),
        forall|k: int| 0 <= k < s.len() ==> source_char(#[trigger] s[k]),
    ensures
        !(lex_from(s, i) is Untokenizable),
    decreases s.len() - i,
{
    if i < s.len() {
        let c = s[i as int];
        assert(source_char(c));
        if is_space(c) || is_single_punct(c) {
            lemma_lex_from_tokenizable(s, i + 1);
        } else if is_relop_start(c) {
            lemma_lex_from_tokenizable(s, i + 1);
            if i + 2 <= s.len() {
                lemma_lex_from_tokenizable(s, i + 2);
            }
        } else if is_digit(c) {
            lemma_digit_run_end(s, i + 1);
            lemma_lex_from_tokenizable(s, digit_run_end(s, i + 1));
        } else {
            lemma_word_run_end(s, i + 1);
            lemma_lex_from_tokenizable(s, word_run_end(s, i + 1));
        }
    }
}

/// Law: a program made only of whitespace, ASCII letters of either case,
/// digits, `_` and the operators and punctuation of the production rule is
/// never refused as untokenizable (a number literal above `i32::MAX` is the
/// only way its scan can fail).
pub proof fn lemma_lex_accepts_source(s: Seq<char>)
    requires
        forall|k: int| 0 <= k < s.len() ==> source_char(#[trigger] s[k]),
    ensures
        !(lex_spec(s) is Untokenizable),
{
    lemma_lex_from_tokenizable(s, 0);
}

proof fn lemma_word_run_to_end(s: Seq<char>, i: nat)
    requires
        i <= s.len(),
        forall|k: int| i <= k < s.len() ==> is_ident_char(#[trigger] s[k]),
    ensures
        word_run_end(s, i) == s.len(),
    decreases s.len() - i,
{
    if i < s.len() {
        lemma_word_run_to_end(s, i + 1);
    }
}

/// Law: a word of ASCII letters of either case, digits and `_` that does not
/// start with a digit scans as one token holding the whole word: the keyword
/// `return`, or else an identifier.
pub proof fn lemma_lex_word(s: Seq<char>)
    requires
        s.len() > 0,
        forall|k: int|
            0 <= k < s.len() ==> ('a' <= #[trigger] s[k] <= 'z' || 'A' <= s[k] <= 'Z' || '0' <= s[k] <= '9' || s[k] == '_'),
        !('0' <= s[0] <= '9'),
    ensures
        lex_spec(s) == LexOutcome::Tokens(
            seq![
                TokenV {
                    kind: if s == "return"@ { TokenKind::Return } else { TokenKind::Ident },
                    val: None,
                    text: s,
                },
                eof_token(),
            ],
        ),
{
    assert forall|k: int| 1 <= k < s.len() implies is_ident_char(#[trigger] s[k]) by {
        assert('a' <= s[k] <= 'z' || 'A' <= s[k] <= 'Z' || '0' <= s[k] <= '9' || s[k] == '_');
    }
    assert('a' <= s[0] <= 'z' || 'A' <= s[0] <= 'Z' || '0' <= s[0] <= '9' || s[0] == '_');
    lemma_word_run_to_end(s, 1);
    assert(s.subrange(0, s.len() as int) =~= s);
    assert(lex_from(s, s.len()) == LexOutcome::Tokens(seq![eof_token()]));
    let t = word_token(s);
    assert(seq![t] + seq![eof_token()] =~= seq![t, eof_token()]);
}

/// The scan of an input, as a value.
pub enum Lexed {
    Tokens(Vec<Token>),
    Untokenizable,
    NumberTooLarge,
}

pub open spec fn lexed_view(l: Lexed) -> LexOutcome {
    match l {
        Lexed::Tokens(v) => LexOutcome::Tokens(tokens_view(v@)),
        Lexed::Untokenizable => LexOutcome::Untokenizable,
        Lexed::NumberTooLarge => LexOutcome::NumberTooLarge,
    }
}

fn is_alnum(c: char) -> (r: bool)
    ensures
        r == is_ident_char(c),
{
    ('a' <= c && c <= 'z') || ('A' <= c && c <= 'Z') || ('0' <= c && c <= '9') || c == '_'
}

proof fn lemma_prefix_push(pre: Seq<TokenV>, t: TokenV, rest: LexOutcome)
    ensures
        prefix_tokens(pre, cons_token(t, rest)) == prefix_tokens(pre.push(t), rest),
{
    if let LexOutcome::Tokens(ts) = rest {
        assert(pre + (seq![t] + ts) =~= pre.push(t) + ts);
    }
}

proof fn lemma_tokens_view_push(v: Seq<Token>, t: Token)
    ensures
        tokens_view(v.push(t)) == tokens_view(v).push(t@),
{
    assert(tokens_view(v.push(t)) =~= tokens_view(v).push(t@));
}

fn reserved(text: String) -> (t: Token)
    ensures
        t@ == reserved_token(text@),
{
    Token { kind: TokenKind::Reserved, val: None, str: text }
}

/// Scans `input` into tokens; the tokens end with one end-of-input token.
pub fn scan(input: &str) -> (r: Lexed)
    ensures
        lexed_view(r) == lex_spec(input@),
{
    let chars = chars_of(input);
    let n = chars.len();
    let ghost s = input@;
    let mut tokens: Vec<Token> = Vec::new();
    let mut i: usize = 0;
    while i < n
        invariant
            chars@ == s,
            s == input@,
            n == s.len(),
            i <= n,
            lex_spec(s) == prefix_tokens(tokens_view(tokens@), lex_from(s, i as nat)),
        decreases n - i,
    {
        let c = chars[i];
        let ghost pre = tokens_view(tokens@);
        if char_is_space(c) {
            i = i + 1;
        } else if char_is_single_punct(c) {
            let mut op = String::new();
            push_char(&mut op, c);
            assert(op@ =~= seq![c]);
            let t = reserved(op);
            proof {
                lemma_prefix_push(pre, t@, lex_from(s, (i + 1) as nat));
                lemma_tokens_view_push(tokens@, t);
            }
            tokens.push(t);
            i = i + 1;
        } else if c == '=' || c == '!' || c == '<' || c == '>' {
            let mut op = String::new();
            push_char(&mut op, c);
            if i + 1 < n && chars[i + 1] == '=' {
                push_char(&mut op, '=');
                assert(op@ =~= seq![c, '=']);
                let t = reserved(op);
                proof {
                    lemma_prefix_push(pre, t@, lex_from(s, (i + 2) as nat));
                    lemma_tokens_view_push(tokens@, t);
                }
                tokens.push(t);
                i = i + 2;
            } else {
                assert(op@ =~= seq![c]);
                let t = reserved(op);
                proof {
                    lemma_prefix_push(pre, t@, lex_from(s, (i + 1) as nat));
                    lemma_tokens_view_push(tokens@, t);
                }
                tokens.push(t);
                i = i + 1;
            }
        } else if char_is_digit(c) {
            let start = i;
            let mut num_str = String::new();
            let mut acc: u64 = 0;
            proof {
                lemma_digit_run_end(s, (start + 1) as nat);
            }
            let ghost j = digit_run_end(s, (start + 1) as nat);
            while i < n && char_is_digit(chars[i])
                invariant
                    chars@ == s,
                    s == input@,
                    n == s.len(),
                    start <= i <= j,
                    j == digit_run_end(s, (start + 1) as nat),
                    start + 1 <= j <= n,
                    forall|k: int| start + 1 <= k < j ==> is_digit(#[trigger] s[k]),
                    j < n ==> !is_digit(s[j as int]),
                    is_digit(s[start as int]),
                    start < n,
                    lex_spec(s) == prefix_tokens(tokens_view(tokens@), lex_from(s, start as nat)),
                    num_str@ == s.subrange(start as int, i as int),
                    acc == digits_value(s.subrange(start as int, i as int)),
                    acc <= i32::MAX,
                decreases n - i,
            {
                let d = chars[i];
                let ghost prev = s.subrange(start as int, i as int);
                let next = acc * 10 + ((d as u32) - ('0' as u32)) as u64;
                assert(s.subrange(start as int, i + 1).drop_last() =~= prev);
                assert(s.subrange(start as int, i + 1) =~= prev.push(d));
                push_char(&mut num_str, d);
                i = i + 1;
                if next > 0x7fff_ffffu64 {
                    proof {
                        let whole = s.subrange(start as int, j as int);
                        assert(whole.take(i - start) =~= s.subrange(start as int, i as int));
                        lemma_digits_prefix_le(whole, i - start);
                        assert(lex_from(s, start as nat) == LexOutcome::NumberTooLarge);
                    }
                    return Lexed::NumberTooLarge;
                }
                acc = next;
            }
            assert(i == j);
            let t = Token { kind: TokenKind::Num, val: Some(acc as i32), str: num_str };
            proof {
                lemma_prefix_push(pre, t@, lex_from(s, i as nat));
                lemma_tokens_view_push(tokens@, t);
            }
            tokens.push(t);
        } else if is_alnum(c) {
            let start = i;
            let mut ident = String::new();
            proof {
                lemma_word_run_end(s, (start + 1) as nat);
            }
            let ghost j = word_run_end(s, (start + 1) as nat);
            while i < n && is_alnum(chars[i])
                invariant
                    chars@ == s,
                    s == input@,
                    n == s.len(),
                    start <= i <= j,
                    j == word_run_end(s, (start + 1) as nat),
                    start + 1 <= j <= n,
                    forall|k: int| start + 1 <= k < j ==> is_ident_char(#[trigger] s[k]),
                    j < n ==> !is_ident_char(s[j as int]),
                    is_ident_char(s[start as int]),
                    ident@ == s.subrange(start as int, i as int),
                decreases n - i,
            {
                let d = chars[i];
                assert(s.subrange(start as int, i + 1) =~= s.subrange(start as int, i as int).push(
                    d,
                ));
                push_char(&mut ident, d);
                i = i + 1;
            }
            assert(i == j);
            let kw = text_of("return");
            let kind = if ident == kw {
                TokenKind::Return
            } else {
                TokenKind::Ident
            };
            let t = Token { kind, val: None, str: ident };
            proof {
                lemma_prefix_push(pre, t@, lex_from(s, i as nat));
                lemma_tokens_view_push(tokens@, t);
            }
            tokens.push(t);
        } else {
            assert(lex_from(s, i as nat) == LexOutcome::Untokenizable);
            return Lexed::Untokenizable;
        }
    }
    let eof = Token { kind: TokenKind::Eof, val: None, str: String::new() };
    proof {
        lemma_tokens_view_push(tokens@, eof);
        assert(tokens_view(tokens@) + seq![eof_token()] =~= tokens_view(tokens@).push(eof@));
    }
    tokens.push(eof);
    Lexed::Tokens(tokens)
}

/// Turns `input` into tokens, the last of them the end-of-input token. A
/// character that starts no token is an error.
pub fn tokenize(input: &str) -> (r: Result<Vec<Token>, String>)
    requires
        lex_spec(input@) != LexOutcome::NumberTooLarge,
    ensures
        match lex_spec(input@) {
            LexOutcome::Tokens(ts) => r matches Ok(v) && tokens_view(v@) == ts,
            _ => r matches Err(m) && m@ == "トークナイズできません"@,
        },
{
    match scan(input) {
        Lexed::Tokens(v) => Ok(v),
        _ => Err(text_of("トークナイズできません")),
    }
}

} // verus!
