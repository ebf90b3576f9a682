use rustcc::compiler::{compile, compile_checked};
use rustcc::lexer::{scan, tokenize, Lexed, Token, TokenKind};
use rustcc::listing::Halt;
use rustcc::text::{push_u64_text, with_int, with_nat};
use rustcc::tokenizer;

fn lex(input: &str) -> Vec<Token> {
    match scan(input) {
        Lexed::Tokens(v) => v,
        Lexed::Untokenizable => panic!("untokenizable"),
        Lexed::NumberTooLarge => panic!("number too large"),
    }
}

fn texts(v: &[Token]) -> Vec<String> {
    v.iter().map(|t| t.str.clone()).collect()
}

fn kinds(v: &[Token]) -> Vec<TokenKind> {
    v.iter().map(|t| t.kind).collect()
}

#[test]
fn lexer_splits_comparison_and_words() {
    let v = lex("a <= 10;");
    assert_eq!(texts(&v), vec!["a", "<=", "10", ";", ""]);
    assert_eq!(
        kinds(&v),
        vec![TokenKind::Ident, TokenKind::Reserved, TokenKind::Num, TokenKind::Reserved, TokenKind::Eof]
    );
    assert_eq!(v[2].val, Some(10));
    assert_eq!(v[0].val, None);
}

#[test]
fn lexer_two_character_operators() {
    let v = lex("x==y!=z<w>=v>u=t!s");
    assert_eq!(
        texts(&v),
        vec!["x", "==", "y", "!=", "z", "<", "w", ">=", "v", ">", "u", "=", "t", "!", "s", ""]
    );
}

#[test]
fn lexer_return_keyword() {
    let v = lex("returnx return _x9");
    assert_eq!(texts(&v), vec!["returnx", "return", "_x9", ""]);
    assert_eq!(kinds(&v), vec![TokenKind::Ident, TokenKind::Return, TokenKind::Ident, TokenKind::Eof]);
}

#[test]
fn lexer_number_bounds() {
    let v = lex("2147483647");
    assert_eq!(v[0].val, Some(2147483647));
    assert_eq!(v[0].kind, TokenKind::Num);
    assert!(matches!(scan("2147483648"), Lexed::NumberTooLarge));
    assert!(matches!(scan("1 + 99999999999"), Lexed::NumberTooLarge));
}

#[test]
fn lexer_digits_then_letters() {
    let v = lex("12ab");
    assert_eq!(texts(&v), vec!["12", "ab", ""]);
    assert_eq!(kinds(&v), vec![TokenKind::Num, TokenKind::Ident, TokenKind::Eof]);
}

#[test]
fn lexer_braces_brackets_commas() {
    let v = lex("int f(int *p){return a[1]&b,c;}");
    assert_eq!(
        texts(&v),
        vec!["int", "f", "(", "int", "*", "p", ")", "{", "return", "a", "[", "1", "]", "&", "b", ",", "c", ";", "}", ""]
    );
    assert_eq!(v[7].kind, TokenKind::Reserved);
    assert_eq!(v[8].kind, TokenKind::Return);
}

#[test]
fn lexer_rejects_other_characters() {
    assert!(matches!(scan("a = \"s\";"), Lexed::Untokenizable));
    assert!(matches!(scan("x @ 2147483648"), Lexed::Untokenizable));
    assert!(matches!(scan("2147483648 @"), Lexed::NumberTooLarge));
    match tokenize("1 % 2") {
        Err(m) => assert_eq!(m, "トークナイズできません"),
        Ok(_) => panic!("expected an error"),
    }
}

#[test]
fn lexer_empty_input() {
    let v = lex("  \n\t ");
    assert_eq!(texts(&v), vec![""]);
    assert_eq!(kinds(&v), vec![TokenKind::Eof]);
}

#[test]
fn lexer_tokens_spell_the_input() {
    let input = " a1 = b2 +  33 ;\n return\u{3000}x<=4 ";
    let v = match tokenize(input) {
        Ok(v) => v,
        Err(_) => panic!("tokenize failed"),
    };
    let spelled: String = v.iter().map(|t| t.str.as_str()).collect();
    let visible: String = input.chars().filter(|c| !c.is_whitespace()).collect();
    assert_eq!(spelled, visible);
    assert_eq!(v.last().map(|t| t.kind), Some(TokenKind::Eof));
    assert_eq!(v.iter().filter(|t| t.kind == TokenKind::Eof).count(), 1);
}

#[test]
fn tokenizer_arithmetic() {
    let v = match tokenizer::tokenize("12 + 3 - (4*5)/6") {
        Ok(v) => v,
        Err(_) => panic!("tokenize failed"),
    };
    let t: Vec<String> = v.iter().map(|t| t.str.clone()).collect();
    assert_eq!(t, vec!["12", "+", "3", "-", "(", "4", "*", "5", ")", "/", "6", ""]);
    assert_eq!(v[0].kind, tokenizer::TokenKind::Num);
    assert_eq!(v[0].val, Some(12));
    assert_eq!(v[1].kind, tokenizer::TokenKind::Reserved);
    assert_eq!(v[11].kind, tokenizer::TokenKind::Eof);
}

#[test]
fn tokenizer_rejects_semicolon() {
    match tokenizer::tokenize("1;") {
        Err(m) => assert_eq!(m, "トークナイズできません"),
        Ok(_) => panic!("expected an error"),
    }
    assert!(matches!(tokenizer::scan("99999999999"), tokenizer::Scanned::NumberTooLarge));
}

#[test]
fn tokenizer_tokens_spell_the_input() {
    let input = " 1 +2\t- 30 ";
    let v = match tokenizer::tokenize(input) {
        Ok(v) => v,
        Err(_) => panic!("tokenize failed"),
    };
    let spelled: String = v.iter().map(|t| t.str.as_str()).collect();
    assert_eq!(spelled, "1+2-30");
}

fn arith(input: &str) -> Vec<tokenizer::Token> {
    match tokenizer::tokenize(input) {
        Ok(v) => v,
        Err(_) => panic!("tokenize failed"),
    }
}

#[test]
fn compile_sum_and_difference() {
    let mut out = Vec::new();
    assert!(compile(&arith("1+2-3"), &mut out).is_ok());
    assert_eq!(
        out,
        vec![".intel_syntax noprefix", ".global main", "main:", "\tmov rax, 1", "  add rax, 2", "  sub rax, 3", "\tret"]
    );
}

#[test]
fn compile_single_number() {
    let mut out = Vec::new();
    assert!(compile(&arith(" 42 "), &mut out).is_ok());
    assert_eq!(out, vec![".intel_syntax noprefix", ".global main", "main:", "\tmov rax, 42", "\tret"]);
}

#[test]
fn compile_errors() {
    let mut out = Vec::new();
    assert_eq!(compile(&arith("+1"), &mut out), Err("式の最初は数値である必要があります".to_string()));
    assert_eq!(out, vec![".intel_syntax noprefix", ".global main", "main:"]);

    let mut out = Vec::new();
    assert_eq!(compile(&arith("1+"), &mut out), Err("''+''の後には数値が必要です".to_string()));
    assert_eq!(out, vec![".intel_syntax noprefix", ".global main", "main:", "\tmov rax, 1"]);

    let mut out = Vec::new();
    assert_eq!(compile(&arith("1-*"), &mut out), Err("''-''の後には数値が必要です".to_string()));

    let mut out = Vec::new();
    assert_eq!(compile(&arith("1 2"), &mut out), Err("予期しないトークンです".to_string()));

    let mut out = Vec::new();
    assert_eq!(compile(&arith("1*2"), &mut out), Err("予期しないトークンです".to_string()));
}

#[test]
fn compile_checked_edges() {
    let mut out = Vec::new();
    match compile_checked(&[], &mut out) {
        Err(Halt::Exit(m)) => assert_eq!(m, "式の最初は数値である必要があります"),
        _ => panic!("expected an exit"),
    }
    let t = vec![tokenizer::Token { kind: tokenizer::TokenKind::Num, val: None, str: "1".to_string() }];
    let mut out = Vec::new();
    assert!(matches!(compile_checked(&t, &mut out), Err(Halt::Crash)));
    assert_eq!(out.len(), 3);
    let t = vec![tokenizer::Token { kind: tokenizer::TokenKind::Num, val: Some(7), str: "7".to_string() }];
    let mut out = Vec::new();
    assert!(compile_checked(&t, &mut out).is_ok());
    assert_eq!(out, vec![".intel_syntax noprefix", ".global main", "main:", "\tmov rax, 7", "\tret"]);
}

#[test]
fn compile_negative_number_text() {
    let t = vec![
        tokenizer::Token { kind: tokenizer::TokenKind::Num, val: Some(-5), str: "-5".to_string() },
        tokenizer::Token { kind: tokenizer::TokenKind::Reserved, val: None, str: "-".to_string() },
        tokenizer::Token { kind: tokenizer::TokenKind::Num, val: Some(i32::MIN), str: "x".to_string() },
    ];
    let mut out = Vec::new();
    assert!(compile_checked(&t, &mut out).is_ok());
    assert_eq!(out[3], "\tmov rax, -5");
    assert_eq!(out[4], "  sub rax, -2147483648");
}

#[test]
fn decimal_text() {
    assert_eq!(with_nat("x", 120), "x120");
    assert_eq!(with_nat("", 0), "0");
    assert_eq!(with_int("", -5), "-5");
    assert_eq!(with_int("n=", i32::MIN), "n=-2147483648");
    let mut s = String::from("v");
    push_u64_text(&mut s, u64::MAX);
    assert_eq!(s, "v18446744073709551615");
}

#[test]
fn number_text_scans_back() {
    for n in [0i32, 7, 10, 4096, i32::MAX] {
        let text = with_int("", n);
        let v = lex(&text);
        assert_eq!(v.len(), 2);
        assert_eq!(v[0].kind, TokenKind::Num);
        assert_eq!(v[0].val, Some(n));
        assert_eq!(v[0].str, text);
        assert_eq!(v[1].kind, TokenKind::Eof);
        let w = match tokenizer::tokenize(&text) {
            Ok(w) => w,
            Err(_) => panic!("tokenize failed"),
        };
        assert_eq!(w[0].val, Some(n));
        assert_eq!(w.len(), 2);
    }
}
