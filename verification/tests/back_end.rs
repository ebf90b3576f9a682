use rustcc::ast::{
    create_new_node, get_type_size, new_int_type, type_size_checked, BinaryOpKind, ComparisonOpKind,
    Function, GVar, LVar, Node, NodeKind, Type, TypeKind, UnaryOpKind,
};
use rustcc::gen::{gen, gen_checked, gen_program, gen_program_checked};
use rustcc::lexer::{scan, Lexed, Token, TokenKind};
use rustcc::listing::Halt;
use rustcc::parser::{ParseStop, Parser};

/// Tokens for a program written with spaces between its tokens.
fn toks(src: &str) -> Vec<Token> {
    let mut v = Vec::new();
    for w in src.split_whitespace() {
        let (kind, val) = if w.chars().all(|c| c.is_ascii_digit()) {
            (TokenKind::Num, Some(w.parse::<i32>().unwrap()))
        } else if w == "return" {
            (TokenKind::Return, None)
        } else if w.chars().all(|c| c.is_ascii_alphanumeric() || c == '_') {
            (TokenKind::Ident, None)
        } else {
            (TokenKind::Reserved, None)
        };
        v.push(Token { kind, val, str: w.to_string() });
    }
    v.push(Token { kind: TokenKind::Eof, val: None, str: String::new() });
    v
}

fn parse(src: &str) -> Vec<Node> {
    let mut p = Parser::new(toks(src));
    match p.program() {
        Ok(v) => v,
        Err(m) => panic!("parse error: {}", m),
    }
}

fn parse_err(src: &str) -> String {
    let mut p = Parser::new(toks(src));
    match p.program() {
        Ok(_) => panic!("expected a syntax error"),
        Err(m) => m,
    }
}

fn assembly_of(src: &str) -> Vec<String> {
    let code = parse(src);
    let mut out = Vec::new();
    assert!(gen_program(&code, &mut out).is_ok());
    out
}

fn int_ty() -> Type {
    Type { kind: TypeKind::Int, ptr_to: None, arr_size: 1 }
}

fn char_ty() -> Type {
    Type { kind: TypeKind::Char, ptr_to: None, arr_size: 1 }
}

fn ptr_to(t: Type) -> Type {
    Type { kind: TypeKind::Ptr, ptr_to: Some(Box::new(t)), arr_size: 1 }
}

fn arr_of(n: usize, t: Type) -> Type {
    Type { kind: TypeKind::Arr, ptr_to: Some(Box::new(t)), arr_size: n }
}

fn num(v: i32) -> Node {
    create_new_node(NodeKind::Num(v), None, None)
}

const PROLOGUE_MAIN: [&str; 5] = [
    "  .text",
    "  .global main",
    "main:",
    "  push rbp",
    "  mov rbp, rsp # save base pointer",
];

const EPILOGUE: [&str; 4] = [
    "  pop rax",
    "\n  mov rsp, rbp # restore stack pointer",
    "  pop rbp # discard base pointer",
    "  ret",
];

const RETURN: [&str; 4] = ["  pop rax", "  mov rsp, rbp", "  pop rbp", "  ret\n"];

fn main_program(stack: usize, body: &[&str]) -> Vec<String> {
    let mut v = vec![".intel_syntax noprefix".to_string()];
    for l in PROLOGUE_MAIN.iter() {
        v.push(l.to_string());
    }
    v.push(format!("  sub rsp, {} # make spaces for local variables\n", stack));
    for l in body {
        v.push(l.to_string());
    }
    for l in EPILOGUE.iter() {
        v.push(l.to_string());
    }
    v
}

#[test]
fn type_sizes() {
    assert_eq!(get_type_size(&int_ty()), 4);
    assert_eq!(get_type_size(&char_ty()), 1);
    assert_eq!(get_type_size(&ptr_to(char_ty())), 8);
    assert_eq!(get_type_size(&arr_of(3, arr_of(2, int_ty()))), 24);
    assert_eq!(type_size_checked(&arr_of(usize::MAX, int_ty())), None);
    let broken = Type { kind: TypeKind::Arr, ptr_to: None, arr_size: 2 };
    assert_eq!(type_size_checked(&broken), None);
    assert_eq!(new_int_type(), int_ty());
}

#[test]
fn node_types() {
    let p = LVar { name: "p".to_string(), offset: 8, ty: ptr_to(int_ty()) };
    let pv = create_new_node(NodeKind::LVar(p), None, None);
    assert_eq!(pv.ty, ptr_to(int_ty()));
    let sum = create_new_node(NodeKind::BinaryOp(BinaryOpKind::Add), Some(Box::new(pv)), Some(Box::new(num(1))));
    assert_eq!(sum.ty, ptr_to(int_ty()));

    let a = GVar { name: "a".to_string(), ty: arr_of(3, arr_of(2, int_ty())) };
    let av = create_new_node(NodeKind::GVar(a), None, None);
    let step = create_new_node(NodeKind::BinaryOp(BinaryOpKind::Add), Some(Box::new(num(1))), Some(Box::new(av)));
    assert_eq!(step.ty, arr_of(2, int_ty()));

    let deref = create_new_node(NodeKind::UnaryOp(UnaryOpKind::Deref), Some(Box::new(step)), None);
    assert_eq!(deref.ty, int_ty());

    let r = create_new_node(NodeKind::UnaryOp(UnaryOpKind::Ref), Some(Box::new(num(2))), None);
    assert_eq!(r.ty, ptr_to(int_ty()));

    let c = create_new_node(NodeKind::Comparison(ComparisonOpKind::Lt), Some(Box::new(num(1))), Some(Box::new(num(2))));
    assert_eq!(c.ty, int_ty());

    let m = create_new_node(NodeKind::BinaryOp(BinaryOpKind::Mul), Some(Box::new(r)), Some(Box::new(num(2))));
    assert_eq!(m.ty, int_ty());
}

#[test]
fn parse_function_returning_sum() {
    let code = parse("int main ( ) { return 1 + 2 ; }");
    assert_eq!(code.len(), 1);
    match &code[0].kind {
        NodeKind::Fndef(f, params) => {
            assert_eq!(f.name, "main");
            assert_eq!(f.stack_size, 8);
            assert_eq!(f.ty, int_ty());
            assert!(params.is_empty());
        }
        _ => panic!("expected a function definition"),
    }
    let body = code[0].rhs.as_ref().unwrap();
    match &body.kind {
        NodeKind::Block(stmts) => {
            assert_eq!(stmts.len(), 1);
            assert_eq!(stmts[0].kind, NodeKind::Return);
        }
        _ => panic!("expected a block"),
    }
}

#[test]
fn gen_function_returning_sum() {
    let out = assembly_of("int main ( ) { return 1 + 2 ; }");
    let mut body = vec!["  push 1", "  push 2", "  pop rdi", "  pop rax", "  add rax, rdi", "  push rax"];
    body.extend_from_slice(&RETURN);
    assert_eq!(out, main_program(8, &body));
}

#[test]
fn gen_local_variable() {
    let out = assembly_of("int main ( ) { int a ; a = 3 ; return a ; }");
    let mut body = vec![
        "  mov rax, rbp", "  sub rax, 8", "  push rax", "  pop rax", "  mov rax, [rax]", "  push rax",
        "  mov rax, rbp", "  sub rax, 8", "  push rax", "  push 3", "  pop rdi", "  pop rax",
        "  mov [rax], rdi", "  push rdi\n",
        "  mov rax, rbp", "  sub rax, 8", "  push rax", "  pop rax", "  mov rax, [rax]", "  push rax",
    ];
    body.extend_from_slice(&RETURN);
    assert_eq!(out, main_program(16, &body));
}

#[test]
fn redeclared_local_gets_the_new_slot() {
    let out = assembly_of("int main ( ) { int a ; int a ; return a ; }");
    let mut body = vec![
        "  mov rax, rbp", "  sub rax, 8", "  push rax", "  pop rax", "  mov rax, [rax]", "  push rax",
        "  mov rax, rbp", "  sub rax, 16", "  push rax", "  pop rax", "  mov rax, [rax]", "  push rax",
        "  mov rax, rbp", "  sub rax, 16", "  push rax", "  pop rax", "  mov rax, [rax]", "  push rax",
    ];
    body.extend_from_slice(&RETURN);
    assert_eq!(out, main_program(24, &body));
}

#[test]
fn gen_parameters() {
    let out = assembly_of("int add ( int x , int y ) { return x + y ; }");
    let mut want: Vec<String> = vec![
        ".intel_syntax noprefix", "  .text", "  .global add", "add:", "  push rbp",
        "  mov rbp, rsp # save base pointer", "  sub rsp, 24 # make spaces for local variables\n",
        "  mov [rbp-8], rdi # push argument", "  mov [rbp-16], rsi # push argument",
        "  mov rax, rbp", "  sub rax, 8", "  push rax", "  pop rax", "  mov rax, [rax]", "  push rax",
        "  mov rax, rbp", "  sub rax, 16", "  push rax", "  pop rax", "  mov rax, [rax]", "  push rax",
        "  pop rdi", "  pop rax", "  add rax, rdi", "  push rax",
    ]
    .into_iter()
    .map(|s| s.to_string())
    .collect();
    for l in RETURN.iter().chain(EPILOGUE.iter()) {
        want.push(l.to_string());
    }
    assert_eq!(out, want);
}

#[test]
fn gen_global_array() {
    let code = parse("int x [ 3 ] ;");
    assert_eq!(code.len(), 1);
    match &code[0].kind {
        NodeKind::GVarDef(g) => {
            assert_eq!(g.name, "x");
            assert_eq!(g.ty, arr_of(3, int_ty()));
        }
        _ => panic!("expected a global definition"),
    }
    let mut out = Vec::new();
    assert!(gen_program(&code, &mut out).is_ok());
    assert_eq!(out, vec![".intel_syntax noprefix", "  .bss", "  .global x", "x:", "  .zero 12\n"]);
}

#[test]
fn gen_global_and_function() {
    let out = assembly_of("int x ; int main ( ) { x = 3 ; return x ; }");
    let mut want: Vec<String> = vec![".intel_syntax noprefix", "  .bss", "  .global x", "x:", "  .zero 4\n"]
        .into_iter()
        .map(|s| s.to_string())
        .collect();
    let mut body = vec![
        "  lea rax, x[rip]", "  push rax", "  push 3", "  pop rdi", "  pop rax", "  mov [rax], rdi",
        "  push rdi\n", "  lea rax, x[rip]", "  push rax", "  pop rax", "  mov rax, [rax]", "  push rax",
    ];
    body.extend_from_slice(&RETURN);
    want.extend(main_program(8, &body).into_iter().skip(1));
    assert_eq!(out, want);
}

#[test]
fn gen_pops_between_functions() {
    let out = assembly_of("int f ( ) { return 1 ; } int g ( ) { return 2 ; }");
    let first_end = out.iter().position(|l| l == "  ret").unwrap();
    assert_eq!(out[first_end + 1], "  pop rax");
    assert_eq!(out[first_end + 2], "  .text");
    assert_eq!(out.last().unwrap(), "  ret");
    assert_eq!(out.iter().filter(|l| l.as_str() == "  ret").count(), 2);
}

#[test]
fn gen_if_else_and_while_labels() {
    let out = assembly_of("int main ( ) { if ( 1 ) return 2 ; else return 3 ; while ( 0 ) 1 ; }");
    let mut body = vec!["  push 1", "  pop rax", "  cmp rax, 0", "  je .Lelse0", "  push 2"];
    body.extend_from_slice(&RETURN);
    body.extend_from_slice(&["  jmp .Lend0", ".Lelse0:", "  push 3"]);
    body.extend_from_slice(&RETURN);
    body.extend_from_slice(&[
        ".Lend0:", ".Lbegin1:", "  push 0", "  pop rax", "  cmp rax, 0", "  je .Lend1", "  push 1",
        "  jmp .Lbegin1", ".Lend1:",
    ]);
    assert_eq!(out, main_program(8, &body));
}

#[test]
fn gen_for_loop() {
    let out = assembly_of("int main ( ) { for ( ; ; ) 5 ; }");
    let body = vec![
        "  push 0", ".Lbegin0:", "  push 1", "  pop rax", "  cmp rax, 0", "  je .Lend0", "  push 5",
        "  push 0", "  jmp .Lbegin0", ".Lend0:",
    ];
    assert_eq!(out, main_program(8, &body));
}

#[test]
fn gen_comparison_and_division() {
    let out = assembly_of("int main ( ) { return 6 / 2 >= 3 ; }");
    let mut body = vec![
        "  push 6", "  push 2", "  pop rdi", "  pop rax", "  cqo", "  idiv rdi", "  push rax", "  push 3",
        "  pop rdi", "  pop rax", "  cmp rax, rdi", "  setge al", "  movzb rax, al", "  push rax",
    ];
    body.extend_from_slice(&RETURN);
    assert_eq!(out, main_program(8, &body));
}

#[test]
fn gen_pointer_arithmetic_scales() {
    let out = assembly_of("int main ( ) { int * p ; return p + 1 ; }");
    let mut body = vec![
        "  mov rax, rbp", "  sub rax, 8", "  push rax", "  pop rax", "  mov rax, [rax]", "  push rax",
        "  mov rax, rbp", "  sub rax, 8", "  push rax", "  pop rax", "  mov rax, [rax]", "  push rax",
        "  push 1", "  pop rdi", "  pop rax", "  imul rdi, 4", "  add rax, rdi", "  push rax",
    ];
    body.extend_from_slice(&RETURN);
    assert_eq!(out, main_program(16, &body));
}

#[test]
fn gen_call_with_arguments() {
    let out = assembly_of("int main ( ) { return f ( 1 , 2 ) ; }");
    let mut body = vec![
        "  push 1", "  pop rdi # set 0-th argument", "  push 2", "  pop rsi # set 1-th argument",
        "  mov rax, 2", "  mov al, 0", "  mov r10, rsp", "  sub r10, 8", "  and r10, 15 # save offset to r10",
        "  sub rsp, r10 # align rsp to be divisible by 16", "  push r10 # save offset to stack", "  call f",
        "  pop r10 # restore offset from stack", "  add rsp, r10 # adjust stack pointer after call",
        "  push rax # rax has return value after call",
    ];
    body.extend_from_slice(&RETURN);
    assert_eq!(out, main_program(8, &body));
}

#[test]
fn gen_seventh_argument_crashes() {
    let code = parse("int main ( ) { return f ( 1 , 2 , 3 , 4 , 5 , 6 , 7 ) ; }");
    let mut out = Vec::new();
    assert!(matches!(gen_program_checked(&code, &mut out), Err(Halt::Crash)));
    assert_eq!(out.last().unwrap(), "  push 7");
    assert_eq!(out[out.len() - 2], "  pop r9 # set 5-th argument");
}

#[test]
fn gen_rejects_assignment_to_a_number() {
    let code = parse("int main ( ) { 1 = 2 ; }");
    let mut out = Vec::new();
    assert_eq!(gen_program(&code, &mut out), Err("代入の左辺値が変数ではありません".to_string()));
    assert_eq!(out.len(), 7);
}

#[test]
fn gen_rejects_a_parameter_that_is_no_variable() {
    let block = create_new_node(NodeKind::Block(vec![]), None, None);
    let f = Function { name: "f".to_string(), stack_size: 8, ty: int_ty() };
    let def = create_new_node(NodeKind::Fndef(f, vec![num(1)]), None, Some(Box::new(block)));
    let mut id = 0;
    let mut out = Vec::new();
    assert_eq!(gen(&def, &mut id, &mut out), Err("関数の引数が変数ではありません".to_string()));
    assert_eq!(out.len(), 6);
}

#[test]
fn gen_char_access_uses_bytes() {
    let c = LVar { name: "c".to_string(), offset: 8, ty: char_ty() };
    let lhs = create_new_node(NodeKind::LVar(c), None, None);
    let c2 = LVar { name: "c".to_string(), offset: 8, ty: char_ty() };
    let rhs = create_new_node(NodeKind::LVar(c2), None, None);
    let a = create_new_node(NodeKind::Assign, Some(Box::new(lhs)), Some(Box::new(rhs)));
    let mut id = 0;
    let mut out = Vec::new();
    assert!(gen(&a, &mut id, &mut out).is_ok());
    assert_eq!(
        out,
        vec![
            "  mov rax, rbp", "  sub rax, 8", "  push rax", "  mov rax, rbp", "  sub rax, 8", "  push rax",
            "  pop rax", "  movzx rax, BYTE PTR [rax]", "  push rax", "  pop rdi", "  pop rax",
            "  mov BYTE PTR [rax], dil", "  push rdi\n",
        ]
    );
}

#[test]
fn label_counter_advances() {
    let code = parse("int main ( ) { if ( 1 ) if ( 2 ) 3 ; while ( 0 ) 4 ; }");
    let body = code[0].rhs.as_ref().unwrap();
    let mut id = 5;
    let mut out = Vec::new();
    assert!(gen(body, &mut id, &mut out).is_ok());
    assert_eq!(id, 8);
    assert!(out.iter().any(|l| l == ".Lend6:"));
    assert!(out.iter().any(|l| l == ".Lbegin7:"));
}

#[test]
fn label_counter_overflow_crashes() {
    let code = parse("int main ( ) { while ( 0 ) 4 ; }");
    let body = code[0].rhs.as_ref().unwrap();
    let mut id = i32::MAX;
    let mut out = Vec::new();
    assert!(matches!(gen_checked(body, &mut id, &mut out), Err(Halt::Crash)));
    assert!(out.is_empty());
}

#[test]
fn syntax_errors() {
    assert_eq!(parse_err("int main ( ) { return y ; }"), "変数 'y' が見つかりません");
    assert_eq!(
        parse_err("int f ( ) { return 1 ; } int f ( ) { return 2 ; }"),
        "関数 'f' はすでに定義されています"
    );
    assert_eq!(parse_err("int main ( ) { return 1 }"), "';'が期待されますが、'}'でした");
    assert_eq!(parse_err("foo main ( ) { return 1 ; }"), "型名cが期待されますが、fooでした");
    assert_eq!(parse_err("int x [ y ] ;"), "数が期待されますが、'y'でした");
    assert_eq!(parse_err("int main ( ) return 1 ;"), "'{'が期待されますが、'return'でした");
}

#[test]
fn missing_name_exits() {
    let mut p = Parser::new(toks("int 5 ;"));
    match p.program_checked() {
        Err(ParseStop::Exit(m)) => assert_eq!(m, "変数名がありません"),
        _ => panic!("expected an exit"),
    }
}

#[test]
fn reading_past_the_tokens_crashes() {
    let mut p = Parser::new(Vec::new());
    assert!(matches!(p.program_checked(), Err(ParseStop::Crash)));
    let mut p = Parser::new(toks("int main ( ) { return 1 ;").into_iter().filter(|t| t.kind != TokenKind::Eof).collect());
    assert!(matches!(p.program_checked(), Err(ParseStop::Crash)));
}

#[test]
fn parser_tables_after_program() {
    let mut p = Parser::new(toks("int g ; char * h [ 2 ] ; int main ( int a ) { int b ; return a ; }"));
    assert!(p.program().is_ok());
    assert_eq!(p.globals.len(), 2);
    assert_eq!(p.globals[0].name, "g");
    assert_eq!(p.globals[1].ty, arr_of(2, ptr_to(char_ty())));
    assert_eq!(p.functions.len(), 1);
    assert_eq!(p.functions[0].name, "main");
    assert_eq!(p.functions[0].stack_size, 24);
    assert_eq!(p.locals.len(), 1);
    assert_eq!(p.locals[0].len(), 2);
    assert_eq!(p.locals[0][1].offset, 16);
}

#[test]
fn sizeof_and_index() {
    let code = parse("int main ( ) { int a [ 2 ] ; return sizeof a + a [ 1 ] ; }");
    let body = code[0].rhs.as_ref().unwrap();
    match &body.kind {
        NodeKind::Block(stmts) => {
            let ret = stmts[1].lhs.as_ref().unwrap();
            let l = ret.lhs.as_ref().unwrap();
            assert_eq!(l.kind, NodeKind::Num(8));
            let r = ret.rhs.as_ref().unwrap();
            assert_eq!(r.kind, NodeKind::UnaryOp(UnaryOpKind::Deref));
        }
        _ => panic!("expected a block"),
    }
}

#[test]
fn redefined_global_keeps_one_entry() {
    let mut p = Parser::new(toks("int x ; char x ; int main ( ) { return x ; }"));
    let code = match p.program() {
        Ok(code) => code,
        Err(m) => panic!("parse error: {}", m),
    };
    assert_eq!(p.globals.len(), 1);
    assert_eq!(p.globals[0].ty, char_ty());
    let mut out = Vec::new();
    assert!(gen_program(&code, &mut out).is_ok());
    assert!(out.iter().any(|l| l == "  movzx rax, BYTE PTR [rax]"));
}

#[test]
fn functions_are_recorded_once_each() {
    let mut p = Parser::new(toks("int f ( ) { return 1 ; } int g ( ) { return f ( ) ; }"));
    assert!(p.program().is_ok());
    let names: Vec<String> = p.functions.iter().map(|f| f.name.clone()).collect();
    assert_eq!(names, vec!["f", "g"]);
}

#[test]
fn source_text_to_assembly() {
    let tokens = match scan("int main() {\n  int a;\n  a = 2 * 3;\n  return a;\n}\n") {
        Lexed::Tokens(v) => v,
        _ => panic!("scan failed"),
    };
    let mut p = Parser::new(tokens);
    let code = match p.program() {
        Ok(code) => code,
        Err(m) => panic!("parse error: {}", m),
    };
    let mut out = Vec::new();
    assert!(gen_program(&code, &mut out).is_ok());
    let mut body = vec![
        "  mov rax, rbp", "  sub rax, 8", "  push rax", "  pop rax", "  mov rax, [rax]", "  push rax",
        "  mov rax, rbp", "  sub rax, 8", "  push rax", "  push 2", "  push 3", "  pop rdi", "  pop rax",
        "  imul rax, rdi", "  push rax", "  pop rdi", "  pop rax", "  mov [rax], rdi", "  push rdi\n",
        "  mov rax, rbp", "  sub rax, 8", "  push rax", "  pop rax", "  mov rax, [rax]", "  push rax",
    ];
    body.extend_from_slice(&RETURN);
    assert_eq!(out, main_program(16, &body));
}

#[test]
fn global_declaration_without_semicolon() {
    let code = parse("int x [ 3 ] char y int main ( ) { return 1 ; }");
    assert_eq!(code.len(), 3);
    match &code[0].kind {
        NodeKind::GVarDef(g) => assert_eq!(g.ty, arr_of(3, int_ty())),
        _ => panic!("expected a global definition"),
    }
    match &code[1].kind {
        NodeKind::GVarDef(g) => {
            assert_eq!(g.name, "y");
            assert_eq!(g.ty, char_ty());
        }
        _ => panic!("expected a global definition"),
    }
    assert!(matches!(code[2].kind, NodeKind::Fndef(_, _)));
    let code = parse("int x ; int y [ 2 ] ;");
    assert_eq!(code.len(), 2);
}

#[test]
fn declaration_names_must_be_identifiers() {
    let mut p = Parser::new(toks("int main ( ) { int 5 ; }"));
    assert_eq!(p.program(), Err("変数名がありません".to_string()));
    assert_eq!(p.local_tables().len(), 1);
    assert!(p.local_tables()[0].is_empty());
    assert_eq!(parse_err("int f ( int 5 ) { return 1 ; }"), "変数名がありません");
    assert_eq!(parse_err("int f ( int a , char ; ) { return 1 ; }"), "変数名がありません");
}

#[test]
fn table_accessors() {
    let mut p = Parser::new(toks("int g ; int main ( int a ) { return a ; }"));
    assert!(p.program().is_ok());
    assert_eq!(p.global_table().len(), 1);
    assert_eq!(p.function_table()[0].name, "main");
    assert_eq!(p.local_tables()[0][0].name, "a");
}

#[test]
fn label_count_matches_constructs() {
    let code = parse("int main ( ) { for ( ; ; ) if ( 1 ) 2 ; else while ( 0 ) 3 ; if ( 4 ) 5 ; }");
    let body = code[0].rhs.as_ref().unwrap();
    let mut id = 10;
    let mut out = Vec::new();
    assert!(gen(body, &mut id, &mut out).is_ok());
    assert_eq!(id, 14);
    for l in [".Lbegin10:", ".Lelse11:", ".Lbegin12:", ".Lend13:"] {
        assert_eq!(out.iter().filter(|x| x.as_str() == l).count(), 1);
    }
}
