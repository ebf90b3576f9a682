//! What the code generator emits for a syntax tree: x86-64 assembly in Intel
//! syntax, one line per element, with a counter numbering the labels of
//! `if`, `while` and `for`.
use vstd::prelude::*;
use crate::ast::{
    arith_value, compare_holds, trunc_div, is_pointer_like, size_computable, type_size, BinaryOpKind, ComparisonOpKind, NodeKindV, NodeV,
    Type, TypeKind, UnaryOpKind,
};
use crate::listing::HaltV;
use crate::text::{int_text, nat_text};

verus! {

/// Lines emitted, the label counter after them, and whether emitting stopped.
pub ghost struct GenOut {
    pub lines: Seq<Seq<char>>,
    pub id: int,
    pub halt: Option<HaltV>,
}

pub open spec fn emitted(lines: Seq<Seq<char>>, id: int) -> GenOut {
    GenOut { lines, id, halt: None }
}

pub open spec fn crashed(lines: Seq<Seq<char>>, id: int) -> GenOut {
    GenOut { lines, id, halt: Some(HaltV::Crash) }
}

/// `g` with `pre` emitted before it.
pub open spec fn prefixed(pre: Seq<Seq<char>>, g: GenOut) -> GenOut {
    GenOut { lines: pre + g.lines, id: g.id, halt: g.halt }
}

/// `a`, then `b` if `a` ran to its end.
pub open spec fn and_next(a: GenOut, b: GenOut) -> GenOut {
    if a.halt is Some {
        a
    } else {
        GenOut { lines: a.lines + b.lines, id: b.id, halt: b.halt }
    }
}

/// `a`, then the lines `more` if `a` ran to its end.
pub open spec fn followed(a: GenOut, more: Seq<Seq<char>>) -> GenOut {
    if a.halt is Some {
        a
    } else {
        GenOut { lines: a.lines + more, id: a.id, halt: None }
    }
}

/// The argument registers of the calling convention, in order.
pub open spec fn reg(i: int) -> Seq<char> {
    if i == 0 {
        "rdi"@
    } else if i == 1 {
        "rsi"@
    } else if i == 2 {
        "rdx"@
    } else if i == 3 {
        "rcx"@
    } else if i == 4 {
        "r8"@
    } else {
        "r9"@
    }
}

pub open spec fn lvalue_msg() -> Seq<char> {
    "代入の左辺値が変数ではありません"@
}

pub open spec fn param_msg() -> Seq<char> {
    "関数の引数が変数ではありません"@
}

/// Loading the value at the address on the stack: a byte for `char`.
pub open spec fn load_lines(ty: Type) -> Seq<Seq<char>> {
    seq![
        "  pop rax"@,
        if ty.kind == TypeKind::Char {
            "  movzx rax, BYTE PTR [rax]"@
        } else {
            "  mov rax, [rax]"@
        },
        "  push rax"@,
    ]
}

pub open spec fn compare_line(op: ComparisonOpKind) -> Seq<char> {
    match op {
        ComparisonOpKind::Eq => "  sete al"@,
        ComparisonOpKind::Nq => "  setne al"@,
        ComparisonOpKind::Lt => "  setl al"@,
        ComparisonOpKind::Le => "  setle al"@,
        ComparisonOpKind::Gt => "  setg al"@,
        ComparisonOpKind::Ge => "  setge al"@,
    }
}

/// The address of an assignable expression, pushed on the stack.
#[verifier::opaque]
pub open spec fn g_lval(n: NodeV, id: int) -> GenOut
    decreases n, 0nat,
{
    match n.kind {
        NodeKindV::LVar(v) => emitted(
            seq!["  mov rax, rbp"@, "  sub rax, "@ + nat_text(v.offset), "  push rax"@],
            id,
        ),
        NodeKindV::UnaryOp(op) => if op == UnaryOpKind::Deref {
            match n.lhs {
                Some(l) => g_node(*l, id),
                None => crashed(seq![], id),
            }
        } else {
            emitted(seq![], id)
        },
        NodeKindV::GVar(g) => emitted(seq!["  lea rax, "@ + g.name + "[rip]"@, "  push rax"@], id),
        _ => GenOut { lines: seq![], id, halt: Some(HaltV::Exit(lvalue_msg())) },
    }
}

/// The code of an expression or a statement.
#[verifier::opaque]
pub open spec fn g_node(n: NodeV, id: int) -> GenOut
    decreases n, 2nat,
{
    match n.kind {
        NodeKindV::Num(v) => emitted(seq!["  push "@ + int_text(v as int)], id),
        NodeKindV::LVar(_) => followed(g_lval(n, id), load_lines(n.ty)),
        NodeKindV::GVarDef(g) => {
            let head = seq!["  .bss"@, "  .global "@ + g.name, g.name + ":"@];
            if size_computable(g.ty) {
                emitted(head.push("  .zero "@ + nat_text(type_size(g.ty)) + "\n"@), id)
            } else {
                crashed(head, id)
            }
        },
        NodeKindV::GVar(g) => if g.ty.kind == TypeKind::Arr {
            g_lval(n, id)
        } else {
            followed(g_lval(n, id), load_lines(n.ty))
        },
        NodeKindV::Assign => g_assign(n, id),
        NodeKindV::Return => match n.lhs {
            Some(l) => followed(
                g_node(*l, id),
                seq!["  pop rax"@, "  mov rsp, rbp"@, "  pop rbp"@, "  ret\n"@],
            ),
            None => crashed(seq![], id),
        },
        NodeKindV::If => g_if(n, id),
        NodeKindV::While => g_while(n, id),
        NodeKindV::For => g_for(n, id),
        NodeKindV::Block(stmts) => g_list(stmts, id),
        NodeKindV::Fncall(f, args) => followed(
            g_args(args, 0, id),
            seq![
                "  mov rax, "@ + nat_text(args.len()),
                "  mov al, 0"@,
                "  mov r10, rsp"@,
                "  sub r10, 8"@,
                "  and r10, 15 # save offset to r10"@,
                "  sub rsp, r10 # align rsp to be divisible by 16"@,
                "  push r10 # save offset to stack"@,
                "  call "@ + f.name,
                "  pop r10 # restore offset from stack"@,
                "  add rsp, r10 # adjust stack pointer after call"@,
                "  push rax # rax has return value after call"@,
            ],
        ),
        NodeKindV::Fndef(f, params) => {
            let head = seq![
                "  .text"@,
                "  .global "@ + f.name,
                f.name + ":"@,
                "  push rbp"@,
                "  mov rbp, rsp # save base pointer"@,
                "  sub rsp, "@ + nat_text(f.stack_size) + " # make spaces for local variables\n"@,
            ];
            prefixed(
                head,
                and_next(
                    g_params(params, 0, id),
                    match n.rhs {
                        Some(b) => followed(
                            g_node(*b, id),
                            seq![
                                "  pop rax"@,
                                "\n  mov rsp, rbp # restore stack pointer"@,
                                "  pop rbp # discard base pointer"@,
                                "  ret"@,
                            ],
                        ),
                        None => crashed(seq![], id),
                    },
                ),
            )
        },
        NodeKindV::UnaryOp(UnaryOpKind::Ref) => match n.lhs {
            Some(l) => g_lval(*l, id),
            None => crashed(seq![], id),
        },
        NodeKindV::UnaryOp(UnaryOpKind::Deref) => match n.lhs {
            Some(l) => if n.ty.kind == TypeKind::Arr {
                g_node(*l, id)
            } else {
                followed(g_node(*l, id), load_lines(n.ty))
            },
            None => crashed(seq![], id),
        },
        _ => g_binary(n, id),
    }
}

/// lhs = rhs: the address, the value, the store; the value stays on the stack.
#[verifier::opaque]
pub open spec fn g_assign(n: NodeV, id: int) -> GenOut
    decreases n, 1nat,
{
    match n.lhs {
        Some(l) => {
            let a = g_lval(*l, id);
            and_next(
                a,
                match n.rhs {
                    Some(r) => followed(
                        g_node(*r, a.id),
                        seq![
                            "  pop rdi"@,
                            "  pop rax"@,
                            if l.ty.kind == TypeKind::Char {
                                "  mov BYTE PTR [rax], dil"@
                            } else {
                                "  mov [rax], rdi"@
                            },
                            "  push rdi\n"@,
                        ],
                    ),
                    None => crashed(seq![], a.id),
                },
            )
        },
        None => crashed(seq![], id),
    }
}

/// if (cond) then [else els], with the labels numbered by the counter.
#[verifier::opaque]
pub open spec fn g_if(n: NodeV, id: int) -> GenOut
    decreases n, 1nat,
{
    if id >= i32::MAX {
        crashed(seq![], id)
    } else {
        match n.lhs {
            Some(c) => {
                let gc = g_node(*c, id + 1);
                and_next(
                    gc,
                    prefixed(
                        seq!["  pop rax"@, "  cmp rax, 0"@],
                        match n.rhs {
                            Some(r) => if r.kind is Else {
                                prefixed(
                                    seq!["  je .Lelse"@ + int_text(id)],
                                    match r.lhs {
                                        Some(th) => {
                                            let gt = g_node(*th, gc.id);
                                            and_next(
                                                gt,
                                                prefixed(
                                                    seq!["  jmp .Lend"@ + int_text(id), ".Lelse"@ + int_text(id) + ":"@],
                                                    match r.rhs {
                                                        Some(el) => followed(
                                                            g_node(*el, gt.id),
                                                            seq![".Lend"@ + int_text(id) + ":"@],
                                                        ),
                                                        None => crashed(seq![], gt.id),
                                                    },
                                                ),
                                            )
                                        },
                                        None => crashed(seq![], gc.id),
                                    },
                                )
                            } else {
                                prefixed(
                                    seq!["  je .Lend"@ + int_text(id)],
                                    followed(g_node(*r, gc.id), seq![".Lend"@ + int_text(id) + ":"@]),
                                )
                            },
                            None => crashed(seq![], gc.id),
                        },
                    ),
                )
            },
            None => crashed(seq![], id + 1),
        }
    }
}

/// while (cond) body
#[verifier::opaque]
pub open spec fn g_while(n: NodeV, id: int) -> GenOut
    decreases n, 1nat,
{
    if id >= i32::MAX {
        crashed(seq![], id)
    } else {
        prefixed(
            seq![".Lbegin"@ + int_text(id) + ":"@],
            match n.lhs {
                Some(c) => {
                    let gc = g_node(*c, id + 1);
                    and_next(
                        gc,
                        prefixed(
                            seq!["  pop rax"@, "  cmp rax, 0"@, "  je .Lend"@ + int_text(id)],
                            match n.rhs {
                                Some(b) => followed(
                                    g_node(*b, gc.id),
                                    seq!["  jmp .Lbegin"@ + int_text(id), ".Lend"@ + int_text(id) + ":"@],
                                ),
                                None => crashed(seq![], gc.id),
                            },
                        ),
                    )
                },
                None => crashed(seq![], id + 1),
            },
        )
    }
}

/// for (init; cond; inc) body, the three clauses and the body nested in the
/// right operands.
#[verifier::opaque]
pub open spec fn g_for(n: NodeV, id: int) -> GenOut
    decreases n, 1nat,
{
    if id >= i32::MAX {
        crashed(seq![], id)
    } else {
        match n.lhs {
            Some(init) => {
                let gi = g_node(*init, id + 1);
                and_next(
                    gi,
                    prefixed(
                        seq![".Lbegin"@ + int_text(id) + ":"@],
                        match n.rhs {
                            Some(r) => match r.lhs {
                                Some(c) => {
                                    let gc = g_node(*c, gi.id);
                                    and_next(
                                        gc,
                                        prefixed(
                                            seq!["  pop rax"@, "  cmp rax, 0"@, "  je .Lend"@ + int_text(id)],
                                            match r.rhs {
                                                Some(rr) => match rr.rhs {
                                                    Some(body) => {
                                                        let gb = g_node(*body, gc.id);
                                                        and_next(
                                                            gb,
                                                            match rr.lhs {
                                                                Some(inc) => followed(
                                                                    g_node(*inc, gb.id),
                                                                    seq!["  jmp .Lbegin"@ + int_text(id), ".Lend"@ + int_text(id) + ":"@],
                                                                ),
                                                                None => crashed(seq![], gb.id),
                                                            },
                                                        )
                                                    },
                                                    None => crashed(seq![], gc.id),
                                                },
                                                None => crashed(seq![], gc.id),
                                            },
                                        ),
                                    )
                                },
                                None => crashed(seq![], gi.id),
                            },
                            None => crashed(seq![], gi.id),
                        },
                    ),
                )
            },
            None => crashed(seq![], id + 1),
        }
    }
}

/// The statements of a block, one after the other.
#[verifier::opaque]
pub open spec fn g_list(s: Seq<NodeV>, id: int) -> GenOut
    decreases s, 1nat,
{
    if s.len() == 0 {
        emitted(seq![], id)
    } else {
        let a = g_node(s[0], id);
        and_next(a, g_list(s.drop_first(), a.id))
    }
}

/// The arguments of a call, the `i`-th and on: each evaluated and popped
/// into its register; a seventh argument has no register.
#[verifier::opaque]
pub open spec fn g_args(s: Seq<NodeV>, i: int, id: int) -> GenOut
    decreases s, 1nat,
{
    if s.len() == 0 {
        emitted(seq![], id)
    } else {
        let a = g_node(s[0], id);
        and_next(
            a,
            if i >= 6 {
                crashed(seq![], a.id)
            } else {
                prefixed(
                    seq!["  pop "@ + reg(i) + " # set "@ + int_text(i) + "-th argument"@],
                    g_args(s.drop_first(), i + 1, a.id),
                )
            },
        )
    }
}

/// The parameters of a definition, the `i`-th and on: each stored from its
/// register to its stack slot.
pub open spec fn g_params(s: Seq<NodeV>, i: int, id: int) -> GenOut
    decreases s.len(),
{
    if s.len() == 0 {
        emitted(seq![], id)
    } else {
        match s[0].kind {
            NodeKindV::LVar(v) => if i >= 6 {
                crashed(seq![], id)
            } else {
                prefixed(
                    seq!["  mov [rbp-"@ + nat_text(v.offset) + "], "@ + reg(i) + " # push argument"@],
                    g_params(s.drop_first(), i + 1, id),
                )
            },
            _ => GenOut { lines: seq![], id, halt: Some(HaltV::Exit(param_msg())) },
        }
    }
}

/// The scale of pointer arithmetic on a node of type `ty`: the size of what
/// it points to.
pub open spec fn scale_lines(n: NodeV, l: NodeV) -> Option<Seq<Seq<char>>> {
    if is_pointer_like(n.ty.kind) {
        match n.ty.ptr_to {
            Some(e) => if size_computable(*e) {
                Some(
                    seq![
                        (if is_pointer_like(l.ty.kind) {
                            "  imul rdi, "@
                        } else {
                            "  imul rax, "@
                        }) + nat_text(type_size(*e)),
                    ],
                )
            } else {
                None
            },
            None => None,
        }
    } else {
        Some(seq![])
    }
}

/// Arithmetic and comparisons: both operands, then the operation.
#[verifier::opaque]
pub open spec fn g_binary(n: NodeV, id: int) -> GenOut
    decreases n, 1nat,
{
    match n.lhs {
        Some(l) => {
            let gl = g_node(*l, id);
            and_next(
                gl,
                match n.rhs {
                    Some(r) => {
                        let gr = g_node(*r, gl.id);
                        and_next(
                            gr,
                            prefixed(
                                seq!["  pop rdi"@, "  pop rax"@],
                                match n.kind {
                                    NodeKindV::BinaryOp(op) => if op == BinaryOpKind::Add || op == BinaryOpKind::Sub {
                                        match scale_lines(n, *l) {
                                            Some(sc) => emitted(
                                                sc + seq![
                                                    if op == BinaryOpKind::Add {
                                                        "  add rax, rdi"@
                                                    } else {
                                                        "  sub rax, rdi"@
                                                    },
                                                    "  push rax"@,
                                                ],
                                                gr.id,
                                            ),
                                            None => crashed(seq![], gr.id),
                                        }
                                    } else if op == BinaryOpKind::Mul {
                                        emitted(seq!["  imul rax, rdi"@, "  push rax"@], gr.id)
                                    } else {
                                        emitted(seq!["  cqo"@, "  idiv rdi"@, "  push rax"@], gr.id)
                                    },
                                    NodeKindV::Comparison(op) => emitted(
                                        seq!["  cmp rax, rdi"@, compare_line(op), "  movzb rax, al"@, "  push rax"@],
                                        gr.id,
                                    ),
                                    _ => crashed(seq![], gr.id),
                                },
                            ),
                        )
                    },
                    None => crashed(seq![], gl.id),
                },
            )
        },
        None => crashed(seq![], id),
    }
}

/// Whether a top-level node is a global variable definition.
pub open spec fn is_gvar_def(n: NodeV) -> bool {
    n.kind is GVarDef
}

/// The definitions of a program, each followed by `pop rax` unless it is a
/// global variable definition or the last.
pub open spec fn g_top(s: Seq<NodeV>, id: int) -> GenOut
    decreases s.len(),
{
    if s.len() == 0 {
        emitted(seq![], id)
    } else {
        let a = g_node(s[0], id);
        and_next(
            a,
            prefixed(
                if is_gvar_def(s[0]) || s.len() == 1 {
                    seq![]
                } else {
                    seq!["  pop rax"@]
                },
                g_top(s.drop_first(), a.id),
            ),
        )
    }
}

/// The assembly of a whole program.
pub open spec fn g_program(s: Seq<NodeV>) -> GenOut {
    prefixed(seq![".intel_syntax noprefix"@], g_top(s, 0))
}

proof fn lemma_lval_id(n: NodeV, id: int)
    ensures
        g_lval(n, id).id >= id,
    decreases n, 0nat,
{
    reveal(g_lval);
    reveal(g_node);
    if let NodeKindV::UnaryOp(op) = n.kind {
        if op == UnaryOpKind::Deref {
            if let Some(l) = n.lhs {
                lemma_node_id(*l, id);
            }
        }
    }
}

/// Law: the label counter never goes back: generating the code of a node
/// leaves it where it was or further on.
pub proof fn lemma_node_id(n: NodeV, id: int)
    ensures
        g_node(n, id).id >= id,
    decreases n, 2nat,
{
    reveal(g_node);
    reveal(g_lval);
    reveal(g_assign);
    reveal(g_if);
    reveal(g_while);
    reveal(g_for);
    reveal(g_list);
    reveal(g_args);
    reveal(g_binary);
    match n.kind {
        NodeKindV::LVar(_) => lemma_lval_id(n, id),
        NodeKindV::GVar(_) => lemma_lval_id(n, id),
        NodeKindV::Assign => lemma_assign_id(n, id),
        NodeKindV::Return => {
            if let Some(l) = n.lhs {
                lemma_node_id(*l, id);
            }
        },
        NodeKindV::If => lemma_if_id(n, id),
        NodeKindV::While => lemma_while_id(n, id),
        NodeKindV::For => lemma_for_id(n, id),
        NodeKindV::Block(stmts) => lemma_list_id(stmts, id),
        NodeKindV::Fncall(_, args) => lemma_args_id(args, 0, id),
        NodeKindV::Fndef(_, params) => {
            lemma_params_id(params, 0, id);
            if let Some(b) = n.rhs {
                lemma_node_id(*b, id);
            }
        },
        NodeKindV::UnaryOp(UnaryOpKind::Ref) => {
            if let Some(l) = n.lhs {
                lemma_lval_id(*l, id);
            }
        },
        NodeKindV::UnaryOp(UnaryOpKind::Deref) => {
            if let Some(l) = n.lhs {
                lemma_node_id(*l, id);
            }
        },
        NodeKindV::Num(_) => {},
        NodeKindV::GVarDef(_) => {},
        _ => lemma_binary_id(n, id),
    }
}

/// Lemma: storing parameters takes no label.
pub proof fn lemma_params_id(s: Seq<NodeV>, i: int, id: int)
    ensures
        g_params(s, i, id).id == id,
    decreases s.len(),
{
    if s.len() > 0 {
        lemma_params_id(s.drop_first(), i + 1, id);
    }
}

proof fn lemma_assign_id(n: NodeV, id: int)
    ensures
        g_assign(n, id).id >= id,
    decreases n, 1nat,
{
    reveal(g_assign);
    reveal(g_node);
    reveal(g_lval);
    if let Some(l) = n.lhs {
        lemma_lval_id(*l, id);
        if let Some(r) = n.rhs {
            lemma_node_id(*r, g_lval(*l, id).id);
        }
    }
}

proof fn lemma_if_id(n: NodeV, id: int)
    ensures
        g_if(n, id).id >= id,
    decreases n, 1nat,
{
    reveal(g_if);
    reveal(g_node);
    if id < i32::MAX {
        if let Some(c) = n.lhs {
            lemma_node_id(*c, id + 1);
            let gc = g_node(*c, id + 1);
            if let Some(r) = n.rhs {
                if r.kind is Else {
                    if let Some(th) = r.lhs {
                        lemma_node_id(*th, gc.id);
                        if let Some(el) = r.rhs {
                            lemma_node_id(*el, g_node(*th, gc.id).id);
                        }
                    }
                } else {
                    lemma_node_id(*r, gc.id);
                }
            }
        }
    }
}

proof fn lemma_while_id(n: NodeV, id: int)
    ensures
        g_while(n, id).id >= id,
    decreases n, 1nat,
{
    reveal(g_while);
    reveal(g_node);
    if id < i32::MAX {
        if let Some(c) = n.lhs {
            lemma_node_id(*c, id + 1);
            if let Some(b) = n.rhs {
                lemma_node_id(*b, g_node(*c, id + 1).id);
            }
        }
    }
}

proof fn lemma_for_id(n: NodeV, id: int)
    ensures
        g_for(n, id).id >= id,
    decreases n, 1nat,
{
    reveal(g_for);
    reveal(g_node);
    if id < i32::MAX {
        if let Some(init) = n.lhs {
            lemma_node_id(*init, id + 1);
            let gi = g_node(*init, id + 1);
            if let Some(r) = n.rhs {
                if let Some(c) = r.lhs {
                    lemma_node_id(*c, gi.id);
                    let gc = g_node(*c, gi.id);
                    if let Some(rr) = r.rhs {
                        if let Some(body) = rr.rhs {
                            lemma_node_id(*body, gc.id);
                            if let Some(inc) = rr.lhs {
                                lemma_node_id(*inc, g_node(*body, gc.id).id);
                            }
                        }
                    }
                }
            }
        }
    }
}

proof fn lemma_list_id(s: Seq<NodeV>, id: int)
    ensures
        g_list(s, id).id >= id,
    decreases s, 1nat,
{
    reveal(g_list);
    reveal(g_node);
    if s.len() > 0 {
        lemma_node_id(s[0], id);
        lemma_list_id(s.drop_first(), g_node(s[0], id).id);
    }
}

proof fn lemma_args_id(s: Seq<NodeV>, i: int, id: int)
    ensures
        g_args(s, i, id).id >= id,
    decreases s, 1nat,
{
    reveal(g_args);
    reveal(g_node);
    if s.len() > 0 {
        lemma_node_id(s[0], id);
        lemma_args_id(s.drop_first(), i + 1, g_node(s[0], id).id);
    }
}

proof fn lemma_binary_id(n: NodeV, id: int)
    ensures
        g_binary(n, id).id >= id,
    decreases n, 1nat,
{
    reveal(g_binary);
    reveal(g_node);
    if let Some(l) = n.lhs {
        lemma_node_id(*l, id);
        if let Some(r) = n.rhs {
            lemma_node_id(*r, g_node(*l, id).id);
        }
    }
}

/// The number of `if`, `while` and `for` nodes that generating the address
/// of `n` meets.
pub open spec fn lval_labels(n: NodeV) -> nat
    decreases n, 0nat,
{
    match n.kind {
        NodeKindV::UnaryOp(UnaryOpKind::Deref) => match n.lhs {
            Some(l) => labels(*l),
            None => 0,
        },
        _ => 0,
    }
}

/// The number of `if`, `while` and `for` nodes that generating the code of
/// `n` meets: each takes one label number.
pub open spec fn labels(n: NodeV) -> nat
    decreases n, 2nat,
{
    match n.kind {
        NodeKindV::Assign => match n.lhs {
            Some(l) => lval_labels(*l) + match n.rhs {
                Some(r) => labels(*r),
                None => 0,
            },
            None => 0,
        },
        NodeKindV::Return => match n.lhs {
            Some(l) => labels(*l),
            None => 0,
        },
        NodeKindV::If => 1 + match n.lhs {
            Some(c) => labels(*c) + match n.rhs {
                Some(r) => if r.kind is Else {
                    match r.lhs {
                        Some(th) => labels(*th) + match r.rhs {
                            Some(el) => labels(*el),
                            None => 0,
                        },
                        None => 0,
                    }
                } else {
                    labels(*r)
                },
                None => 0,
            },
            None => 0,
        },
        NodeKindV::While => 1 + match n.lhs {
            Some(c) => labels(*c) + match n.rhs {
                Some(b) => labels(*b),
                None => 0,
            },
            None => 0,
        },
        NodeKindV::For => 1 + match n.lhs {
            Some(init) => labels(*init) + match n.rhs {
                Some(r) => match r.lhs {
                    Some(c) => labels(*c) + match r.rhs {
                        Some(rr) => match rr.rhs {
                            Some(body) => labels(*body) + match rr.lhs {
                                Some(inc) => labels(*inc),
                                None => 0,
                            },
                            None => 0,
                        },
                        None => 0,
                    },
                    None => 0,
                },
                None => 0,
            },
            None => 0,
        },
        NodeKindV::Block(stmts) => list_labels(stmts),
        NodeKindV::Fncall(_, args) => list_labels(args),
        NodeKindV::Fndef(_, _) => match n.rhs {
            Some(b) => labels(*b),
            None => 0,
        },
        NodeKindV::UnaryOp(UnaryOpKind::Ref) => match n.lhs {
            Some(l) => lval_labels(*l),
            None => 0,
        },
        NodeKindV::UnaryOp(UnaryOpKind::Deref) => match n.lhs {
            Some(l) => labels(*l),
            None => 0,
        },
        NodeKindV::Num(_) => 0,
        NodeKindV::LVar(_) => 0,
        NodeKindV::GVar(_) => 0,
        NodeKindV::GVarDef(_) => 0,
        _ => match n.lhs {
            Some(l) => labels(*l) + match n.rhs {
                Some(r) => labels(*r),
                None => 0,
            },
            None => 0,
        },
    }
}

/// The labels of the nodes of `s`, added up.
pub open spec fn list_labels(s: Seq<NodeV>) -> nat
    decreases s, 1nat,
{
    if s.len() == 0 {
        0
    } else {
        labels(s[0]) + list_labels(s.drop_first())
    }
}

proof fn lemma_lval_count(n: NodeV, id: int)
    ensures
        g_lval(n, id).halt is None ==> g_lval(n, id).id == id + lval_labels(n),
    decreases n, 0nat,
{
    reveal(g_lval);
    reveal(g_node);
    if let NodeKindV::UnaryOp(op) = n.kind {
        if op == UnaryOpKind::Deref {
            if let Some(l) = n.lhs {
                lemma_node_count(*l, id);
            }
        }
    }
}

/// Law: code generation that runs to its end takes exactly one label number
/// for each `if`, `while` and `for` it meets, so the counter ends at its start
/// plus their number.
pub proof fn lemma_node_count(n: NodeV, id: int)
    ensures
        g_node(n, id).halt is None ==> g_node(n, id).id == id + labels(n),
    decreases n, 2nat,
{
    reveal(g_node);
    reveal(g_lval);
    reveal(g_assign);
    reveal(g_if);
    reveal(g_while);
    reveal(g_for);
    reveal(g_list);
    reveal(g_args);
    reveal(g_binary);
    match n.kind {
        NodeKindV::LVar(_) => lemma_lval_count(n, id),
        NodeKindV::GVar(_) => lemma_lval_count(n, id),
        NodeKindV::Assign => lemma_assign_count(n, id),
        NodeKindV::Return => {
            if let Some(l) = n.lhs {
                lemma_node_count(*l, id);
            }
        },
        NodeKindV::If => lemma_if_count(n, id),
        NodeKindV::While => lemma_while_count(n, id),
        NodeKindV::For => lemma_for_count(n, id),
        NodeKindV::Block(stmts) => lemma_list_count(stmts, id),
        NodeKindV::Fncall(_, args) => lemma_args_count(args, 0, id),
        NodeKindV::Fndef(_, params) => {
            lemma_params_id(params, 0, id);
            if let Some(b) = n.rhs {
                lemma_node_count(*b, id);
            }
        },
        NodeKindV::UnaryOp(UnaryOpKind::Ref) => {
            if let Some(l) = n.lhs {
                lemma_lval_count(*l, id);
            }
        },
        NodeKindV::UnaryOp(UnaryOpKind::Deref) => {
            if let Some(l) = n.lhs {
                lemma_node_count(*l, id);
            }
        },
        NodeKindV::Num(_) => {},
        NodeKindV::GVarDef(_) => {},
        _ => lemma_binary_count(n, id),
    }
}

proof fn lemma_assign_count(n: NodeV, id: int)
    requires
        n.kind is Assign,
    ensures
        g_assign(n, id).halt is None ==> g_assign(n, id).id == id + labels(n),
    decreases n, 1nat,
{
    reveal(g_assign);
    reveal(g_node);
    reveal(g_lval);
    if let Some(l) = n.lhs {
        lemma_lval_count(*l, id);
        if let Some(r) = n.rhs {
            lemma_node_count(*r, g_lval(*l, id).id);
        }
    }
}

proof fn lemma_if_count(n: NodeV, id: int)
    requires
        n.kind is If,
    ensures
        g_if(n, id).halt is None ==> g_if(n, id).id == id + labels(n),
    decreases n, 1nat,
{
    reveal(g_if);
    reveal(g_node);
    if id < i32::MAX {
        if let Some(c) = n.lhs {
            lemma_node_count(*c, id + 1);
            let gc = g_node(*c, id + 1);
            if let Some(r) = n.rhs {
                if r.kind is Else {
                    if let Some(th) = r.lhs {
                        lemma_node_count(*th, gc.id);
                        if let Some(el) = r.rhs {
                            lemma_node_count(*el, g_node(*th, gc.id).id);
                        }
                    }
                } else {
                    lemma_node_count(*r, gc.id);
                }
            }
        }
    }
}

proof fn lemma_while_count(n: NodeV, id: int)
    requires
        n.kind is While,
    ensures
        g_while(n, id).halt is None ==> g_while(n, id).id == id + labels(n),
    decreases n, 1nat,
{
    reveal(g_while);
    reveal(g_node);
    if id < i32::MAX {
        if let Some(c) = n.lhs {
            lemma_node_count(*c, id + 1);
            if let Some(b) = n.rhs {
                lemma_node_count(*b, g_node(*c, id + 1).id);
            }
        }
    }
}

proof fn lemma_for_count(n: NodeV, id: int)
    requires
        n.kind is For,
    ensures
        g_for(n, id).halt is None ==> g_for(n, id).id == id + labels(n),
    decreases n, 1nat,
{
    reveal(g_for);
    reveal(g_node);
    if id < i32::MAX {
        if let Some(init) = n.lhs {
            lemma_node_count(*init, id + 1);
            let gi = g_node(*init, id + 1);
            if let Some(r) = n.rhs {
                if let Some(c) = r.lhs {
                    lemma_node_count(*c, gi.id);
                    let gc = g_node(*c, gi.id);
                    if let Some(rr) = r.rhs {
                        if let Some(body) = rr.rhs {
                            lemma_node_count(*body, gc.id);
                            if let Some(inc) = rr.lhs {
                                lemma_node_count(*inc, g_node(*body, gc.id).id);
                            }
                        }
                    }
                }
            }
        }
    }
}

proof fn lemma_list_count(s: Seq<NodeV>, id: int)
    ensures
        g_list(s, id).halt is None ==> g_list(s, id).id == id + list_labels(s),
    decreases s, 1nat,
{
    reveal(g_list);
    reveal(g_node);
    if s.len() > 0 {
        lemma_node_count(s[0], id);
        lemma_list_count(s.drop_first(), g_node(s[0], id).id);
    }
}

proof fn lemma_args_count(s: Seq<NodeV>, i: int, id: int)
    ensures
        g_args(s, i, id).halt is None ==> g_args(s, i, id).id == id + list_labels(s),
    decreases s, 1nat,
{
    reveal(g_args);
    reveal(g_node);
    if s.len() > 0 {
        lemma_node_count(s[0], id);
        lemma_args_count(s.drop_first(), i + 1, g_node(s[0], id).id);
    }
}

proof fn lemma_binary_count(n: NodeV, id: int)
    ensures
        g_binary(n, id).halt is None ==> g_binary(n, id).id == id + match n.lhs {
            Some(l) => labels(*l) + match n.rhs {
                Some(r) => labels(*r),
                None => 0,
            },
            None => 0,
        },
    decreases n, 1nat,
{
    reveal(g_binary);
    reveal(g_node);
    if let Some(l) = n.lhs {
        lemma_node_count(*l, id);
        if let Some(r) = n.rhs {
            lemma_node_count(*r, g_node(*l, id).id);
        }
    }
}

/// When the x86 instruction `line`, after `cmp rax, rdi` with `rax` holding
/// `a` and `rdi` holding `b`, sets `al` to 1: the signed condition codes.
pub open spec fn setcc_holds(line: Seq<char>, a: int, b: int) -> Option<bool> {
    if line == "  sete al"@ {
        Some(a == b)
    } else if line == "  setne al"@ {
        Some(a != b)
    } else if line == "  setl al"@ {
        Some(a < b)
    } else if line == "  setle al"@ {
        Some(a <= b)
    } else if line == "  setg al"@ {
        Some(a > b)
    } else if line == "  setge al"@ {
        Some(a >= b)
    } else {
        None
    }
}

/// Law: a comparison evaluates its left operand, then its right one, pops
/// them into `rax` and `rdi`, compares them, and pushes 1 exactly when the C
/// comparison holds of the left and the right value, else 0.
pub proof fn lemma_comparison_code(n: NodeV, id: int)
    requires
        n.kind is Comparison,
        n.lhs is Some,
        n.rhs is Some,
        g_node(n, id).halt is None,
    ensures
        ({
            let g = g_node(n, id);
            let gl = g_node(*n.lhs.unwrap(), id);
            let gr = g_node(*n.rhs.unwrap(), gl.id);
            let k = g.lines.len();
            &&& k >= 6
            &&& g.lines == gl.lines + gr.lines + seq![
                "  pop rdi"@,
                "  pop rax"@,
                "  cmp rax, rdi"@,
                g.lines[k - 3],
                "  movzb rax, al"@,
                "  push rax"@,
            ]
            &&& forall|a: int, b: int| #[trigger] setcc_holds(g.lines[k - 3], a, b) == Some(
                compare_holds(n.kind->Comparison_0, a, b),
            )
        }),
{
    reveal(g_node);
    reveal(g_lval);
    reveal(g_assign);
    reveal(g_if);
    reveal(g_while);
    reveal(g_for);
    reveal(g_list);
    reveal(g_args);
    reveal(g_binary);
    let l = *n.lhs.unwrap();
    let r = *n.rhs.unwrap();
    let gl = g_node(l, id);
    let gr = g_node(r, gl.id);
    let op = n.kind->Comparison_0;
    let g = g_node(n, id);
    assert(g == g_binary(n, id));
    assert(gl.halt is None);
    assert(gr.halt is None);
    let tail = seq!["  pop rdi"@, "  pop rax"@, "  cmp rax, rdi"@, compare_line(op), "  movzb rax, al"@, "  push rax"@];
    assert(g.lines =~= gl.lines + gr.lines + tail);
    let k = g.lines.len();
    assert(g.lines[k - 3] == compare_line(op));
    assert(g.lines =~= gl.lines + gr.lines + seq![
        "  pop rdi"@,
        "  pop rax"@,
        "  cmp rax, rdi"@,
        g.lines[k - 3],
        "  movzb rax, al"@,
        "  push rax"@,
    ]);
    assert forall|a: int, b: int| #[trigger] setcc_holds(g.lines[k - 3], a, b) == Some(compare_holds(op, a, b)) by {
        reveal_strlit("  sete al");
        reveal_strlit("  setne al");
        reveal_strlit("  setl al");
        reveal_strlit("  setle al");
        reveal_strlit("  setg al");
        reveal_strlit("  setge al");
        assert("  sete al"@[5] == 'e' && "  sete al"@.len() == 9);
        assert("  setl al"@[5] == 'l' && "  setl al"@.len() == 9);
        assert("  setg al"@[5] == 'g' && "  setg al"@.len() == 9);
        assert("  setne al"@[5] == 'n' && "  setne al"@.len() == 10);
        assert("  setle al"@[5] == 'l' && "  setle al"@.len() == 10);
        assert("  setge al"@[5] == 'g' && "  setge al"@.len() == 10);
    }
}

/// The value that the x86 instructions `code` leave in `rax` when `rax`
/// holds `a` and `rdi` holds `b`, for the arithmetic sequences the code
/// generator uses.
pub open spec fn alu_value(code: Seq<Seq<char>>, a: int, b: int) -> Option<int> {
    if code == seq!["  add rax, rdi"@] {
        Some(a + b)
    } else if code == seq!["  sub rax, rdi"@] {
        Some(a - b)
    } else if code == seq!["  imul rax, rdi"@] {
        Some(a * b)
    } else if code == seq!["  cqo"@, "  idiv rdi"@] {
        Some(trunc_div(a, b))
    } else {
        None
    }
}

/// Law: arithmetic on integers evaluates its left operand, then its right
/// one, pops them into `rax` and `rdi`, computes in `rax` what the C operator
/// computes of the left and the right value, and pushes it.
pub proof fn lemma_arithmetic_code(n: NodeV, id: int)
    requires
        n.kind is BinaryOp,
        n.lhs is Some,
        n.rhs is Some,
        !is_pointer_like(n.ty.kind),
        g_node(n, id).halt is None,
    ensures
        ({
            let g = g_node(n, id);
            let gl = g_node(*n.lhs.unwrap(), id);
            let gr = g_node(*n.rhs.unwrap(), gl.id);
            let j = gl.lines.len() + gr.lines.len() + 2int;
            let k = g.lines.len();
            &&& j < k
            &&& g.lines.take(j) == gl.lines + gr.lines + seq!["  pop rdi"@, "  pop rax"@]
            &&& g.lines[k - 1] == "  push rax"@
            &&& forall|a: int, b: int| #[trigger] alu_value(g.lines.subrange(j, k - 1), a, b) == Some(
                arith_value(n.kind->BinaryOp_0, a, b),
            )
        }),
{
    reveal(g_node);
    reveal(g_lval);
    reveal(g_assign);
    reveal(g_if);
    reveal(g_while);
    reveal(g_for);
    reveal(g_list);
    reveal(g_args);
    reveal(g_binary);
    let l = *n.lhs.unwrap();
    let r = *n.rhs.unwrap();
    let gl = g_node(l, id);
    let gr = g_node(r, gl.id);
    let op = n.kind->BinaryOp_0;
    let g = g_node(n, id);
    assert(g == g_binary(n, id));
    assert(gl.halt is None);
    assert(gr.halt is None);
    let x = if op == BinaryOpKind::Add {
        seq!["  add rax, rdi"@]
    } else if op == BinaryOpKind::Sub {
        seq!["  sub rax, rdi"@]
    } else if op == BinaryOpKind::Mul {
        seq!["  imul rax, rdi"@]
    } else {
        seq!["  cqo"@, "  idiv rdi"@]
    };
    let pre = gl.lines + gr.lines + seq!["  pop rdi"@, "  pop rax"@];
    assert(g.lines =~= pre + x + seq!["  push rax"@]);
    let j = pre.len() as int;
    let k = g.lines.len();
    assert(g.lines.take(j) =~= pre);
    assert(g.lines.subrange(j, k - 1) =~= x);
    assert forall|a: int, b: int| #[trigger] alu_value(g.lines.subrange(j, k - 1), a, b) == Some(arith_value(op, a, b)) by {
        reveal_strlit("  add rax, rdi");
        reveal_strlit("  sub rax, rdi");
        reveal_strlit("  imul rax, rdi");
        reveal_strlit("  cqo");
        assert("  add rax, rdi"@[2] == 'a' && "  add rax, rdi"@.len() == 14);
        assert("  sub rax, rdi"@[2] == 's' && "  sub rax, rdi"@.len() == 14);
        assert("  imul rax, rdi"@.len() == 15);
        assert(seq!["  add rax, rdi"@][0] != seq!["  sub rax, rdi"@][0]);
        assert(seq!["  add rax, rdi"@] != seq!["  sub rax, rdi"@]);
        assert(seq!["  add rax, rdi"@] != seq!["  imul rax, rdi"@]);
        assert(seq!["  sub rax, rdi"@] != seq!["  imul rax, rdi"@]);
    }
}

/// Law: adding an integer to a pointer or an array, or subtracting it,
/// evaluates both operands, multiplies the integer operand (in `rdi` when the
/// pointer is on the left, in `rax` when it is on the right) by the size of
/// what the pointer points to, then adds or subtracts as the C operator does.
pub proof fn lemma_pointer_arithmetic_code(n: NodeV, id: int)
    requires
        n.kind == NodeKindV::BinaryOp(BinaryOpKind::Add) || n.kind == NodeKindV::BinaryOp(BinaryOpKind::Sub),
        n.lhs is Some,
        n.rhs is Some,
        is_pointer_like(n.ty.kind),
        g_node(n, id).halt is None,
    ensures
        ({
            let g = g_node(n, id);
            let l = *n.lhs.unwrap();
            let gl = g_node(l, id);
            let gr = g_node(*n.rhs.unwrap(), gl.id);
            let j = gl.lines.len() + gr.lines.len() + 2int;
            &&& n.ty.ptr_to is Some
            &&& g.lines.len() == j + 3
            &&& g.lines.take(j) == gl.lines + gr.lines + seq!["  pop rdi"@, "  pop rax"@]
            &&& g.lines[j] == (if is_pointer_like(l.ty.kind) { "  imul rdi, "@ } else { "  imul rax, "@ })
                + nat_text(type_size(*n.ty.ptr_to.unwrap()))
            &&& forall|a: int, b: int| #[trigger] alu_value(g.lines.subrange(j + 1, j + 2), a, b) == Some(
                arith_value(n.kind->BinaryOp_0, a, b),
            )
            &&& g.lines[j + 2] == "  push rax"@
        }),
{
    reveal(g_node);
    reveal(g_lval);
    reveal(g_assign);
    reveal(g_if);
    reveal(g_while);
    reveal(g_for);
    reveal(g_list);
    reveal(g_args);
    reveal(g_binary);
    let l = *n.lhs.unwrap();
    let r = *n.rhs.unwrap();
    let gl = g_node(l, id);
    let gr = g_node(r, gl.id);
    let op = n.kind->BinaryOp_0;
    let g = g_node(n, id);
    assert(g == g_binary(n, id));
    assert(gl.halt is None);
    assert(gr.halt is None);
    let sc = scale_lines(n, l)->Some_0;
    let x = if op == BinaryOpKind::Add { seq!["  add rax, rdi"@] } else { seq!["  sub rax, rdi"@] };
    let pre = gl.lines + gr.lines + seq!["  pop rdi"@, "  pop rax"@];
    assert(g.lines =~= pre + sc + x + seq!["  push rax"@]);
    let j = pre.len() as int;
    assert(g.lines.take(j) =~= pre);
    assert(g.lines.subrange(j + 1, j + 2) =~= x);
    assert forall|a: int, b: int| #[trigger] alu_value(g.lines.subrange(j + 1, j + 2), a, b) == Some(arith_value(op, a, b)) by {
        reveal_strlit("  add rax, rdi");
        reveal_strlit("  sub rax, rdi");
        assert("  add rax, rdi"@[2] == 'a' && "  add rax, rdi"@.len() == 14);
        assert("  sub rax, rdi"@[2] == 's' && "  sub rax, rdi"@.len() == 14);
        assert(seq!["  add rax, rdi"@][0] != seq!["  sub rax, rdi"@][0]);
        assert(seq!["  add rax, rdi"@] != seq!["  sub rax, rdi"@]);
    }
}

} // verus!
