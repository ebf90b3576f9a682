//! The code generator: appends to a list of lines the assembly that
//! `codegen` specifies for a syntax tree.
use vstd::prelude::*;
use crate::ast::{
    lemma_node_view, lemma_nodes_v_len, node_v, nodes_v, type_size_checked, BinaryOpKind,
    ComparisonOpKind, Node, NodeKind, TypeKind, UnaryOpKind,
};
use crate::codegen::{
    g_args, g_assign, g_binary, g_for, g_if, g_list, g_lval, g_node, g_params, g_program, g_top,
    g_while, labels, lemma_node_count, lemma_node_id, lemma_params_id, GenOut,
};
use crate::listing::{emit, halt_view, lines_view, result_view, Halt, HaltV};
use crate::text::{framed, joined, text_of, with_int, with_nat};

verus! {

/// `after` is `before` with the lines of `g`, `r` tells how `g` ends, and the
/// label counter is where `g` leaves it.
pub open spec fn gen_follows(before: Seq<String>, after: Seq<String>, id_after: i32, g: GenOut, r: Option<HaltV>) -> bool {
    &&& lines_view(after) =~= lines_view(before) + g.lines
    &&& r == g.halt
    &&& g.halt != Some(HaltV::Crash) ==> id_after as int == g.id
}

fn load(out: &mut Vec<String>, char_sized: bool)
    ensures
        lines_view(final(out)@) == lines_view(old(out)@) + seq![
            "  pop rax"@,
            if char_sized {
                "  movzx rax, BYTE PTR [rax]"@
            } else {
                "  mov rax, [rax]"@
            },
            "  push rax"@,
        ],
{
    emit(out, text_of("  pop rax"));
    if char_sized {
        emit(out, text_of("  movzx rax, BYTE PTR [rax]"));
    } else {
        emit(out, text_of("  mov rax, [rax]"));
    }
    emit(out, text_of("  push rax"));
}

fn reg_name(i: usize) -> (r: &'static str)
    requires
        i < 6,
    ensures
        r@ == crate::codegen::reg(i as int),
{
    if i == 0 {
        "rdi"
    } else if i == 1 {
        "rsi"
    } else if i == 2 {
        "rdx"
    } else if i == 3 {
        "rcx"
    } else if i == 4 {
        "r8"
    } else {
        "r9"
    }
}

/// Pushes the address of an assignable expression.
fn gen_lval(node: &Node, id: &mut i32, out: &mut Vec<String>) -> (r: Result<(), Halt>)
    ensures
        gen_follows(old(out)@, final(out)@, *final(id), g_lval(node@, *old(id) as int), result_view(r)),
    decreases node, 0nat,
{
    reveal(g_lval);
    reveal(g_node);
    match &node.kind {
        NodeKind::LVar(lvar) => {
            emit(out, text_of("  mov rax, rbp"));
            emit(out, with_nat("  sub rax, ", lvar.offset));
            emit(out, text_of("  push rax"));
            Ok(())
        },
        NodeKind::UnaryOp(op) => {
            if *op == UnaryOpKind::Deref {
                match &node.lhs {
                    Some(l) => gen_checked(l, id, out),
                    None => Err(Halt::Crash),
                }
            } else {
                Ok(())
            }
        },
        NodeKind::GVar(gvar) => {
            emit(out, framed("  lea rax, ", &gvar.name, "[rip]"));
            emit(out, text_of("  push rax"));
            Ok(())
        },
        _ => Err(Halt::Exit(text_of("代入の左辺値が変数ではありません"))),
    }
}

/// Appends the code of `node` to `out`, numbering labels from `*id` on.
/// Where the code generator would exit or panic, the result says so.
#[verifier::spinoff_prover]
#[verifier::rlimit(40)]
pub fn gen_checked(node: &Node, id: &mut i32, out: &mut Vec<String>) -> (r: Result<(), Halt>)
    ensures
        gen_follows(old(out)@, final(out)@, *final(id), g_node(node@, *old(id) as int), result_view(r)),
    decreases node, 2nat,
{
    reveal(g_node);
    reveal(g_lval);
    reveal(g_assign);
    reveal(g_if);
    reveal(g_while);
    reveal(g_for);
    reveal(g_list);
    reveal(g_args);
    reveal(g_binary);
    proof {
        lemma_node_view(*node);
    }
    match &node.kind {
        NodeKind::Num(val) => {
            emit(out, with_int("  push ", *val));
            Ok(())
        },
        NodeKind::LVar(_) => {
            gen_lval(node, id, out)?;
            load(out, node.ty.kind == TypeKind::Char);
            Ok(())
        },
        NodeKind::GVarDef(gvar) => {
            emit(out, text_of("  .bss"));
            emit(out, joined("  .global ", &gvar.name));
            let mut label = gvar.name.clone();
            crate::text::push_text(&mut label, ":");
            emit(out, label);
            match type_size_checked(&gvar.ty) {
                Some(size) => {
                    let mut line = with_nat("  .zero ", size);
                    crate::text::push_text(&mut line, "\n");
                    emit(out, line);
                    Ok(())
                },
                None => Err(Halt::Crash),
            }
        },
        NodeKind::GVar(gvar) => {
            gen_lval(node, id, out)?;
            if gvar.ty.kind == TypeKind::Arr {
                return Ok(());
            }
            load(out, node.ty.kind == TypeKind::Char);
            Ok(())
        },
        NodeKind::Assign => gen_assign(node, id, out),
        NodeKind::Return => match &node.lhs {
            Some(l) => {
                gen_checked(l, id, out)?;
                emit(out, text_of("  pop rax"));
                emit(out, text_of("  mov rsp, rbp"));
                emit(out, text_of("  pop rbp"));
                emit(out, text_of("  ret\n"));
                Ok(())
            },
            None => Err(Halt::Crash),
        },
        NodeKind::If => gen_if(node, id, out),
        NodeKind::While => gen_while(node, id, out),
        NodeKind::For => gen_for(node, id, out),
        NodeKind::Block(stmts) => gen_block(node, stmts, id, out),
        NodeKind::Fncall(func, args) => {
            proof {
                lemma_nodes_v_len(args@);
            }
            gen_args(node, args, id, out)?;
            emit(out, with_nat("  mov rax, ", args.len()));
            emit(out, text_of("  mov al, 0"));
            emit(out, text_of("  mov r10, rsp"));
            emit(out, text_of("  sub r10, 8"));
            emit(out, text_of("  and r10, 15 # save offset to r10"));
            emit(out, text_of("  sub rsp, r10 # align rsp to be divisible by 16"));
            emit(out, text_of("  push r10 # save offset to stack"));
            emit(out, joined("  call ", &func.name));
            emit(out, text_of("  pop r10 # restore offset from stack"));
            emit(out, text_of("  add rsp, r10 # adjust stack pointer after call"));
            emit(out, text_of("  push rax # rax has return value after call"));
            Ok(())
        },
        NodeKind::Fndef(..) => gen_fndef(node, id, out),
        NodeKind::UnaryOp(op) => match &node.lhs {
            Some(l) => {
                if *op == UnaryOpKind::Ref {
                    gen_lval(l, id, out)
                } else {
                    gen_checked(l, id, out)?;
                    if node.ty.kind == TypeKind::Arr {
                        return Ok(());
                    }
                    load(out, node.ty.kind == TypeKind::Char);
                    Ok(())
                }
            },
            None => Err(Halt::Crash),
        },
        _ => gen_binary(node, id, out),
    }
}

fn gen_assign(node: &Node, id: &mut i32, out: &mut Vec<String>) -> (r: Result<(), Halt>)
    requires
        node.kind is Assign,
    ensures
        gen_follows(old(out)@, final(out)@, *final(id), g_assign(node@, *old(id) as int), result_view(r)),
    decreases node, 1nat,
{
    reveal(g_assign);
    reveal(g_node);
    reveal(g_lval);
    match &node.lhs {
        Some(l) => {
            gen_lval(l, id, out)?;
            match &node.rhs {
                Some(rhs) => {
                    gen_checked(rhs, id, out)?;
                    emit(out, text_of("  pop rdi"));
                    emit(out, text_of("  pop rax"));
                    if l.ty.kind == TypeKind::Char {
                        emit(out, text_of("  mov BYTE PTR [rax], dil"));
                    } else {
                        emit(out, text_of("  mov [rax], rdi"));
                    }
                    emit(out, text_of("  push rdi\n"));
                    Ok(())
                },
                None => Err(Halt::Crash),
            }
        },
        None => Err(Halt::Crash),
    }
}

/// Takes a label number and advances the counter.
fn next_label(id: &mut i32) -> (r: Option<i32>)
    ensures
        *old(id) >= i32::MAX ==> r is None,
        *old(id) < i32::MAX ==> r == Some(*old(id)) && *final(id) == *old(id) + 1,
{
    if *id == i32::MAX {
        return None;
    }
    let l = *id;
    *id += 1;
    Some(l)
}

#[verifier::spinoff_prover]
#[verifier::rlimit(40)]
fn gen_if(node: &Node, id: &mut i32, out: &mut Vec<String>) -> (r: Result<(), Halt>)
    requires
        node.kind is If,
    ensures
        gen_follows(old(out)@, final(out)@, *final(id), g_if(node@, *old(id) as int), result_view(r)),
    decreases node, 1nat,
{
    reveal(g_if);
    reveal(g_node);
    proof {
        lemma_node_view(*node);
    }
    let local_id = match next_label(id) {
        Some(l) => l,
        None => {
            return Err(Halt::Crash);
        },
    };
    match &node.lhs {
        Some(c) => {
            gen_checked(c, id, out)?;
        },
        None => {
            return Err(Halt::Crash);
        },
    }
    emit(out, text_of("  pop rax"));
    emit(out, text_of("  cmp rax, 0"));
    match &node.rhs {
        Some(rhs) => {
            proof {
                lemma_node_view(**rhs);
            }
            if matches!(rhs.kind, NodeKind::Else) {
                emit(out, with_int("  je .Lelse", local_id));
                match &rhs.lhs {
                    Some(th) => {
                        gen_checked(th, id, out)?;
                    },
                    None => {
                        return Err(Halt::Crash);
                    },
                }
                emit(out, with_int("  jmp .Lend", local_id));
                let mut l = with_int(".Lelse", local_id);
                crate::text::push_text(&mut l, ":");
                emit(out, l);
                match &rhs.rhs {
                    Some(el) => {
                        gen_checked(el, id, out)?;
                    },
                    None => {
                        return Err(Halt::Crash);
                    },
                }
                let mut e = with_int(".Lend", local_id);
                crate::text::push_text(&mut e, ":");
                emit(out, e);
                Ok(())
            } else {
                emit(out, with_int("  je .Lend", local_id));
                gen_checked(rhs, id, out)?;
                let mut e = with_int(".Lend", local_id);
                crate::text::push_text(&mut e, ":");
                emit(out, e);
                Ok(())
            }
        },
        None => Err(Halt::Crash),
    }
}

fn gen_while(node: &Node, id: &mut i32, out: &mut Vec<String>) -> (r: Result<(), Halt>)
    requires
        node.kind is While,
    ensures
        gen_follows(old(out)@, final(out)@, *final(id), g_while(node@, *old(id) as int), result_view(r)),
    decreases node, 1nat,
{
    reveal(g_while);
    reveal(g_node);
    let local_id = match next_label(id) {
        Some(l) => l,
        None => {
            return Err(Halt::Crash);
        },
    };
    let mut b = with_int(".Lbegin", local_id);
    crate::text::push_text(&mut b, ":");
    emit(out, b);
    match &node.lhs {
        Some(c) => {
            gen_checked(c, id, out)?;
        },
        None => {
            return Err(Halt::Crash);
        },
    }
    emit(out, text_of("  pop rax"));
    emit(out, text_of("  cmp rax, 0"));
    emit(out, with_int("  je .Lend", local_id));
    match &node.rhs {
        Some(body) => {
            gen_checked(body, id, out)?;
        },
        None => {
            return Err(Halt::Crash);
        },
    }
    emit(out, with_int("  jmp .Lbegin", local_id));
    let mut e = with_int(".Lend", local_id);
    crate::text::push_text(&mut e, ":");
    emit(out, e);
    Ok(())
}

#[verifier::spinoff_prover]
#[verifier::rlimit(40)]
fn gen_for(node: &Node, id: &mut i32, out: &mut Vec<String>) -> (r: Result<(), Halt>)
    requires
        node.kind is For,
    ensures
        gen_follows(old(out)@, final(out)@, *final(id), g_for(node@, *old(id) as int), result_view(r)),
    decreases node, 1nat,
{
    reveal(g_for);
    proof {
        lemma_node_view(*node);
    }
    let ghost o = lines_view(out@);
    let ghost id0 = *id as int;
    let local_id = match next_label(id) {
        Some(l) => l,
        None => {
            return Err(Halt::Crash);
        },
    };
    let init = match &node.lhs {
        Some(x) => x,
        None => {
            return Err(Halt::Crash);
        },
    };
    let ghost gi = g_node((**init)@, id0 + 1);
    gen_checked(init, id, out)?;
    let mut b = with_int(".Lbegin", local_id);
    crate::text::push_text(&mut b, ":");
    emit(out, b);
    let ghost o1 = o + gi.lines + seq![b@];
    assert(lines_view(out@) == o1);
    let r = match &node.rhs {
        Some(r) => r,
        None => {
            return Err(Halt::Crash);
        },
    };
    proof {
        lemma_node_view(**r);
    }
    let c = match &r.lhs {
        Some(c) => c,
        None => {
            return Err(Halt::Crash);
        },
    };
    let ghost gc = g_node((**c)@, gi.id);
    gen_checked(c, id, out)?;
    emit(out, text_of("  pop rax"));
    emit(out, text_of("  cmp rax, 0"));
    let je = with_int("  je .Lend", local_id);
    emit(out, je);
    let ghost o2 = o1 + gc.lines + seq!["  pop rax"@, "  cmp rax, 0"@, je@];
    assert(lines_view(out@) == o2);
    let rr = match &r.rhs {
        Some(rr) => rr,
        None => {
            return Err(Halt::Crash);
        },
    };
    proof {
        lemma_node_view(**rr);
    }
    let body = match &rr.rhs {
        Some(x) => x,
        None => {
            return Err(Halt::Crash);
        },
    };
    let ghost gb = g_node((**body)@, gc.id);
    gen_checked(body, id, out)?;
    let ghost o3 = o2 + gb.lines;
    assert(lines_view(out@) == o3);
    let inc = match &rr.lhs {
        Some(x) => x,
        None => {
            return Err(Halt::Crash);
        },
    };
    gen_checked(inc, id, out)?;
    let jmp = with_int("  jmp .Lbegin", local_id);
    emit(out, jmp);
    let mut e = with_int(".Lend", local_id);
    crate::text::push_text(&mut e, ":");
    emit(out, e);
    Ok(())
}

fn gen_block(node: &Node, stmts: &Vec<Node>, id: &mut i32, out: &mut Vec<String>) -> (r: Result<(), Halt>)
    requires
        node.kind matches NodeKind::Block(a) && a == *stmts,
    ensures
        gen_follows(old(out)@, final(out)@, *final(id), g_list(nodes_v(stmts@), *old(id) as int), result_view(r)),
    decreases node, 1nat,
{
    let ghost s = nodes_v(stmts@);
    proof {
        lemma_nodes_v_len(stmts@);
    }
    let mut i: usize = 0;
    assert(s.skip(0) =~= s);
    while i < stmts.len()
        invariant
            s == nodes_v(stmts@),
            s.len() == stmts.len(),
            forall|k: int| 0 <= k < stmts.len() ==> #[trigger] s[k] == node_v(stmts@[k]),
            node.kind matches NodeKind::Block(a) && a == *stmts,
            i <= stmts.len(),
            lines_view(old(out)@) + g_list(s, *old(id) as int).lines == lines_view(out@) + g_list(s.skip(i as int), *id as int).lines,
            g_list(s, *old(id) as int).halt == g_list(s.skip(i as int), *id as int).halt,
            g_list(s, *old(id) as int).halt != Some(HaltV::Crash) ==> g_list(s, *old(id) as int).id == g_list(s.skip(i as int), *id as int).id,
        decreases stmts.len() - i,
    {
        reveal(g_list);
        reveal(g_node);
        assert(s.skip(i as int)[0] == s[i as int]);
        assert(s.skip(i as int).drop_first() =~= s.skip(i + 1));
        match gen_checked(&stmts[i], id, out) {
            Ok(()) => {},
            Err(h) => {
                return Err(h);
            },
        }
        i = i + 1;
    }
    reveal(g_list);
    Ok(())
}

fn gen_args(node: &Node, args: &Vec<Node>, id: &mut i32, out: &mut Vec<String>) -> (r: Result<(), Halt>)
    requires
        node.kind matches NodeKind::Fncall(_, a) && a == *args,
    ensures
        gen_follows(old(out)@, final(out)@, *final(id), g_args(nodes_v(args@), 0, *old(id) as int), result_view(r)),
    decreases node, 1nat,
{
    let ghost s = nodes_v(args@);
    proof {
        lemma_nodes_v_len(args@);
    }
    let mut i: usize = 0;
    assert(s.skip(0) =~= s);
    while i < args.len()
        invariant
            s == nodes_v(args@),
            s.len() == args.len(),
            forall|k: int| 0 <= k < args.len() ==> #[trigger] s[k] == node_v(args@[k]),
            node.kind matches NodeKind::Fncall(_, a) && a == *args,
            i <= args.len(),
            lines_view(old(out)@) + g_args(s, 0, *old(id) as int).lines == lines_view(out@) + g_args(s.skip(i as int), i as int, *id as int).lines,
            g_args(s, 0, *old(id) as int).halt == g_args(s.skip(i as int), i as int, *id as int).halt,
            g_args(s, 0, *old(id) as int).halt != Some(HaltV::Crash) ==> g_args(s, 0, *old(id) as int).id == g_args(s.skip(i as int), i as int, *id as int).id,
        decreases args.len() - i,
    {
        reveal(g_args);
        reveal(g_node);
        assert(s.skip(i as int)[0] == s[i as int]);
        assert(s.skip(i as int).drop_first() =~= s.skip(i + 1));
        match gen_checked(&args[i], id, out) {
            Ok(()) => {},
            Err(h) => {
                return Err(h);
            },
        }
        if i >= 6 {
            return Err(Halt::Crash);
        }
        let mut line = joined("  pop ", &text_of(reg_name(i)));
        crate::text::push_text(&mut line, " # set ");
        crate::text::push_i64_text(&mut line, i as i64);
        crate::text::push_text(&mut line, "-th argument");
        emit(out, line);
        i = i + 1;
    }
    reveal(g_args);
    Ok(())
}

/// Stores each parameter from its argument register to its stack slot.
fn gen_params(params: &Vec<Node>, id: i32, out: &mut Vec<String>) -> (r: Result<(), Halt>)
    ensures
        lines_view(final(out)@) == lines_view(old(out)@) + g_params(nodes_v(params@), 0, id as int).lines,
        result_view(r) == g_params(nodes_v(params@), 0, id as int).halt,
{
    let ghost s = nodes_v(params@);
    proof {
        lemma_nodes_v_len(params@);
    }
    let mut i: usize = 0;
    assert(s.skip(0) =~= s);
    while i < params.len()
        invariant
            s == nodes_v(params@),
            s.len() == params.len(),
            forall|k: int| 0 <= k < params.len() ==> #[trigger] s[k] == node_v(params@[k]),
            i <= params.len(),
            lines_view(old(out)@) + g_params(s, 0, id as int).lines == lines_view(out@) + g_params(s.skip(i as int), i as int, id as int).lines,
            g_params(s, 0, id as int).halt == g_params(s.skip(i as int), i as int, id as int).halt,
        decreases params.len() - i,
    {
        assert(s.skip(i as int)[0] == s[i as int]);
        assert(s.skip(i as int).drop_first() =~= s.skip(i + 1));
        match &params[i].kind {
            NodeKind::LVar(lvar) => {
                if i >= 6 {
                    return Err(Halt::Crash);
                }
                let mut line = with_nat("  mov [rbp-", lvar.offset);
                crate::text::push_text(&mut line, "], ");
                crate::text::push_text(&mut line, reg_name(i));
                crate::text::push_text(&mut line, " # push argument");
                emit(out, line);
            },
            _ => {
                return Err(Halt::Exit(text_of("関数の引数が変数ではありません")));
            },
        }
        i = i + 1;
    }
    Ok(())
}

fn gen_fndef(node: &Node, id: &mut i32, out: &mut Vec<String>) -> (r: Result<(), Halt>)
    requires
        node.kind is Fndef,
    ensures
        gen_follows(old(out)@, final(out)@, *final(id), g_node(node@, *old(id) as int), result_view(r)),
    decreases node, 1nat,
{
    reveal(g_node);
    let (func, params) = match &node.kind {
        NodeKind::Fndef(f, p) => (f, p),
        _ => {
            return Err(Halt::Crash);
        },
    };
    emit(out, text_of("  .text"));
    emit(out, joined("  .global ", &func.name));
    let mut label = func.name.clone();
    crate::text::push_text(&mut label, ":");
    emit(out, label);
    emit(out, text_of("  push rbp"));
    emit(out, text_of("  mov rbp, rsp # save base pointer"));
    let mut frame = with_nat("  sub rsp, ", func.stack_size);
    crate::text::push_text(&mut frame, " # make spaces for local variables\n");
    emit(out, frame);
    proof {
        lemma_params_id(nodes_v(params@), 0, *id as int);
    }
    gen_params(params, *id, out)?;
    match &node.rhs {
        Some(body) => {
            gen_checked(body, id, out)?;
        },
        None => {
            return Err(Halt::Crash);
        },
    }
    emit(out, text_of("  pop rax"));
    emit(out, text_of("\n  mov rsp, rbp # restore stack pointer"));
    emit(out, text_of("  pop rbp # discard base pointer"));
    emit(out, text_of("  ret"));
    Ok(())
}

fn gen_binary(node: &Node, id: &mut i32, out: &mut Vec<String>) -> (r: Result<(), Halt>)
    ensures
        gen_follows(old(out)@, final(out)@, *final(id), g_binary(node@, *old(id) as int), result_view(r)),
    decreases node, 1nat,
{
    reveal(g_binary);
    reveal(g_node);
    let l = match &node.lhs {
        Some(l) => l,
        None => {
            return Err(Halt::Crash);
        },
    };
    gen_checked(l, id, out)?;
    let r = match &node.rhs {
        Some(r) => r,
        None => {
            return Err(Halt::Crash);
        },
    };
    gen_checked(r, id, out)?;
    emit(out, text_of("  pop rdi"));
    emit(out, text_of("  pop rax"));
    match &node.kind {
        NodeKind::BinaryOp(op) => {
            if *op == BinaryOpKind::Add || *op == BinaryOpKind::Sub {
                let nk = node.ty.kind;
                if nk == TypeKind::Ptr || nk == TypeKind::Arr {
                    let size = match &node.ty.ptr_to {
                        Some(e) => match type_size_checked(e) {
                            Some(n) => n,
                            None => {
                                return Err(Halt::Crash);
                            },
                        },
                        None => {
                            return Err(Halt::Crash);
                        },
                    };
                    let lk = l.ty.kind;
                    if lk == TypeKind::Ptr || lk == TypeKind::Arr {
                        emit(out, with_nat("  imul rdi, ", size));
                    } else {
                        emit(out, with_nat("  imul rax, ", size));
                    }
                }
                if *op == BinaryOpKind::Add {
                    emit(out, text_of("  add rax, rdi"));
                } else {
                    emit(out, text_of("  sub rax, rdi"));
                }
            } else if *op == BinaryOpKind::Mul {
                emit(out, text_of("  imul rax, rdi"));
            } else {
                emit(out, text_of("  cqo"));
                emit(out, text_of("  idiv rdi"));
            }
        },
        NodeKind::Comparison(op) => {
            emit(out, text_of("  cmp rax, rdi"));
            let set = match op {
                ComparisonOpKind::Eq => "  sete al",
                ComparisonOpKind::Nq => "  setne al",
                ComparisonOpKind::Lt => "  setl al",
                ComparisonOpKind::Le => "  setle al",
                ComparisonOpKind::Gt => "  setg al",
                ComparisonOpKind::Ge => "  setge al",
            };
            emit(out, text_of(set));
            emit(out, text_of("  movzb rax, al"));
        },
        _ => {
            return Err(Halt::Crash);
        },
    }
    emit(out, text_of("  push rax"));
    Ok(())
}

/// The message of an exit, where `h` is one.
fn exit_message(h: Halt) -> (r: String)
    requires
        h is Exit,
    ensures
        halt_view(h) == HaltV::Exit(r@),
{
    match h {
        Halt::Exit(m) => m,
        Halt::Crash => String::new(),
    }
}

/// Appends the code of `node` to `out`, numbering labels from `*id` on; an
/// input that the code generator rejects gives its message.
pub fn gen(node: &Node, id: &mut i32, out: &mut Vec<String>) -> (r: Result<(), String>)
    requires
        g_node(node@, *old(id) as int).halt != Some(HaltV::Crash),
    ensures
        lines_view(final(out)@) =~= lines_view(old(out)@) + g_node(node@, *old(id) as int).lines,
        *final(id) as int == g_node(node@, *old(id) as int).id,
        *final(id) >= *old(id),
        r is Ok ==> *final(id) == *old(id) + labels(node@),
        match r {
            Ok(()) => g_node(node@, *old(id) as int).halt is None,
            Err(m) => g_node(node@, *old(id) as int).halt == Some(HaltV::Exit(m@)),
        },
{
    proof {
        lemma_node_id(node@, *id as int);
        lemma_node_count(node@, *id as int);
    }
    match gen_checked(node, id, out) {
        Ok(()) => Ok(()),
        Err(h) => Err(exit_message(h)),
    }
}

/// Appends the assembly of a whole program to `out`: the syntax directive,
/// then each top-level node, its value popped unless it is a global variable
/// definition or the last. Where the code generator would exit or panic, the
/// result says so.
pub fn gen_program_checked(code: &Vec<Node>, out: &mut Vec<String>) -> (r: Result<(), Halt>)
    ensures
        lines_view(final(out)@) =~= lines_view(old(out)@) + g_program(nodes_v(code@)).lines,
        result_view(r) == g_program(nodes_v(code@)).halt,
{
    emit(out, text_of(".intel_syntax noprefix"));
    let ghost o = lines_view(out@);
    let ghost s = nodes_v(code@);
    proof {
        lemma_nodes_v_len(code@);
    }
    let mut id: i32 = 0;
    let mut i: usize = 0;
    assert(s.skip(0) =~= s);
    while i < code.len()
        invariant
            s == nodes_v(code@),
            s.len() == code.len(),
            forall|k: int| 0 <= k < code.len() ==> #[trigger] s[k] == node_v(code@[k]),
            i <= code.len(),
            o == lines_view(old(out)@).push(".intel_syntax noprefix"@),
            o + g_top(s, 0).lines == lines_view(out@) + g_top(s.skip(i as int), id as int).lines,
            g_top(s, 0).halt == g_top(s.skip(i as int), id as int).halt,
        decreases code.len() - i,
    {
        assert(s.skip(i as int)[0] == s[i as int]);
        assert(s.skip(i as int).drop_first() =~= s.skip(i + 1));
        match gen_checked(&code[i], &mut id, out) {
            Ok(()) => {},
            Err(h) => {
                return Err(h);
            },
        }
        proof {
            lemma_node_view(code@[i as int]);
        }
        let is_def = matches!(code[i].kind, NodeKind::GVarDef(_));
        if !is_def && i + 1 != code.len() {
            emit(out, text_of("  pop rax"));
        }
        i = i + 1;
    }
    Ok(())
}

/// Appends the assembly of a whole program to `out`; an input that the code
/// generator rejects gives its message.
pub fn gen_program(code: &Vec<Node>, out: &mut Vec<String>) -> (r: Result<(), String>)
    requires
        g_program(nodes_v(code@)).halt != Some(HaltV::Crash),
    ensures
        lines_view(final(out)@) =~= lines_view(old(out)@) + g_program(nodes_v(code@)).lines,
        match r {
            Ok(()) => g_program(nodes_v(code@)).halt is None,
            Err(m) => g_program(nodes_v(code@)).halt == Some(HaltV::Exit(m@)),
        },
{
    match gen_program_checked(code, out) {
        Ok(()) => Ok(()),
        Err(h) => Err(exit_message(h)),
    }
}

} // verus!
