//! A compiler for sums and differences of numbers: `1+2-3` becomes a
//! function `main` that returns the value.
use vstd::prelude::*;
use crate::listing::{after, emit, finished, lines_view, result_view, stopped, Emitted, Halt, HaltV};
use crate::text::{int_text, push_i64_text, text_of};
use crate::tokenizer::{tokens_view, Token, TokenKind, TokenV};

verus! {

pub open spec fn first_not_number_msg() -> Seq<char> {
    "式の最初は数値である必要があります"@
}

pub open spec fn plus_needs_number_msg() -> Seq<char> {
    "''+''の後には数値が必要です"@
}

pub open spec fn minus_needs_number_msg() -> Seq<char> {
    "''-''の後には数値が必要です"@
}

pub open spec fn unexpected_token_msg() -> Seq<char> {
    "予期しないトークンです"@
}

/// The lines for the tokens from `i` on, up to the end-of-input token.
pub open spec fn compile_rest(t: Seq<TokenV>, i: nat) -> Emitted
    decreases t.len() - i,
{
    if i >= t.len() {
        finished(seq!["\tret"@])
    } else {
        let tok = t[i as int];
        if tok.kind == TokenKind::Reserved && (tok.text == "+"@ || tok.text == "-"@) {
            let plus = tok.text == "+"@;
            let missing = if plus { plus_needs_number_msg() } else { minus_needs_number_msg() };
            if i + 1 < t.len() && t[i + 1int].kind == TokenKind::Num {
                match t[i + 1int].val {
                    Some(v) => after(
                        seq![(if plus { "  add rax, "@ } else { "  sub rax, "@ }) + int_text(v as int)],
                        compile_rest(t, i + 2),
                    ),
                    None => stopped(seq![], HaltV::Crash),
                }
            } else {
                stopped(seq![], HaltV::Exit(missing))
            }
        } else if tok.kind == TokenKind::Eof {
            finished(seq!["\tret"@])
        } else {
            stopped(seq![], HaltV::Exit(unexpected_token_msg()))
        }
    }
}

/// The assembly for a token sequence: a number followed by `+ n` and `- n` steps.
pub open spec fn compile_spec(t: Seq<TokenV>) -> Emitted {
    let header = seq![".intel_syntax noprefix"@, ".global main"@, "main:"@];
    if t.len() > 0 && t[0].kind == TokenKind::Num {
        match t[0].val {
            Some(v) => after(header.push("\tmov rax, "@ + int_text(v as int)), compile_rest(t, 1)),
            None => stopped(header, HaltV::Crash),
        }
    } else {
        stopped(header, HaltV::Exit(first_not_number_msg()))
    }
}

/// The instruction for one step `op n`: `+` adds `n` to `rax`, `-`
/// subtracts it.
pub open spec fn step_line(op: Seq<char>, n: i32) -> Seq<char> {
    (if op == "+"@ {
        "  add rax, "@
    } else {
        "  sub rax, "@
    }) + int_text(n as int)
}

/// The `k`-th step of a compiled expression, from token `i` on, is the
/// operator `t[i + 2k]` and the number `t[i + 2k + 1]`, and its line is
/// `step_line` of them.
pub open spec fn step_at(t: Seq<TokenV>, i: int, lines: Seq<Seq<char>>, k: int) -> bool {
    &&& i + 2 * k + 1 < t.len()
    &&& t[i + 2 * k].kind == TokenKind::Reserved
    &&& (t[i + 2 * k].text == "+"@ || t[i + 2 * k].text == "-"@)
    &&& t[i + 2 * k + 1].kind == TokenKind::Num
    &&& t[i + 2 * k + 1].val is Some
    &&& lines[k] == step_line(t[i + 2 * k].text, t[i + 2 * k + 1].val->Some_0)
}

/// Every line of `lines` is the step that the tokens from `i` on give it.
pub open spec fn steps_from(t: Seq<TokenV>, i: int, lines: Seq<Seq<char>>) -> bool {
    forall|k: int| 0 <= k < lines.len() ==> #[trigger] step_at(t, i, lines, k)
}

proof fn lemma_compile_rest_steps(t: Seq<TokenV>, i: nat)
    requires
        compile_rest(t, i).halt is None,
    ensures
        ({
            let r = compile_rest(t, i).lines;
            let m = r.len() - 1;
            &&& r.len() >= 1
            &&& r[m] == "\tret"@
            &&& steps_from(t, i as int, r.take(m))
            &&& (i + 2 * m >= t.len() || t[i + 2 * m].kind == TokenKind::Eof)
        }),
    decreases t.len() - i,
{
    let r = compile_rest(t, i).lines;
    if i >= t.len() {
        assert(r.take(0) =~= Seq::<Seq<char>>::empty());
    } else {
        let tok = t[i as int];
        if tok.kind == TokenKind::Reserved && (tok.text == "+"@ || tok.text == "-"@) {
            lemma_compile_rest_steps(t, i + 2);
            let r2 = compile_rest(t, i + 2).lines;
            let m2 = r2.len() - 1;
            let v = t[i + 1int].val->Some_0;
            let line = (if tok.text == "+"@ { "  add rax, "@ } else { "  sub rax, "@ }) + int_text(v as int);
            assert(r == seq![line] + r2);
            assert(r.take(m2 + 1) =~= seq![line] + r2.take(m2));
            let ii = i as int;
            let lines = r.take(m2 + 1);
            assert forall|k: int| 0 <= k < lines.len() implies #[trigger] step_at(t, ii, lines, k) by {
                if k > 0 {
                    assert(lines[k] == r2.take(m2)[k - 1]);
                    assert((ii + 2) + 2 * (k - 1) == ii + 2 * k);
                    assert(step_at(t, ii + 2, r2.take(m2), k - 1));
                } else {
                    assert(lines[0] == line);
                }
            }
            assert(i + 2 * (m2 + 1) == (i + 2) + 2 * m2);
            assert(r.len() == m2 + 2);
            assert(r[m2 + 1] == r2[m2]);
            assert(steps_from(t, ii, lines));
        } else {
            assert(r.take(0) =~= Seq::<Seq<char>>::empty());
        }
    }
}

/// Law: a compilation that runs to its end writes the header, `mov` of the
/// first number into `rax`, then for each following step `op n` the line that
/// adds `n` for `+` and subtracts it for `-`, whatever the steps before it,
/// and `ret`; the steps run up to the end-of-input token or the end of the
/// tokens.
pub proof fn lemma_compile_lines(t: Seq<TokenV>)
    requires
        compile_spec(t).halt is None,
    ensures
        ({
            let l = compile_spec(t).lines;
            let m = l.len() - 5;
            &&& l.len() >= 5
            &&& l.take(3) == seq![".intel_syntax noprefix"@, ".global main"@, "main:"@]
            &&& t.len() > 0 && t[0].kind == TokenKind::Num && t[0].val is Some
            &&& l[3] == "\tmov rax, "@ + int_text(t[0].val->Some_0 as int)
            &&& steps_from(t, 1, l.subrange(4, 4 + m))
            &&& l[4 + m] == "\tret"@
            &&& (1 + 2 * m >= t.len() || t[1 + 2 * m].kind == TokenKind::Eof)
        }),
{
    lemma_compile_rest_steps(t, 1);
    let l = compile_spec(t).lines;
    let r = compile_rest(t, 1).lines;
    let head = seq![".intel_syntax noprefix"@, ".global main"@, "main:"@, "\tmov rax, "@ + int_text(t[0].val->Some_0 as int)];
    assert(l == head + r);
    let m = l.len() - 5;
    assert(l.take(3) =~= seq![".intel_syntax noprefix"@, ".global main"@, "main:"@]);
    assert(l.subrange(4, 4 + m) =~= r.take(m));
    assert(l[4 + m] == r[m]);
}

fn number_line(prefix: &str, v: i32) -> (s: String)
    ensures
        s@ == prefix@ + int_text(v as int),
{
    let mut s = text_of(prefix);
    push_i64_text(&mut s, v as i64);
    s
}

/// Appends to `out` the assembly for `tokens`; it stops early, as
/// `compile_spec` says, on a token sequence that is not a number followed by
/// `+ n` and `- n` steps.
pub fn compile_checked(tokens: &[Token], out: &mut Vec<String>) -> (r: Result<(), Halt>)
    ensures
        lines_view(final(out)@) == lines_view(old(out)@) + compile_spec(tokens_view(tokens@)).lines,
        result_view(r) == compile_spec(tokens_view(tokens@)).halt,
{
    let ghost t = tokens_view(tokens@);
    let ghost start = lines_view(out@);
    emit(out, text_of(".intel_syntax noprefix"));
    emit(out, text_of(".global main"));
    emit(out, text_of("main:"));
    let ghost header = seq![".intel_syntax noprefix"@, ".global main"@, "main:"@];
    assert(lines_view(out@) =~= start + header);
    if tokens.len() == 0 || tokens[0].kind != TokenKind::Num {
        return Err(Halt::Exit(text_of("式の最初は数値である必要があります")));
    }
    let v = match tokens[0].val {
        Some(v) => v,
        None => {
            return Err(Halt::Crash);
        },
    };
    emit(out, number_line("\tmov rax, ", v));
    assert(lines_view(out@) =~= start + header.push("\tmov rax, "@ + int_text(v as int)));
    let mut i: usize = 1;
    while i < tokens.len()
        invariant
            t == tokens_view(tokens@),
            start == lines_view(old(out)@),
            1 <= i <= tokens.len() + 1,
            start + compile_spec(t).lines == lines_view(out@) + compile_rest(t, i as nat).lines,
            compile_spec(t).halt == compile_rest(t, i as nat).halt,
        decreases tokens.len() - i,
    {
        let ghost before = lines_view(out@);
        let tok = &tokens[i];
        let is_plus = tok.str == text_of("+");
        let is_minus = tok.str == text_of("-");
        if tok.kind == TokenKind::Reserved && (is_plus || is_minus) {
            if i + 1 < tokens.len() && tokens[i + 1].kind == TokenKind::Num {
                match tokens[i + 1].val {
                    Some(v) => {
                        let line = if is_plus {
                            number_line("  add rax, ", v)
                        } else {
                            number_line("  sub rax, ", v)
                        };
                        emit(out, line);
                        assert(before + compile_rest(t, i as nat).lines =~= lines_view(out@)
                            + compile_rest(t, (i + 2) as nat).lines);
                        i = i + 2;
                    },
                    None => {
                        assert(lines_view(out@) =~= before + compile_rest(t, i as nat).lines);
                        return Err(Halt::Crash);
                    },
                }
            } else {
                assert(lines_view(out@) =~= before + compile_rest(t, i as nat).lines);
                if is_plus {
                    return Err(Halt::Exit(text_of("''+''の後には数値が必要です")));
                } else {
                    return Err(Halt::Exit(text_of("''-''の後には数値が必要です")));
                }
            }
        } else if tok.kind == TokenKind::Eof {
            emit(out, text_of("\tret"));
            assert(lines_view(out@) =~= before + compile_rest(t, i as nat).lines);
            return Ok(());
        } else {
            assert(lines_view(out@) =~= before + compile_rest(t, i as nat).lines);
            return Err(Halt::Exit(text_of("予期しないトークンです")));
        }
    }
    let ghost before = lines_view(out@);
    emit(out, text_of("\tret"));
    assert(lines_view(out@) =~= before + compile_rest(t, i as nat).lines);
    Ok(())
}

/// Appends to `out` the assembly for `tokens`, a number followed by `+ n` and
/// `- n` steps; any other sequence is an error with its message.
pub fn compile(tokens: &[Token], out: &mut Vec<String>) -> (r: Result<(), String>)
    requires
        compile_spec(tokens_view(tokens@)).halt != Some(HaltV::Crash),
    ensures
        lines_view(final(out)@) == lines_view(old(out)@) + compile_spec(tokens_view(tokens@)).lines,
        match compile_spec(tokens_view(tokens@)).halt {
            None => r is Ok,
            Some(HaltV::Exit(m)) => r matches Err(e) && e@ == m,
            Some(HaltV::Crash) => false,
        },
{
    match compile_checked(tokens, out) {
        Ok(()) => Ok(()),
        Err(Halt::Exit(m)) => Err(m),
        Err(Halt::Crash) => {
            assert(false);
            Err(String::new())
        },
    }
}

} // verus!
