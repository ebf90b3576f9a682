//! Expressions, from assignment down to primary expressions.
use vstd::prelude::*;
use crate::ast::{
    lemma_nodes_v_push, new_int_type, nodes_v, BinaryOpKind, ComparisonOpKind, Function, GVar,
    LVar, Node, NodeKind, NodeKindV, NodeV, TypeKind, UnaryOpKind,
};
use crate::grammar::{
    callee, ok, unary_node, Outcome, lookup_gvar, lookup_lvar, p_add, p_add_tail, p_arglist,
    p_args_tail, p_assign, p_equality, p_equality_tail, p_expr, p_index, p_mul, p_mul_tail,
    p_primary, p_relational, p_relational_tail, p_unary, remaining, shift,
};
use crate::lexer::TokenKind;
use super::{
    binary_node, error_text, find_function_index, find_gvar_index, find_lvar_index, leaf_node,
    node_outcome, nodes_outcome, opt_gvar_view, opt_lvar_view, unary_of, wrapped_message,
    ParseStop, Parser,
};

verus! {

impl Parser {
    /// expr ::= assign
    #[verifier::spinoff_prover]
    pub(super) fn expr(&mut self) -> (r: Result<Node, ParseStop>)
        ensures
            final(self).functions == old(self).functions,
            final(self).tracks(*old(self), p_expr(old(self).toks(), old(self).position(), old(self).env()), node_outcome(r)),
        decreases remaining(self.tokens@.len(), self.pos as nat), 20nat,
    {
        reveal(p_expr);
        reveal(p_assign);
        self.assign()
    }

    /// assign ::= equality ("=" assign)?
    #[verifier::spinoff_prover]
    pub(super) fn assign(&mut self) -> (r: Result<Node, ParseStop>)
        ensures
            final(self).functions == old(self).functions,
            final(self).tracks(*old(self), p_assign(old(self).toks(), old(self).position(), old(self).env()), node_outcome(r)),
        decreases remaining(self.tokens@.len(), self.pos as nat), 19nat,
    {
        reveal(p_assign);
        reveal(p_equality);
        let node = self.equality()?;
        if self.pos >= self.tokens.len() {
            return Err(ParseStop::Crash);
        }
        if self.consume("=") {
            let rhs = self.assign()?;
            return Ok(binary_node(NodeKind::Assign, node, rhs));
        }
        Ok(node)
    }

    /// equality ::= relational ("==" relational | "!=" relational)*
    #[verifier::spinoff_prover]
    pub(super) fn equality(&mut self) -> (r: Result<Node, ParseStop>)
        ensures
            final(self).functions == old(self).functions,
            final(self).tracks(*old(self), p_equality(old(self).toks(), old(self).position(), old(self).env()), node_outcome(r)),
        decreases remaining(self.tokens@.len(), self.pos as nat), 18nat,
    {
        reveal(p_equality);
        reveal(p_equality_tail);
        reveal(p_relational);
        let ghost t = old(self).toks();
        let ghost p0 = old(self).position();
        let ghost e0 = old(self).env();
        let mut node = self.relational()?;
        loop
            invariant
                self.functions == old(self).functions,
                t == old(self).toks(),
                p0 == old(self).position(),
                e0 == old(self).env(),
                self.toks() == t,
                self.tokens@.len() == old(self).tokens@.len(),
                self.position() >= p0,
                p_equality(t, p0, e0) == shift(
                    (self.position() - p0) as nat,
                    p_equality_tail(t, self.position(), self.env(), node@),
                ),
            decreases remaining(t.len(), self.position()),
        {
            reveal(p_equality_tail);
            reveal(p_relational);
            if self.pos >= self.tokens.len() {
                return Err(ParseStop::Crash);
            }
            if self.consume("==") {
                let rhs = self.relational()?;
                node = binary_node(NodeKind::Comparison(ComparisonOpKind::Eq), node, rhs);
            } else if self.consume("!=") {
                let rhs = self.relational()?;
                node = binary_node(NodeKind::Comparison(ComparisonOpKind::Nq), node, rhs);
            } else {
                return Ok(node);
            }
        }
    }

    /// relational ::= add ("<" add | "<=" add | ">" add | ">=" add)*
    #[verifier::spinoff_prover]
    pub(super) fn relational(&mut self) -> (r: Result<Node, ParseStop>)
        ensures
            final(self).functions == old(self).functions,
            final(self).tracks(*old(self), p_relational(old(self).toks(), old(self).position(), old(self).env()), node_outcome(r)),
        decreases remaining(self.tokens@.len(), self.pos as nat), 16nat,
    {
        reveal(p_relational);
        reveal(p_relational_tail);
        reveal(p_add);
        let ghost t = old(self).toks();
        let ghost p0 = old(self).position();
        let ghost e0 = old(self).env();
        let mut node = self.add()?;
        loop
            invariant
                self.functions == old(self).functions,
                t == old(self).toks(),
                p0 == old(self).position(),
                e0 == old(self).env(),
                self.toks() == t,
                self.tokens@.len() == old(self).tokens@.len(),
                self.position() >= p0,
                p_relational(t, p0, e0) == shift(
                    (self.position() - p0) as nat,
                    p_relational_tail(t, self.position(), self.env(), node@),
                ),
            decreases remaining(t.len(), self.position()),
        {
            reveal(p_relational_tail);
            reveal(p_add);
            if self.pos >= self.tokens.len() {
                return Err(ParseStop::Crash);
            }
            if self.consume("<") {
                let rhs = self.add()?;
                node = binary_node(NodeKind::Comparison(ComparisonOpKind::Lt), node, rhs);
            } else if self.consume("<=") {
                let rhs = self.add()?;
                node = binary_node(NodeKind::Comparison(ComparisonOpKind::Le), node, rhs);
            } else if self.consume(">") {
                let rhs = self.add()?;
                node = binary_node(NodeKind::Comparison(ComparisonOpKind::Gt), node, rhs);
            } else if self.consume(">=") {
                let rhs = self.add()?;
                node = binary_node(NodeKind::Comparison(ComparisonOpKind::Ge), node, rhs);
            } else {
                return Ok(node);
            }
        }
    }

    /// add ::= mul ("+" mul | "-" mul)*
    #[verifier::spinoff_prover]
    pub(super) fn add(&mut self) -> (r: Result<Node, ParseStop>)
        ensures
            final(self).functions == old(self).functions,
            final(self).tracks(*old(self), p_add(old(self).toks(), old(self).position(), old(self).env()), node_outcome(r)),
        decreases remaining(self.tokens@.len(), self.pos as nat), 14nat,
    {
        reveal(p_add);
        reveal(p_add_tail);
        reveal(p_mul);
        let ghost t = old(self).toks();
        let ghost p0 = old(self).position();
        let ghost e0 = old(self).env();
        let mut node = self.mul()?;
        loop
            invariant
                self.functions == old(self).functions,
                t == old(self).toks(),
                p0 == old(self).position(),
                e0 == old(self).env(),
                self.toks() == t,
                self.tokens@.len() == old(self).tokens@.len(),
                self.position() >= p0,
                p_add(t, p0, e0) == shift(
                    (self.position() - p0) as nat,
                    p_add_tail(t, self.position(), self.env(), node@),
                ),
            decreases remaining(t.len(), self.position()),
        {
            reveal(p_add_tail);
            reveal(p_mul);
            if self.pos >= self.tokens.len() {
                return Err(ParseStop::Crash);
            }
            if self.consume("+") {
                let rhs = self.mul()?;
                node = binary_node(NodeKind::BinaryOp(BinaryOpKind::Add), node, rhs);
            } else if self.consume("-") {
                let rhs = self.mul()?;
                node = binary_node(NodeKind::BinaryOp(BinaryOpKind::Sub), node, rhs);
            } else {
                return Ok(node);
            }
        }
    }

    /// mul ::= unary ("*" unary | "/" unary)*
    #[verifier::spinoff_prover]
    pub(super) fn mul(&mut self) -> (r: Result<Node, ParseStop>)
        ensures
            final(self).functions == old(self).functions,
            final(self).tracks(*old(self), p_mul(old(self).toks(), old(self).position(), old(self).env()), node_outcome(r)),
        decreases remaining(self.tokens@.len(), self.pos as nat), 12nat,
    {
        reveal(p_mul);
        reveal(p_mul_tail);
        reveal(p_unary);
        let ghost t = old(self).toks();
        let ghost p0 = old(self).position();
        let ghost e0 = old(self).env();
        let mut node = self.unary()?;
        loop
            invariant
                self.functions == old(self).functions,
                t == old(self).toks(),
                p0 == old(self).position(),
                e0 == old(self).env(),
                self.toks() == t,
                self.tokens@.len() == old(self).tokens@.len(),
                self.position() >= p0,
                p_mul(t, p0, e0) == shift(
                    (self.position() - p0) as nat,
                    p_mul_tail(t, self.position(), self.env(), node@),
                ),
            decreases remaining(t.len(), self.position()),
        {
            reveal(p_mul_tail);
            reveal(p_unary);
            if self.pos >= self.tokens.len() {
                return Err(ParseStop::Crash);
            }
            if self.consume("*") {
                let rhs = self.unary()?;
                node = binary_node(NodeKind::BinaryOp(BinaryOpKind::Mul), node, rhs);
            } else if self.consume("/") {
                let rhs = self.unary()?;
                node = binary_node(NodeKind::BinaryOp(BinaryOpKind::Div), node, rhs);
            } else {
                return Ok(node);
            }
        }
    }

    /// unary ::= "sizeof" unary | ("+" | "-")? primary | ("*" | "&") unary
    #[verifier::spinoff_prover]
    pub(super) fn unary(&mut self) -> (r: Result<Node, ParseStop>)
        ensures
            final(self).functions == old(self).functions,
            final(self).tracks(*old(self), p_unary(old(self).toks(), old(self).position(), old(self).env()), node_outcome(r)),
        decreases remaining(self.tokens@.len(), self.pos as nat), 10nat,
    {
        reveal(p_unary);
        reveal(p_primary);
        if self.pos >= self.tokens.len() {
            return Err(ParseStop::Crash);
        }
        if self.consume("+") {
            return self.primary();
        } else if self.consume("-") {
            let lhs = leaf_node(NodeKind::Num(0));
            let rhs = self.primary()?;
            return Ok(binary_node(NodeKind::BinaryOp(BinaryOpKind::Sub), lhs, rhs));
        } else if self.consume("&") {
            let l = self.unary()?;
            return Ok(unary_of(NodeKind::UnaryOp(UnaryOpKind::Ref), l));
        } else if self.consume("*") {
            let l = self.unary()?;
            return Ok(unary_of(NodeKind::UnaryOp(UnaryOpKind::Deref), l));
        } else if self.consume("sizeof") {
            let node = self.unary()?;
            if node.ty.kind == TypeKind::Int {
                return Ok(leaf_node(NodeKind::Num(4)));
            } else {
                return Ok(leaf_node(NodeKind::Num(8)));
            }
        } else {
            return self.primary();
        }
    }

    /// primary ::= num | ident ("(" arglist? ")")? | ident ("[" expr "]")+ | "(" expr ")"
    #[verifier::spinoff_prover]
    pub(super) fn primary(&mut self) -> (r: Result<Node, ParseStop>)
        ensures
            final(self).functions == old(self).functions,
            final(self).tracks(*old(self), p_primary(old(self).toks(), old(self).position(), old(self).env()), node_outcome(r)),
        decreases remaining(self.tokens@.len(), self.pos as nat), 9nat,
    {
        reveal(p_primary);
        reveal(p_index);
        reveal(p_expr);
        reveal(p_arglist);
        if self.pos >= self.tokens.len() {
            return Err(ParseStop::Crash);
        }
        if self.consume("(") {
            let node = self.expr()?;
            self.expect(")")?;
            return Ok(node);
        }
        if self.tokens[self.pos].kind != TokenKind::Ident {
            let v = self.expect_number()?;
            return Ok(leaf_node(NodeKind::Num(v)));
        }
        if self.fn_idx >= self.locals.len() {
            return Err(ParseStop::Crash);
        }
        let name = self.tokens[self.pos].str.clone();
        let ghost tab = self.env().locals[self.fn_idx as int];
        let lvar: Option<LVar> = match find_lvar_index(&self.locals[self.fn_idx], &name) {
            Some(i) => Some(self.locals[self.fn_idx][i].clone()),
            None => None,
        };
        let gvar: Option<GVar> = match find_gvar_index(&self.globals, &name) {
            Some(i) => Some(self.globals[i].clone()),
            None => None,
        };
        let func: Function = match find_function_index(&self.functions, &name) {
            Some(i) => self.functions[i].clone(),
            None => Function { name: name.clone(), stack_size: 0, ty: new_int_type() },
        };
        assert(opt_lvar_view(lvar) == lookup_lvar(tab, name@));
        assert(opt_gvar_view(gvar) == lookup_gvar(self.env().globals, name@));
        assert(func@ == callee(self.env().functions, name@));
        self.pos += 1;
        if self.pos >= self.tokens.len() {
            return Err(ParseStop::Crash);
        }
        if self.consume("(") {
            if self.pos >= self.tokens.len() {
                return Err(ParseStop::Crash);
            }
            if self.consume(")") {
                let args: Vec<Node> = Vec::new();
                assert(nodes_v(args@) =~= Seq::<NodeV>::empty());
                return Ok(leaf_node(NodeKind::Fncall(func, args)));
            }
            let args = self.arglist()?;
            return Ok(leaf_node(NodeKind::Fncall(func, args)));
        }
        if self.consume("[") {
            let mut node = match lvar {
                Some(v) => leaf_node(NodeKind::LVar(v)),
                None => match gvar {
                    Some(g) => leaf_node(NodeKind::GVar(g)),
                    None => {
                        return Err(error_text(wrapped_message("変数 '", &name, "' が見つかりません")));
                    },
                },
            };
            let ghost t = old(self).toks();
            let ghost q1 = self.position();
            let ghost e1 = self.env();
            let ghost base = node@;
            loop
                invariant
                    self.functions == old(self).functions,
                    t == old(self).toks(),
                    self.toks() == t,
                    self.tokens@.len() == old(self).tokens@.len(),
                    q1 == old(self).position() + 2,
                    old(self).pos < old(self).tokens.len(),
                    p_primary(t, old(self).position(), e1) == (match p_index(t, q1, e1, base).out {
                        Outcome::Done(n) => ok(
                            2 + p_index(t, q1, e1, base).used,
                            p_index(t, q1, e1, base).env,
                            unary_node(NodeKindV::UnaryOp(UnaryOpKind::Deref), n),
                        ),
                        _ => shift(2, p_index(t, q1, e1, base)),
                    }),
                    e1 == old(self).env(),
                    self.position() >= q1,
                    p_index(t, q1, e1, base) == shift(
                        (self.position() - q1) as nat,
                        p_index(t, self.position(), self.env(), node@),
                    ),
                decreases remaining(t.len(), self.position()),
            {
                reveal(p_index);
                reveal(p_expr);
                let ix = self.expr()?;
                self.expect("]")?;
                node = binary_node(NodeKind::BinaryOp(BinaryOpKind::Add), node, ix);
                if self.pos >= self.tokens.len() {
                    return Err(ParseStop::Crash);
                }
                if !self.consume("[") {
                    return Ok(unary_of(NodeKind::UnaryOp(UnaryOpKind::Deref), node));
                }
            }
        }
        match lvar {
            Some(v) => Ok(leaf_node(NodeKind::LVar(v))),
            None => match gvar {
                Some(g) => Ok(leaf_node(NodeKind::GVar(g))),
                None => Err(error_text(wrapped_message("変数 '", &name, "' が見つかりません"))),
            },
        }
    }

    /// arglist ::= expr ("," expr)* ")"
    #[verifier::spinoff_prover]
    pub(super) fn arglist(&mut self) -> (r: Result<Vec<Node>, ParseStop>)
        ensures
            final(self).functions == old(self).functions,
            final(self).tracks(*old(self), p_arglist(old(self).toks(), old(self).position(), old(self).env()), nodes_outcome(r)),
        decreases remaining(self.tokens@.len(), self.pos as nat), 21nat,
    {
        reveal(p_arglist);
        reveal(p_args_tail);
        reveal(p_expr);
        let ghost t = old(self).toks();
        let ghost p0 = old(self).position();
        let ghost e0 = old(self).env();
        let mut args: Vec<Node> = Vec::new();
        let a = self.expr()?;
        proof {
            lemma_nodes_v_push(args@, a);
        }
        args.push(a);
        assert(nodes_v(args@) =~= seq![a@]);
        loop
            invariant
                self.functions == old(self).functions,
                t == old(self).toks(),
                p0 == old(self).position(),
                e0 == old(self).env(),
                self.toks() == t,
                self.tokens@.len() == old(self).tokens@.len(),
                self.position() >= p0,
                p_arglist(t, p0, e0) == shift(
                    (self.position() - p0) as nat,
                    p_args_tail(t, self.position(), self.env(), nodes_v(args@)),
                ),
            decreases remaining(t.len(), self.position()),
        {
            reveal(p_args_tail);
            reveal(p_expr);
            if self.pos >= self.tokens.len() {
                return Err(ParseStop::Crash);
            }
            if self.consume(",") {
                let a = self.expr()?;
                proof {
                    lemma_nodes_v_push(args@, a);
                }
                args.push(a);
            } else {
                self.expect(")")?;
                return Ok(args);
            }
        }
    }
}

} // verus!
