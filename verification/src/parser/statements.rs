//! Statements: blocks, `return`, `for`, `while`, `if`, declarations.
use vstd::prelude::*;
use crate::ast::{lemma_nodes_v_push, nodes_v, LVar, Node, NodeKind, NodeKindV};
use crate::grammar::{
    leaf, p_block, p_cond, p_decl, p_expr, p_for, p_for_clause, p_if, p_stmt, p_while, remaining,
    shift,
};
use crate::lexer::TokenKind;
use super::{
    array_of_dims, binary_node, error_text, leaf_node, node_outcome, unary_of, ParseStop, Parser,
};
use crate::text::text_of;

verus! {

impl Parser {

    /// stmt ::= "{" stmt* "}" | "return" expr ";" | "for" ... | "while" ... | "if" ...
    ///        | decl ";" | expr ";"
    #[verifier::rlimit(60)]
    #[verifier::spinoff_prover]
    pub(super) fn stmt(&mut self) -> (r: Result<Node, ParseStop>)
        ensures
            final(self).functions == old(self).functions,
            final(self).tracks(*old(self), p_stmt(old(self).toks(), old(self).position(), old(self).env()), node_outcome(r)),
        decreases remaining(self.tokens@.len(), self.pos as nat), 22nat,
    {
        reveal(p_stmt);
        reveal(p_block);
        reveal(p_expr);
        reveal(p_for);
        reveal(p_while);
        reveal(p_if);
        reveal(p_decl);
        if self.pos >= self.tokens.len() {
            return Err(ParseStop::Crash);
        }
        if self.consume("{") {
            return self.block();
        }
        if self.consume("return") {
            let v = self.expr()?;
            let n = unary_of(NodeKind::Return, v);
            self.expect(";")?;
            return Ok(n);
        }
        if self.consume("for") {
            return self.for_stmt();
        }
        if self.consume("while") {
            return self.while_stmt();
        }
        if self.consume("if") {
            return self.if_stmt();
        }
        if self.peek_is("int") || self.peek_is("char") {
            let n = self.decl()?;
            self.expect(";")?;
            return Ok(n);
        }
        let n = self.expr()?;
        self.expect(";")?;
        Ok(n)
    }

    /// The statements of a block, from after its "{" to after its "}".
    #[verifier::spinoff_prover]
    pub(super) fn block(&mut self) -> (r: Result<Node, ParseStop>)
        ensures
            final(self).functions == old(self).functions,
            final(self).tracks(*old(self), p_block(old(self).toks(), old(self).position(), old(self).env(), seq![]), node_outcome(r)),
        decreases remaining(self.tokens@.len(), self.pos as nat), 23nat,
    {
        reveal(p_block);
        reveal(p_stmt);
        let ghost t = old(self).toks();
        let ghost p0 = old(self).position();
        let ghost e0 = old(self).env();
        let mut stmts: Vec<Node> = Vec::new();
        loop
            invariant
                self.functions == old(self).functions,
                t == old(self).toks(),
                p0 == old(self).position(),
                e0 == old(self).env(),
                self.toks() == t,
                self.tokens@.len() == old(self).tokens@.len(),
                self.position() >= p0,
                p_block(t, p0, e0, seq![]) == shift(
                    (self.position() - p0) as nat,
                    p_block(t, self.position(), self.env(), nodes_v(stmts@)),
                ),
            decreases remaining(t.len(), self.position()),
        {
            reveal(p_block);
            reveal(p_stmt);
            if self.pos >= self.tokens.len() {
                return Err(ParseStop::Crash);
            }
            if self.consume("}") {
                return Ok(leaf_node(NodeKind::Block(stmts)));
            }
            let before = self.pos;
            let n = self.stmt()?;
            if self.pos == before {
                return Err(ParseStop::Crash);
            }
            proof {
                lemma_nodes_v_push(stmts@, n);
            }
            stmts.push(n);
        }
    }

    /// One clause of a `for` header: `expr? op`, a number node when empty.
    #[verifier::spinoff_prover]
    pub(super) fn for_clause(&mut self, op: &str, default: i32) -> (r: Result<Node, ParseStop>)
        ensures
            final(self).functions == old(self).functions,
            final(self).tracks(*old(self), p_for_clause(old(self).toks(), old(self).position(), old(self).env(), op@, leaf(NodeKindV::Num(default))), node_outcome(r)),
        decreases remaining(self.tokens@.len(), self.pos as nat), 21nat,
    {
        reveal(p_for_clause);
        reveal(p_expr);
        if self.pos >= self.tokens.len() {
            return Err(ParseStop::Crash);
        }
        if self.consume(op) {
            return Ok(leaf_node(NodeKind::Num(default)));
        }
        let n = self.expr()?;
        self.expect(op)?;
        Ok(n)
    }

    /// "(" expr? ";" expr? ";" expr? ")" stmt, after "for"
    #[verifier::spinoff_prover]
    pub(super) fn for_stmt(&mut self) -> (r: Result<Node, ParseStop>)
        ensures
            final(self).functions == old(self).functions,
            final(self).tracks(*old(self), p_for(old(self).toks(), old(self).position(), old(self).env()), node_outcome(r)),
        decreases remaining(self.tokens@.len(), self.pos as nat), 1nat,
    {
        reveal(p_for);
        reveal(p_for_clause);
        reveal(p_stmt);
        self.expect("(")?;
        let init = self.for_clause(";", 0)?;
        let cond = self.for_clause(";", 1)?;
        let inc = self.for_clause(")", 0)?;
        let body = self.stmt()?;
        let rrhs = binary_node(NodeKind::For, inc, body);
        let rhs = binary_node(NodeKind::For, cond, rrhs);
        Ok(binary_node(NodeKind::For, init, rhs))
    }

    /// The condition of `while` and `if`: "(" expr ")".
    #[verifier::spinoff_prover]
    pub(super) fn cond(&mut self) -> (r: Result<Node, ParseStop>)
        ensures
            final(self).functions == old(self).functions,
            final(self).tracks(*old(self), p_cond(old(self).toks(), old(self).position(), old(self).env()), node_outcome(r)),
        decreases remaining(self.tokens@.len(), self.pos as nat), 21nat,
    {
        reveal(p_cond);
        reveal(p_expr);
        self.expect("(")?;
        let c = self.expr()?;
        self.expect(")")?;
        Ok(c)
    }

    /// "(" expr ")" stmt, after "while"
    #[verifier::spinoff_prover]
    pub(super) fn while_stmt(&mut self) -> (r: Result<Node, ParseStop>)
        ensures
            final(self).functions == old(self).functions,
            final(self).tracks(*old(self), p_while(old(self).toks(), old(self).position(), old(self).env()), node_outcome(r)),
        decreases remaining(self.tokens@.len(), self.pos as nat), 23nat,
    {
        reveal(p_while);
        reveal(p_cond);
        reveal(p_stmt);
        let ghost t = old(self).toks();
        let ghost p0 = old(self).position();
        let ghost e0 = old(self).env();
        let c = self.cond()?;
        let ghost cs = crate::grammar::p_cond(t, p0, e0);
        assert(cs.out == crate::grammar::Outcome::Done(c@));
        let ghost p1 = self.position();
        let ghost e1 = self.env();
        assert(p1 == p0 + cs.used);
        let body = self.stmt()?;
        let ghost bs = p_stmt(t, p1, e1);
        assert(bs.out == crate::grammar::Outcome::Done(body@));
        assert(p_while(t, p0, e0).out == crate::grammar::Outcome::Done(crate::grammar::binary(NodeKindV::While, c@, body@)));
        Ok(binary_node(NodeKind::While, c, body))
    }

    /// "(" expr ")" stmt ("else" stmt)?, after "if"
    #[verifier::spinoff_prover]
    pub(super) fn if_stmt(&mut self) -> (r: Result<Node, ParseStop>)
        ensures
            final(self).functions == old(self).functions,
            final(self).tracks(*old(self), p_if(old(self).toks(), old(self).position(), old(self).env()), node_outcome(r)),
        decreases remaining(self.tokens@.len(), self.pos as nat), 23nat,
    {
        reveal(p_if);
        reveal(p_cond);
        reveal(p_stmt);
        let c = self.cond()?;
        let then_node = self.stmt()?;
        if self.pos >= self.tokens.len() {
            return Err(ParseStop::Crash);
        }
        if self.consume("else") {
            let else_node = self.stmt()?;
            let rhs = binary_node(NodeKind::Else, then_node, else_node);
            return Ok(binary_node(NodeKind::If, c, rhs));
        }
        Ok(binary_node(NodeKind::If, c, then_node))
    }

    /// decl ::= type ident ("[" num "]")* ("=" expr)?
    #[verifier::spinoff_prover]
    pub(super) fn decl(&mut self) -> (r: Result<Node, ParseStop>)
        ensures
            final(self).functions == old(self).functions,
            final(self).tracks(*old(self), p_decl(old(self).toks(), old(self).position(), old(self).env()), node_outcome(r)),
        decreases remaining(self.tokens@.len(), self.pos as nat), 21nat,
    {
        reveal(p_decl);
        reveal(p_expr);
        let ty = self.ty()?;
        if self.pos >= self.tokens.len() {
            return Err(ParseStop::Crash);
        }
        if self.tokens[self.pos].kind != TokenKind::Ident {
            return Err(error_text(text_of("変数名がありません")));
        }
        let name = self.tokens[self.pos].str.clone();
        self.pos += 1;
        let nums = self.dims()?;
        let ty = array_of_dims(ty, &nums);
        let lvar = self.create_lvar(&name, ty)?;
        if self.pos >= self.tokens.len() {
            return Err(ParseStop::Crash);
        }
        if self.consume("=") {
            let lhs = leaf_node(NodeKind::LVar(lvar));
            let rhs = self.expr()?;
            return Ok(binary_node(NodeKind::Assign, lhs, rhs));
        }
        Ok(leaf_node(NodeKind::LVar(lvar)))
    }

}

} // verus!
