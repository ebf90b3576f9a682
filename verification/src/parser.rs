//! The recursive-descent parser: from tokens to a list of function
//! definitions and global variable definitions.
use vstd::prelude::*;
use crate::ast::{
    create_new_node, kind_v, lemma_nodes_v_push, new_int_type, node_v, nodes_v, mk_node, Function,
    FunctionV, GVar, GVarV, LVar, LVarV, Node, NodeKind, NodeV, Type, TypeKind,
};
use crate::grammar::{
    distinct_functions, lemma_first_named, lemma_insert_gvar_twice, p_function, p_items, p_program,
    array_of, declare_local, element_count, expected_msg, first_named, function_names, grown_stack,
    gvar_names, insert_gvar, insert_lvar, lvar_names, p_base_type, p_dims, p_expect,
    p_expect_number, p_fn_params, p_global_decl, p_params, p_stars, p_ty, remaining, shift, Env,
    Outcome, Step,
};
use crate::lexer::{tokens_view, Token, TokenKind, TokenV};
use crate::text::{push_text, text_of};

mod expressions;
mod statements;

verus! {

/// Why parsing stopped.
pub enum ParseStop {
    /// A syntax error, with its message.
    Error(String),
    /// The parser prints this message and exits the process with status 1.
    Exit(String),
    /// Parsing panics here: it reads past the last token, overflows, or
    /// finds a number token without a value.
    Crash,
}

pub struct Parser {
    tokens: Vec<Token>,
    pos: usize,
    fn_idx: usize,
    /// One table of local variables per function, in order of definition.
    pub locals: Vec<Vec<LVar>>,
    pub globals: Vec<GVar>,
    pub functions: Vec<Function>,
    stack_size: usize,
}

pub open spec fn lvars_view(s: Seq<LVar>) -> Seq<LVarV> {
    s.map_values(|v: LVar| v@)
}

pub open spec fn locals_view(s: Seq<Vec<LVar>>) -> Seq<Seq<LVarV>> {
    s.map_values(|t: Vec<LVar>| lvars_view(t@))
}

pub open spec fn gvars_view(s: Seq<GVar>) -> Seq<GVarV> {
    s.map_values(|v: GVar| v@)
}

pub open spec fn functions_view(s: Seq<Function>) -> Seq<FunctionV> {
    s.map_values(|f: Function| f@)
}

/// The tables of a parser that has seen no definition.
pub open spec fn initial_env() -> Env {
    Env { fn_idx: 0, locals: seq![], globals: seq![], functions: seq![], stack_size: 8 }
}

pub open spec fn stop_outcome<T>(s: ParseStop) -> Outcome<T> {
    match s {
        ParseStop::Error(m) => Outcome::Fail(m@),
        ParseStop::Exit(m) => Outcome::Exit(m@),
        ParseStop::Crash => Outcome::Crash,
    }
}

pub open spec fn node_outcome(r: Result<Node, ParseStop>) -> Outcome<NodeV> {
    match r {
        Ok(n) => Outcome::Done(node_v(n)),
        Err(s) => stop_outcome(s),
    }
}

pub open spec fn nodes_outcome(r: Result<Vec<Node>, ParseStop>) -> Outcome<Seq<NodeV>> {
    match r {
        Ok(v) => Outcome::Done(nodes_v(v@)),
        Err(s) => stop_outcome(s),
    }
}

pub open spec fn type_outcome(r: Result<Type, ParseStop>) -> Outcome<Type> {
    match r {
        Ok(t) => Outcome::Done(t),
        Err(s) => stop_outcome(s),
    }
}

pub open spec fn unit_outcome(r: Result<(), ParseStop>) -> Outcome<()> {
    match r {
        Ok(_) => Outcome::Done(()),
        Err(s) => stop_outcome(s),
    }
}

pub open spec fn num_outcome(r: Result<i32, ParseStop>) -> Outcome<i32> {
    match r {
        Ok(v) => Outcome::Done(v),
        Err(s) => stop_outcome(s),
    }
}

pub open spec fn nums_outcome(r: Result<Vec<i32>, ParseStop>) -> Outcome<Seq<i32>> {
    match r {
        Ok(v) => Outcome::Done(v@),
        Err(s) => stop_outcome(s),
    }
}

pub(crate) fn error_text(msg: String) -> (r: ParseStop)
    ensures
        r == ParseStop::Error(msg),
{
    ParseStop::Error(msg)
}

fn expected_message(op: &str, found: &String) -> (r: String)
    ensures
        r@ == expected_msg(op@, found@),
{
    let mut s = text_of("'");
    push_text(&mut s, op);
    push_text(&mut s, "'が期待されますが、'");
    push_text(&mut s, found.as_str());
    push_text(&mut s, "'でした");
    s
}

pub(crate) fn wrapped_message(head: &str, name: &String, tail: &str) -> (r: String)
    ensures
        r@ == head@ + name@ + tail@,
{
    crate::text::framed(head, name, tail)
}

/// The index of the first local named `key` in `tab`.
pub(crate) fn find_lvar_index(tab: &Vec<LVar>, key: &String) -> (r: Option<usize>)
    ensures
        match r {
            Some(i) => i < tab.len() && first_named(lvar_names(lvars_view(tab@)), key@, 0) == i,
            None => first_named(lvar_names(lvars_view(tab@)), key@, 0) == -1,
        },
{
    let ghost names = lvar_names(lvars_view(tab@));
    let mut k: usize = 0;
    while k < tab.len()
        invariant
            k <= tab.len(),
            names == lvar_names(lvars_view(tab@)),
            names.len() == tab.len(),
            first_named(names, key@, 0) == first_named(names, key@, k as nat),
        decreases tab.len() - k,
    {
        assert(names[k as int] == tab@[k as int].name@);
        if tab[k].name == *key {
            return Some(k);
        }
        k = k + 1;
    }
    None
}

pub(crate) fn find_gvar_index(tab: &Vec<GVar>, key: &String) -> (r: Option<usize>)
    ensures
        match r {
            Some(i) => i < tab.len() && first_named(gvar_names(gvars_view(tab@)), key@, 0) == i,
            None => first_named(gvar_names(gvars_view(tab@)), key@, 0) == -1,
        },
{
    let ghost names = gvar_names(gvars_view(tab@));
    let mut k: usize = 0;
    while k < tab.len()
        invariant
            k <= tab.len(),
            names == gvar_names(gvars_view(tab@)),
            names.len() == tab.len(),
            first_named(names, key@, 0) == first_named(names, key@, k as nat),
        decreases tab.len() - k,
    {
        assert(names[k as int] == tab@[k as int].name@);
        if tab[k].name == *key {
            return Some(k);
        }
        k = k + 1;
    }
    None
}

pub(crate) fn find_function_index(tab: &Vec<Function>, key: &String) -> (r: Option<usize>)
    ensures
        match r {
            Some(i) => i < tab.len() && first_named(function_names(functions_view(tab@)), key@, 0) == i,
            None => first_named(function_names(functions_view(tab@)), key@, 0) == -1,
        },
{
    let ghost names = function_names(functions_view(tab@));
    let mut k: usize = 0;
    while k < tab.len()
        invariant
            k <= tab.len(),
            names == function_names(functions_view(tab@)),
            names.len() == tab.len(),
            first_named(names, key@, 0) == first_named(names, key@, k as nat),
        decreases tab.len() - k,
    {
        assert(names[k as int] == tab@[k as int].name@);
        if tab[k].name == *key {
            return Some(k);
        }
        k = k + 1;
    }
    None
}

/// Binds `v` in `tab`, replacing an entry of the same name.
fn insert_lvar_into(tab: &mut Vec<LVar>, v: LVar)
    ensures
        lvars_view(final(tab)@) == insert_lvar(lvars_view(old(tab)@), v@),
{
    match find_lvar_index(tab, &v.name) {
        Some(i) => {
            let ghost vv = v@;
            tab.set(i, v);
            assert(lvars_view(tab@) =~= lvars_view(old(tab)@).update(i as int, vv));
        },
        None => {
            let ghost vv = v@;
            tab.push(v);
            assert(lvars_view(tab@) =~= lvars_view(old(tab)@).push(vv));
        },
    }
}

fn insert_gvar_into(tab: &mut Vec<GVar>, v: GVar)
    ensures
        gvars_view(final(tab)@) == insert_gvar(gvars_view(old(tab)@), v@),
{
    match find_gvar_index(tab, &v.name) {
        Some(i) => {
            let ghost vv = v@;
            tab.set(i, v);
            assert(gvars_view(tab@) =~= gvars_view(old(tab)@).update(i as int, vv));
        },
        None => {
            let ghost vv = v@;
            tab.push(v);
            assert(gvars_view(tab@) =~= gvars_view(old(tab)@).push(vv));
        },
    }
}

impl Parser {
    /// The tokens, as values.
    pub closed spec fn toks(&self) -> Seq<TokenV> {
        tokens_view(self.tokens@)
    }

    /// The position of the next token.
    pub closed spec fn position(&self) -> nat {
        self.pos as nat
    }

    /// The symbol tables and stack bookkeeping.
    pub closed spec fn env(&self) -> Env {
        Env {
            fn_idx: self.fn_idx as nat,
            locals: locals_view(self.locals@),
            globals: gvars_view(self.globals@),
            functions: functions_view(self.functions@),
            stack_size: self.stack_size as nat,
        }
    }

    /// The local variable tables, one per function: `env().locals`.
    pub fn local_tables(&self) -> (r: &Vec<Vec<LVar>>)
        ensures
            locals_view(r@) == self.env().locals,
    {
        &self.locals
    }

    /// The global variable table: `env().globals`.
    pub fn global_table(&self) -> (r: &Vec<GVar>)
        ensures
            gvars_view(r@) == self.env().globals,
    {
        &self.globals
    }

    /// The function table: `env().functions`.
    pub fn function_table(&self) -> (r: &Vec<Function>)
        ensures
            functions_view(r@) == self.env().functions,
    {
        &self.functions
    }

    /// `self` is where `prev` goes by step `s`, and `o` is the outcome of `s`.
    pub open spec fn tracks<T>(self, prev: Parser, s: Step<T>, o: Outcome<T>) -> bool {
        &&& o == s.out
        &&& self.toks() == prev.toks()
        &&& !(s.out is Crash) ==> self.position() == prev.position() + s.used && self.env() == s.env
    }

    /// A parser at the first of `tokens`, with empty tables.
    pub fn new(tokens: Vec<Token>) -> (p: Self)
        ensures
            p.toks() == tokens_view(tokens@),
            p.position() == 0,
            p.env() == initial_env(),
            distinct_functions(p.env().functions),
    {
        let p = Parser {
            tokens,
            pos: 0,
            fn_idx: 0,
            locals: Vec::new(),
            globals: Vec::new(),
            functions: Vec::new(),
            stack_size: 8,
        };
        assert(p.env().locals =~= Seq::<Seq<LVarV>>::empty());
        assert(p.env().globals =~= Seq::<GVarV>::empty());
        assert(p.env().functions =~= Seq::<FunctionV>::empty());
        proof {
            reveal(distinct_functions);
        }
        p
    }

    /// Whether the next token reads `op`.
    fn peek_is(&self, op: &str) -> (r: bool)
        requires
            self.pos < self.tokens.len(),
        ensures
            r == (self.toks()[self.position() as int].text == op@),
    {
        self.tokens[self.pos].str == text_of(op)
    }

    /// Moves past the next token if it reads `op`.
    fn consume(&mut self, op: &str) -> (r: bool)
        requires
            old(self).pos < old(self).tokens.len(),
        ensures
            final(self).functions == old(self).functions,
            r == (old(self).toks()[old(self).position() as int].text == op@),
            final(self).toks() == old(self).toks(),
            final(self).env() == old(self).env(),
            final(self).position() == old(self).position() + if r { 1nat } else { 0nat },
            final(self).pos <= final(self).tokens.len(),
    {
        if self.tokens[self.pos].str != text_of(op) {
            return false;
        }
        self.pos += 1;
        true
    }

    fn expect(&mut self, op: &str) -> (r: Result<(), ParseStop>)
        ensures
            final(self).functions == old(self).functions,
            final(self).tracks(*old(self), p_expect(old(self).toks(), old(self).position(), old(self).env(), op@), unit_outcome(r)),
    {
        if self.pos >= self.tokens.len() {
            return Err(ParseStop::Crash);
        }
        if !self.consume(op) {
            return Err(error_text(expected_message(op, &self.tokens[self.pos].str)));
        }
        Ok(())
    }

    fn expect_number(&mut self) -> (r: Result<i32, ParseStop>)
        ensures
            final(self).functions == old(self).functions,
            final(self).tracks(*old(self), p_expect_number(old(self).toks(), old(self).position(), old(self).env()), num_outcome(r)),
    {
        if self.pos >= self.tokens.len() {
            return Err(ParseStop::Crash);
        }
        if self.tokens[self.pos].kind != TokenKind::Num {
            let found = &self.tokens[self.pos].str;
            return Err(error_text(wrapped_message("数が期待されますが、'", found, "'でした")));
        }
        let val = match self.tokens[self.pos].val {
            Some(v) => v,
            None => {
                return Err(ParseStop::Crash);
            },
        };
        self.pos += 1;
        Ok(val)
    }

    fn at_eof(&self) -> (r: bool)
        requires
            self.pos < self.tokens.len(),
        ensures
            r == (self.toks()[self.position() as int].kind == TokenKind::Eof),
    {
        self.tokens[self.pos].kind == TokenKind::Eof
    }

    fn base_type(&mut self) -> (r: Result<Type, ParseStop>)
        ensures
            final(self).functions == old(self).functions,
            final(self).tracks(*old(self), p_base_type(old(self).toks(), old(self).position(), old(self).env()), type_outcome(r)),
    {
        if self.pos >= self.tokens.len() {
            return Err(ParseStop::Crash);
        }
        if self.consume("int") {
            Ok(new_int_type())
        } else if self.consume("char") {
            Ok(Type { kind: TypeKind::Char, ptr_to: None, arr_size: 1 })
        } else {
            let found = &self.tokens[self.pos].str;
            Err(error_text(wrapped_message("型名cが期待されますが、", found, "でした")))
        }
    }

    fn ty(&mut self) -> (r: Result<Type, ParseStop>)
        ensures
            final(self).functions == old(self).functions,
            final(self).tracks(*old(self), p_ty(old(self).toks(), old(self).position(), old(self).env()), type_outcome(r)),
    {
        let ghost t = old(self).toks();
        let ghost e0 = old(self).env();
        let mut ty = self.base_type()?;
        let ghost start = self.position();
        let ghost b = p_base_type(t, old(self).position(), e0);
        loop
            invariant
                self.functions == old(self).functions,
                t == old(self).toks(),
                e0 == old(self).env(),
                self.toks() == t,
                self.env() == b.env,
                b.out is Done,
                start == old(self).position() + b.used,
                self.position() >= start,
                p_ty(t, old(self).position(), e0) == shift(
                    (self.position() - old(self).position()) as nat,
                    p_stars(t, self.position(), self.env(), ty),
                ),
            decreases remaining(t.len(), self.position()),
        {
            if self.pos >= self.tokens.len() {
                return Err(ParseStop::Crash);
            }
            if self.consume("*") {
                ty = Type { kind: TypeKind::Ptr, ptr_to: Some(Box::new(ty)), arr_size: 1 };
            } else {
                return Ok(ty);
            }
        }
    }
}

impl Parser {
    /// Declares a local variable of the current function.
    fn create_lvar(&mut self, name: &String, ty: Type) -> (r: Result<LVar, ParseStop>)
        ensures
            final(self).functions == old(self).functions,
            match declare_local(old(self).env(), name@, ty) {
                Some((e2, v)) => r matches Ok(lv) && lv@ == v && final(self).env() == e2,
                None => r matches Err(ParseStop::Crash),
            },
            final(self).toks() == old(self).toks(),
            final(self).position() == old(self).position(),
    {
        let offset = self.stack_size;
        let grown: usize;
        if ty.kind == TypeKind::Arr {
            let mut cur: &Type = &ty;
            let mut elem_cnt: usize = 1;
            while cur.ptr_to.is_some()
                invariant
                    self.functions == old(self).functions,
                    element_count(ty, 1) == element_count(*cur, elem_cnt as nat),
                    ty.kind == TypeKind::Arr,
                    *self == *old(self),
                decreases *cur,
            {
                match elem_cnt.checked_mul(cur.arr_size) {
                    Some(m) => {
                        elem_cnt = m;
                    },
                    None => {
                        assert(element_count(*cur, elem_cnt as nat) is None);
                        return Err(ParseStop::Crash);
                    },
                }
                match &cur.ptr_to {
                    Some(b) => {
                        cur = b;
                    },
                    None => {},
                }
            }
            let bytes = match 8usize.checked_mul(elem_cnt) {
                Some(b) => b,
                None => {
                    return Err(ParseStop::Crash);
                },
            };
            grown = match self.stack_size.checked_add(bytes) {
                Some(g) => g,
                None => {
                    return Err(ParseStop::Crash);
                },
            };
        } else {
            grown = match self.stack_size.checked_add(8) {
                Some(g) => g,
                None => {
                    return Err(ParseStop::Crash);
                },
            };
        }
        assert(grown_stack(old(self).env().stack_size, ty) == Some(grown as nat));
        if self.fn_idx >= self.locals.len() {
            return Err(ParseStop::Crash);
        }
        self.stack_size = grown;
        let lvar = LVar { name: name.clone(), offset, ty };
        let ghost i = self.fn_idx as int;
        let ghost before = locals_view(self.locals@);
        insert_lvar_into(&mut self.locals[self.fn_idx], lvar.clone());
        assert(locals_view(self.locals@) =~= before.update(i, insert_lvar(before[i], lvar@)));
        Ok(lvar)
    }
}

/// `ty` with the dimensions `nums`, the first the outermost.
pub(crate) fn array_of_dims(ty: Type, nums: &Vec<i32>) -> (r: Type)
    ensures
        r == array_of(ty, nums@),
{
    let ghost base = ty;
    let mut i = nums.len();
    let mut cur = ty;
    assert(nums@.subrange(i as int, nums.len() as int) =~= Seq::<i32>::empty());
    while i > 0
        invariant
            i <= nums.len(),
            cur == array_of(base, nums@.subrange(i as int, nums.len() as int)),
        decreases i,
    {
        i = i - 1;
        assert(nums@.subrange(i as int, nums.len() as int).drop_first() =~= nums@.subrange(
            i + 1,
            nums.len() as int,
        ));
        cur = Type { kind: TypeKind::Arr, ptr_to: Some(Box::new(cur)), arr_size: nums[i] as usize };
    }
    assert(nums@.subrange(0, nums.len() as int) =~= nums@);
    cur
}

impl Parser {
    /// Declares a global variable.
    fn create_gvar(&mut self, name: &String, ty: Type) -> (r: GVar)
        ensures
            final(self).functions == old(self).functions,
            r@ == (GVarV { name: name@, ty }),
            final(self).env() == (Env { globals: insert_gvar(old(self).env().globals, r@), ..old(self).env() }),
            final(self).toks() == old(self).toks(),
            final(self).position() == old(self).position(),
    {
        let gvar = GVar { name: name.clone(), ty: ty.clone() };
        insert_gvar_into(&mut self.globals, gvar.clone());
        gvar
    }

    /// ("[" num "]")*
    fn dims(&mut self) -> (r: Result<Vec<i32>, ParseStop>)
        ensures
            final(self).functions == old(self).functions,
            final(self).tracks(*old(self), p_dims(old(self).toks(), old(self).position(), old(self).env(), seq![]), nums_outcome(r)),
    {
        let ghost t = old(self).toks();
        let ghost p0 = old(self).position();
        let ghost e0 = old(self).env();
        let mut nums: Vec<i32> = Vec::new();
        loop
            invariant
                self.functions == old(self).functions,
                t == old(self).toks(),
                p0 == old(self).position(),
                e0 == old(self).env(),
                self.toks() == t,
                self.position() >= p0,
                p_dims(t, p0, e0, seq![]) == shift(
                    (self.position() - p0) as nat,
                    p_dims(t, self.position(), self.env(), nums@),
                ),
            decreases remaining(t.len(), self.position()),
        {
            if self.pos >= self.tokens.len() {
                return Err(ParseStop::Crash);
            }
            if self.consume("[") {
                let v = self.expect_number()?;
                self.expect("]")?;
                nums.push(v);
            } else {
                return Ok(nums);
            }
        }
    }

    /// global_decl ::= ("[" num "]")*, after the type and the name; a `;`
    /// right after it is taken with it.
    fn global_decl(&mut self, name: String, ty: Type) -> (r: Result<Node, ParseStop>)
        ensures
            final(self).functions == old(self).functions,
            final(self).tracks(*old(self), p_global_decl(old(self).toks(), old(self).position(), old(self).env(), name@, ty), node_outcome(r)),
    {
        let nums = self.dims()?;
        let ty = array_of_dims(ty, &nums);
        let ghost before = gvars_view(self.globals@);
        let gvar = self.create_gvar(&name, ty.clone());
        insert_gvar_into(&mut self.globals, gvar.clone());
        proof {
            lemma_insert_gvar_twice(before, gvar@);
        }
        let node = create_new_node(NodeKind::GVarDef(gvar), None, None);
        if self.pos >= self.tokens.len() {
            return Err(ParseStop::Crash);
        }
        self.consume(";");
        Ok(node)
    }

    /// paramlist ::= type ident ("," type ident)*
    fn paramlist(&mut self) -> (r: Result<Vec<Node>, ParseStop>)
        ensures
            final(self).functions == old(self).functions,
            final(self).tracks(*old(self), p_params(old(self).toks(), old(self).position(), old(self).env(), seq![]), nodes_outcome(r)),
    {
        let ghost t = old(self).toks();
        let ghost p0 = old(self).position();
        let ghost e0 = old(self).env();
        let mut params: Vec<Node> = Vec::new();
        loop
            invariant
                self.functions == old(self).functions,
                t == old(self).toks(),
                p0 == old(self).position(),
                e0 == old(self).env(),
                self.toks() == t,
                self.position() >= p0,
                p_params(t, p0, e0, seq![]) == shift(
                    (self.position() - p0) as nat,
                    p_params(t, self.position(), self.env(), nodes_v(params@)),
                ),
            decreases remaining(t.len(), self.position()),
        {
            let ty = self.ty()?;
            if self.pos >= self.tokens.len() {
                return Err(ParseStop::Crash);
            }
            if self.tokens[self.pos].kind != TokenKind::Ident {
                return Err(error_text(text_of("変数名がありません")));
            }
            let name = self.tokens[self.pos].str.clone();
            let lvar = self.create_lvar(&name, ty)?;
            let node = create_new_node(NodeKind::LVar(lvar), None, None);
            proof {
                lemma_nodes_v_push(params@, node);
            }
            params.push(node);
            self.pos += 1;
            if self.pos >= self.tokens.len() {
                return Err(ParseStop::Crash);
            }
            if !self.consume(",") {
                return Ok(params);
            }
        }
    }

    /// The parameters of a function, from after its "(" to after its ")".
    fn fn_params(&mut self) -> (r: Result<Vec<Node>, ParseStop>)
        ensures
            final(self).functions == old(self).functions,
            final(self).tracks(*old(self), p_fn_params(old(self).toks(), old(self).position(), old(self).env()), nodes_outcome(r)),
    {
        if self.pos >= self.tokens.len() {
            return Err(ParseStop::Crash);
        }
        if self.consume(")") {
            let v: Vec<Node> = Vec::new();
            assert(nodes_v(v@) =~= Seq::<NodeV>::empty());
            return Ok(v);
        }
        let params = self.paramlist()?;
        self.expect(")")?;
        Ok(params)
    }
}

pub open spec fn opt_lvar_view(o: Option<LVar>) -> Option<LVarV> {
    match o {
        Some(v) => Some(v@),
        None => None,
    }
}

pub open spec fn opt_gvar_view(o: Option<GVar>) -> Option<GVarV> {
    match o {
        Some(v) => Some(v@),
        None => None,
    }
}

pub(crate) fn leaf_node(kind: NodeKind) -> (r: Node)
    ensures
        r@ == mk_node(kind_v(kind), None, None),
{
    create_new_node(kind, None, None)
}

pub(crate) fn binary_node(kind: NodeKind, l: Node, r: Node) -> (n: Node)
    ensures
        n@ == mk_node(kind_v(kind), Some(Box::new(l@)), Some(Box::new(r@))),
{
    create_new_node(kind, Some(Box::new(l)), Some(Box::new(r)))
}

pub(crate) fn unary_of(kind: NodeKind, l: Node) -> (n: Node)
    ensures
        n@ == mk_node(kind_v(kind), Some(Box::new(l@)), None),
{
    create_new_node(kind, Some(Box::new(l)), None)
}


impl Parser {
    /// function ::= "(" paramlist? ")" "{" stmt* "}", after the type and the name.
    #[verifier::spinoff_prover]
    fn function(&mut self, name: String, ty: Type) -> (r: Result<Node, ParseStop>)
        ensures
            final(self).tracks(*old(self), p_function(old(self).toks(), old(self).position(), old(self).env(), name@, ty), node_outcome(r)),
            distinct_functions(old(self).env().functions) ==> distinct_functions(final(self).env().functions),
    {
        self.expect("(")?;
        let params = self.fn_params()?;
        let found = find_function_index(&self.functions, &name);
        proof {
            lemma_first_named(function_names(self.env().functions), name@, 0);
            if function_names(self.env().functions).contains(name@) {
                let k = choose|k: int| 0 <= k < function_names(self.env().functions).len() && function_names(self.env().functions)[k] == name@;
                assert(function_names(self.env().functions)[k] == name@);
            }
        }
        if found.is_some() {
            return Err(error_text(wrapped_message("関数 '", &name, "' はすでに定義されています")));
        }
        if self.pos >= self.tokens.len() {
            return Err(ParseStop::Crash);
        }
        if !self.peek_is("{") {
            return Err(error_text(expected_message("{", &self.tokens[self.pos].str)));
        }
        let body = self.stmt()?;
        let func = Function { name, stack_size: self.stack_size, ty };
        let ghost fv = func@;
        let ghost before = functions_view(self.functions@);
        self.functions.push(func.clone());
        assert(functions_view(self.functions@) =~= before.push(fv));
        proof {
            reveal(distinct_functions);
            let names = function_names(before);
            assert(function_names(before.push(fv)) =~= names.push(fv.name));
            lemma_first_named(names, name@, 0);
            if names.no_duplicates() {
                let n2 = names.push(fv.name);
                assert forall|i: int, j: int| 0 <= i < n2.len() && 0 <= j < n2.len() && i != j implies n2[i] != n2[j] by {
                    if i < names.len() && j < names.len() {
                        assert(names[i] != names[j]);
                    }
                }
            }
        }
        Ok(create_new_node(NodeKind::Fndef(func, params), None, Some(Box::new(body))))
    }

    /// Parses the whole program: definitions of functions and global
    /// variables up to the end-of-input token. Where the parser would panic,
    /// the result is `ParseStop::Crash`; where it would exit the process, the
    /// result is `ParseStop::Exit` with the message it prints.
    #[verifier::spinoff_prover]
    #[verifier::rlimit(80)]
    pub fn program_checked(&mut self) -> (r: Result<Vec<Node>, ParseStop>)
        ensures
            final(self).tracks(*old(self), p_program(old(self).toks(), old(self).position(), old(self).env()), nodes_outcome(r)),
            distinct_functions(old(self).env().functions) ==> distinct_functions(final(self).env().functions),
    {
        let ghost t = old(self).toks();
        let ghost p0 = old(self).position();
        let ghost e0 = old(self).env();
        let mut nodes: Vec<Node> = Vec::new();
        assert(nodes_v(nodes@) =~= Seq::<NodeV>::empty());
        loop
            invariant
                t == old(self).toks(),
                p0 == old(self).position(),
                e0 == old(self).env(),
                self.toks() == t,
                self.position() >= p0,
                distinct_functions(e0.functions) ==> distinct_functions(self.env().functions),
                p_program(t, p0, e0) == shift(
                    (self.position() - p0) as nat,
                    p_items(t, self.position(), self.env(), nodes_v(nodes@)),
                ),
            decreases remaining(t.len(), self.position()),
        {
            if self.pos >= self.tokens.len() {
                return Err(ParseStop::Crash);
            }
            if self.at_eof() {
                return Ok(nodes);
            }
            let ty = self.ty()?;
            if self.pos >= self.tokens.len() {
                return Err(ParseStop::Crash);
            }
            if self.tokens[self.pos].kind != TokenKind::Ident {
                return Err(ParseStop::Exit(text_of("変数名がありません")));
            }
            let name = self.tokens[self.pos].str.clone();
            self.pos += 1;
            if self.pos >= self.tokens.len() {
                return Err(ParseStop::Crash);
            }
            if self.peek_is("(") {
                let ghost before = locals_view(self.locals@);
                let fresh: Vec<LVar> = Vec::new();
                assert(lvars_view(fresh@) =~= Seq::<LVarV>::empty());
                self.locals.push(fresh);
                assert(locals_view(self.locals@) =~= before.push(seq![]));
                let n = self.function(name, ty)?;
                proof {
                    lemma_nodes_v_push(nodes@, n);
                }
                nodes.push(n);
                if self.fn_idx == usize::MAX {
                    return Err(ParseStop::Crash);
                }
                self.fn_idx += 1;
                self.stack_size = 8;
            } else {
                let n = self.global_decl(name, ty)?;
                proof {
                    lemma_nodes_v_push(nodes@, n);
                }
                nodes.push(n);
            }
        }
    }

    /// Parses the whole program: definitions of functions and global
    /// variables up to the end-of-input token. A syntax error gives its
    /// message.
    pub fn program(&mut self) -> (r: Result<Vec<Node>, String>)
        requires
            !(p_program(old(self).toks(), old(self).position(), old(self).env()).out is Crash),
            !(p_program(old(self).toks(), old(self).position(), old(self).env()).out is Exit),
        ensures
            match p_program(old(self).toks(), old(self).position(), old(self).env()).out {
                Outcome::Done(ns) => r matches Ok(v) && nodes_v(v@) == ns,
                Outcome::Fail(m) => r matches Err(s) && s@ == m,
                _ => false,
            },
            final(self).toks() == old(self).toks(),
            final(self).position() == old(self).position() + p_program(old(self).toks(), old(self).position(), old(self).env()).used,
            final(self).env() == p_program(old(self).toks(), old(self).position(), old(self).env()).env,
            distinct_functions(old(self).env().functions) ==> distinct_functions(final(self).env().functions),
    {
        match self.program_checked() {
            Ok(v) => Ok(v),
            Err(ParseStop::Error(m)) => Err(m),
            Err(ParseStop::Exit(m)) => Err(m),
            Err(ParseStop::Crash) => Err(String::new()),
        }
    }
}

} // verus!
