//! The meaning of the parser: for each parsing function, what it returns and
//! how it leaves the parser's state, as a function of the tokens, the
//! position and the symbol tables.
use vstd::prelude::*;
use crate::ast::{
    arith_value, compare_holds, trunc_div, array_type, char_type, int_type, mk_node, ptr_type, BinaryOpKind, ComparisonOpKind, FunctionV,
    GVarV, LVarV, NodeKindV, NodeV, Type, TypeKind, UnaryOpKind,
};
use crate::lexer::{TokenKind, TokenV};

verus! {

/// The parser's symbol tables and stack bookkeeping.
pub ghost struct Env {
    /// Which function's local table is in use.
    pub fn_idx: nat,
    /// One table of local variables per function, in order of definition.
    pub locals: Seq<Seq<LVarV>>,
    pub globals: Seq<GVarV>,
    pub functions: Seq<FunctionV>,
    /// The next free stack offset of the current function.
    pub stack_size: nat,
}

/// How a parsing function ends.
pub ghost enum Outcome<T> {
    Done(T),
    /// A syntax error with its message.
    Fail(Seq<char>),
    /// The parser prints this message and exits the process with status 1.
    Exit(Seq<char>),
    /// The parser panics (a read past the last token, an arithmetic overflow,
    /// a missing number) or does not terminate.
    Crash,
}

/// The result of a parsing function: the tokens it consumed, the tables it
/// left, and its outcome.
pub ghost struct Step<T> {
    pub used: nat,
    pub env: Env,
    pub out: Outcome<T>,
}

pub open spec fn ok<T>(used: nat, env: Env, v: T) -> Step<T> {
    Step { used, env, out: Outcome::Done(v) }
}

pub open spec fn err<T>(used: nat, env: Env, msg: Seq<char>) -> Step<T> {
    Step { used, env, out: Outcome::Fail(msg) }
}

pub open spec fn crash<T>(env: Env) -> Step<T> {
    Step { used: 0, env, out: Outcome::Crash }
}

/// A step that did not finish, as a step of another result type.
pub open spec fn stop_as<A, B>(s: Step<A>) -> Step<B> {
    Step {
        used: s.used,
        env: s.env,
        out: match s.out {
            Outcome::Fail(m) => Outcome::Fail(m),
            Outcome::Exit(m) => Outcome::Exit(m),
            _ => Outcome::Crash,
        },
    }
}

/// `s`, after `k` tokens consumed before it.
pub open spec fn shift<T>(k: nat, s: Step<T>) -> Step<T> {
    Step { used: k + s.used, env: s.env, out: s.out }
}

/// The tokens left from position `p`.
pub open spec fn remaining(len: nat, p: nat) -> nat {
    if p <= len {
        (len - p) as nat
    } else {
        0
    }
}

pub open spec fn expected_msg(op: Seq<char>, found: Seq<char>) -> Seq<char> {
    "'"@ + op + "'が期待されますが、'"@ + found + "'でした"@
}

pub open spec fn number_expected_msg(found: Seq<char>) -> Seq<char> {
    "数が期待されますが、'"@ + found + "'でした"@
}

pub open spec fn type_expected_msg(found: Seq<char>) -> Seq<char> {
    "型名cが期待されますが、"@ + found + "でした"@
}

pub open spec fn duplicate_function_msg(name: Seq<char>) -> Seq<char> {
    "関数 '"@ + name + "' はすでに定義されています"@
}

pub open spec fn unknown_variable_msg(name: Seq<char>) -> Seq<char> {
    "変数 '"@ + name + "' が見つかりません"@
}

pub open spec fn missing_name_msg() -> Seq<char> {
    "変数名がありません"@
}

/// The first index from `k` on whose name is `name`, or -1.
pub open spec fn first_named(names: Seq<Seq<char>>, name: Seq<char>, k: nat) -> int
    decreases names.len() - k,
{
    if k >= names.len() {
        -1
    } else if names[k as int] == name {
        k as int
    } else {
        first_named(names, name, k + 1)
    }
}

/// Lemma: what `first_named` finds.
pub proof fn lemma_first_named(names: Seq<Seq<char>>, name: Seq<char>, k: nat)
    ensures
        first_named(names, name, k) == -1 <==> (forall|j: int| k <= j < names.len() ==> names[j] != name),
        first_named(names, name, k) != -1 ==> {
            let i = first_named(names, name, k);
            &&& k <= i < names.len()
            &&& names[i] == name
        },
    decreases names.len() - k,
{
    if k < names.len() {
        lemma_first_named(names, name, k + 1);
    }
}

pub open spec fn lvar_names(tab: Seq<LVarV>) -> Seq<Seq<char>> {
    tab.map_values(|v: LVarV| v.name)
}

pub open spec fn gvar_names(tab: Seq<GVarV>) -> Seq<Seq<char>> {
    tab.map_values(|v: GVarV| v.name)
}

pub open spec fn function_names(tab: Seq<FunctionV>) -> Seq<Seq<char>> {
    tab.map_values(|f: FunctionV| f.name)
}

/// No two functions in the table have the same name.
#[verifier::opaque]
pub open spec fn distinct_functions(fs: Seq<FunctionV>) -> bool {
    function_names(fs).no_duplicates()
}

/// The local variable of that name in a table.
pub open spec fn lookup_lvar(tab: Seq<LVarV>, name: Seq<char>) -> Option<LVarV> {
    let i = first_named(lvar_names(tab), name, 0);
    if i < 0 {
        None
    } else {
        Some(tab[i])
    }
}

pub open spec fn lookup_gvar(tab: Seq<GVarV>, name: Seq<char>) -> Option<GVarV> {
    let i = first_named(gvar_names(tab), name, 0);
    if i < 0 {
        None
    } else {
        Some(tab[i])
    }
}

pub open spec fn lookup_function(tab: Seq<FunctionV>, name: Seq<char>) -> Option<FunctionV> {
    let i = first_named(function_names(tab), name, 0);
    if i < 0 {
        None
    } else {
        Some(tab[i])
    }
}

/// A table after binding `v.name` to `v`: an entry of that name is replaced,
/// else `v` is added.
pub open spec fn insert_lvar(tab: Seq<LVarV>, v: LVarV) -> Seq<LVarV> {
    let i = first_named(lvar_names(tab), v.name, 0);
    if i < 0 {
        tab.push(v)
    } else {
        tab.update(i, v)
    }
}

pub open spec fn insert_gvar(tab: Seq<GVarV>, v: GVarV) -> Seq<GVarV> {
    let i = first_named(gvar_names(tab), v.name, 0);
    if i < 0 {
        tab.push(v)
    } else {
        tab.update(i, v)
    }
}

/// Lemma: `first_named` after one more name at the end.
pub proof fn lemma_first_named_push(names: Seq<Seq<char>>, x: Seq<char>, name: Seq<char>, k: nat)
    requires
        k <= names.len(),
    ensures
        first_named(names.push(x), name, k) == (if first_named(names, name, k) != -1 {
            first_named(names, name, k)
        } else if x == name {
            names.len() as int
        } else {
            -1
        }),
    decreases names.len() - k,
{
    let n2 = names.push(x);
    if k < names.len() {
        assert(n2[k as int] == names[k as int]);
        lemma_first_named_push(names, x, name, k + 1);
    } else {
        assert(n2[k as int] == x);
        assert(first_named(n2, name, k + 1) == -1);
    }
}

/// Law: after binding a global, looking its name up gives what was bound.
pub proof fn lemma_insert_gvar_lookup(tab: Seq<GVarV>, v: GVarV)
    ensures
        lookup_gvar(insert_gvar(tab, v), v.name) == Some(v),
{
    let names = gvar_names(tab);
    let i = first_named(names, v.name, 0);
    lemma_first_named(names, v.name, 0);
    if i < 0 {
        assert(gvar_names(tab.push(v)) =~= names.push(v.name));
        lemma_first_named_push(names, v.name, v.name, 0);
    } else {
        assert(gvar_names(tab.update(i, v)) =~= names);
    }
}

/// Law: binding a global leaves the other names as they were.
pub proof fn lemma_insert_gvar_other(tab: Seq<GVarV>, v: GVarV, name: Seq<char>)
    requires
        name != v.name,
    ensures
        lookup_gvar(insert_gvar(tab, v), name) == lookup_gvar(tab, name),
{
    let names = gvar_names(tab);
    let i = first_named(names, v.name, 0);
    lemma_first_named(names, v.name, 0);
    lemma_first_named(names, name, 0);
    if i < 0 {
        assert(gvar_names(tab.push(v)) =~= names.push(v.name));
        lemma_first_named_push(names, v.name, name, 0);
    } else {
        assert(gvar_names(tab.update(i, v)) =~= names);
    }
}

/// Law: binding the same global twice is binding it once.
pub proof fn lemma_insert_gvar_twice(tab: Seq<GVarV>, v: GVarV)
    ensures
        insert_gvar(insert_gvar(tab, v), v) == insert_gvar(tab, v),
{
    let t1 = insert_gvar(tab, v);
    lemma_insert_gvar_lookup(tab, v);
    let j = first_named(gvar_names(t1), v.name, 0);
    lemma_first_named(gvar_names(t1), v.name, 0);
    assert(0 <= j < t1.len() && t1[j] == v);
    assert(t1.update(j, v) =~= t1);
}

/// Law: after binding a local, looking its name up gives what was bound.
pub proof fn lemma_insert_lvar_lookup(tab: Seq<LVarV>, v: LVarV)
    ensures
        lookup_lvar(insert_lvar(tab, v), v.name) == Some(v),
{
    let names = lvar_names(tab);
    let i = first_named(names, v.name, 0);
    lemma_first_named(names, v.name, 0);
    if i < 0 {
        assert(lvar_names(tab.push(v)) =~= names.push(v.name));
        lemma_first_named_push(names, v.name, v.name, 0);
    } else {
        assert(lvar_names(tab.update(i, v)) =~= names);
    }
}

/// Law: binding a local leaves the other names as they were.
pub proof fn lemma_insert_lvar_other(tab: Seq<LVarV>, v: LVarV, name: Seq<char>)
    requires
        name != v.name,
    ensures
        lookup_lvar(insert_lvar(tab, v), name) == lookup_lvar(tab, name),
{
    let names = lvar_names(tab);
    let i = first_named(names, v.name, 0);
    lemma_first_named(names, v.name, 0);
    lemma_first_named(names, name, 0);
    if i < 0 {
        assert(lvar_names(tab.push(v)) =~= names.push(v.name));
        lemma_first_named_push(names, v.name, name, 0);
    } else {
        assert(lvar_names(tab.update(i, v)) =~= names);
    }
}

/// The number of elements of an array type, all dimensions multiplied, as the
/// running product `acc` goes; `None` where the product overflows.
pub open spec fn element_count(ty: Type, acc: nat) -> Option<nat>
    decreases ty,
{
    match ty.ptr_to {
        None => Some(acc),
        Some(inner) => if acc * ty.arr_size > usize::MAX {
            None
        } else {
            element_count(*inner, acc * (ty.arr_size as nat))
        },
    }
}

/// The stack size after making room for a variable of type `ty`.
pub open spec fn grown_stack(stack: nat, ty: Type) -> Option<nat> {
    if ty.kind == TypeKind::Arr {
        match element_count(ty, 1) {
            Some(n) => if 8 * n > usize::MAX || stack + 8 * n > usize::MAX {
                None
            } else {
                Some(stack + 8 * n)
            },
            None => None,
        }
    } else if stack + 8 > usize::MAX {
        None
    } else {
        Some(stack + 8)
    }
}

/// Declaring a local variable: it gets the current stack offset, the stack
/// grows by 8 bytes per element, and the current function's table binds it.
pub open spec fn declare_local(e: Env, name: Seq<char>, ty: Type) -> Option<(Env, LVarV)> {
    match grown_stack(e.stack_size, ty) {
        Some(s) => if e.fn_idx >= e.locals.len() {
            None
        } else {
            let v = LVarV { name, offset: e.stack_size, ty };
            Some(
                (
                    Env {
                        stack_size: s,
                        locals: e.locals.update(
                            e.fn_idx as int,
                            insert_lvar(e.locals[e.fn_idx as int], v),
                        ),
                        ..e
                    },
                    v,
                ),
            )
        },
        None => None,
    }
}

/// Law: after declaring a local, looking its name up in the current
/// function's table gives the new variable, and every other name is looked up
/// as before; the other functions' tables stay as they were.
pub proof fn lemma_declare_local_lookup(e: Env, name: Seq<char>, ty: Type, other: Seq<char>)
    ensures
        declare_local(e, name, ty) matches Some((e2, v)) ==> {
            &&& v.name == name
            &&& e2.fn_idx == e.fn_idx
            &&& lookup_lvar(e2.locals[e2.fn_idx as int], name) == Some(v)
            &&& other != name ==> lookup_lvar(e2.locals[e2.fn_idx as int], other) == lookup_lvar(
                e.locals[e.fn_idx as int],
                other,
            )
            &&& forall|k: int| 0 <= k < e.locals.len() && k != e.fn_idx ==> #[trigger] e2.locals[k] == e.locals[k]
            &&& e2.locals.len() == e.locals.len()
            &&& e2.globals == e.globals
            &&& e2.functions == e.functions
        },
{
    if let Some((e2, v)) = declare_local(e, name, ty) {
        let tab = e.locals[e.fn_idx as int];
        lemma_insert_lvar_lookup(tab, v);
        if other != name {
            lemma_insert_lvar_other(tab, v, other);
        }
    }
}

/// `ty` with array dimensions `nums`, the first the outermost.
pub open spec fn array_of(ty: Type, nums: Seq<i32>) -> Type
    decreases nums.len(),
{
    if nums.len() == 0 {
        ty
    } else {
        array_type(nums[0] as usize, array_of(ty, nums.drop_first()))
    }
}

pub open spec fn leaf(kind: NodeKindV) -> NodeV {
    mk_node(kind, None, None)
}

pub open spec fn binary(kind: NodeKindV, l: NodeV, r: NodeV) -> NodeV {
    mk_node(kind, Some(Box::new(l)), Some(Box::new(r)))
}

pub open spec fn unary_node(kind: NodeKindV, l: NodeV) -> NodeV {
    mk_node(kind, Some(Box::new(l)), None)
}

pub open spec fn p_expect(t: Seq<TokenV>, p: nat, e: Env, op: Seq<char>) -> Step<()> {
    if p >= t.len() {
        crash(e)
    } else if t[p as int].text == op {
        ok(1, e, ())
    } else {
        err(0, e, expected_msg(op, t[p as int].text))
    }
}

pub open spec fn p_expect_number(t: Seq<TokenV>, p: nat, e: Env) -> Step<i32> {
    if p >= t.len() {
        crash(e)
    } else if t[p as int].kind != TokenKind::Num {
        err(0, e, number_expected_msg(t[p as int].text))
    } else {
        match t[p as int].val {
            Some(v) => ok(1, e, v),
            None => crash(e),
        }
    }
}

pub open spec fn p_base_type(t: Seq<TokenV>, p: nat, e: Env) -> Step<Type> {
    if p >= t.len() {
        crash(e)
    } else if t[p as int].text == "int"@ {
        ok(1, e, int_type())
    } else if t[p as int].text == "char"@ {
        ok(1, e, char_type())
    } else {
        err(0, e, type_expected_msg(t[p as int].text))
    }
}

/// The `*`s after a base type, each making a pointer.
pub open spec fn p_stars(t: Seq<TokenV>, p: nat, e: Env, ty: Type) -> Step<Type>
    decreases remaining(t.len(), p),
{
    if p >= t.len() {
        crash(e)
    } else if t[p as int].text == "*"@ {
        shift(1, p_stars(t, p + 1, e, ptr_type(ty)))
    } else {
        ok(0, e, ty)
    }
}

/// type ::= base_type "*"*
pub open spec fn p_ty(t: Seq<TokenV>, p: nat, e: Env) -> Step<Type> {
    let b = p_base_type(t, p, e);
    match b.out {
        Outcome::Done(ty) => shift(b.used, p_stars(t, p + b.used, b.env, ty)),
        _ => stop_as(b),
    }
}

/// ("[" num "]")*
pub open spec fn p_dims(t: Seq<TokenV>, p: nat, e: Env, nums: Seq<i32>) -> Step<Seq<i32>>
    decreases remaining(t.len(), p),
{
    if p >= t.len() {
        crash(e)
    } else if t[p as int].text == "["@ {
        let n = p_expect_number(t, p + 1, e);
        match n.out {
            Outcome::Done(v) => {
                let c = p_expect(t, p + 2, n.env, "]"@);
                match c.out {
                    Outcome::Done(_) => shift(3, p_dims(t, p + 3, c.env, nums.push(v))),
                    _ => shift(2, stop_as(c)),
                }
            },
            _ => shift(1, stop_as(n)),
        }
    } else {
        ok(0, e, nums)
    }
}

/// global_decl ::= ("[" num "]")*  (after the type and the name); a `;`
/// right after it is taken with it.
pub open spec fn p_global_decl(t: Seq<TokenV>, p: nat, e: Env, name: Seq<char>, ty: Type) -> Step<NodeV> {
    let d = p_dims(t, p, e, seq![]);
    match d.out {
        Outcome::Done(nums) => {
            let g = GVarV { name, ty: array_of(ty, nums) };
            let e2 = Env { globals: insert_gvar(d.env.globals, g), ..d.env };
            let q = p + d.used;
            if q >= t.len() {
                crash(e)
            } else if t[q as int].text == ";"@ {
                ok(d.used + 1, e2, leaf(NodeKindV::GVarDef(g)))
            } else {
                ok(d.used, e2, leaf(NodeKindV::GVarDef(g)))
            }
        },
        _ => stop_as(d),
    }
}

/// paramlist ::= type ident ("," type ident)*
pub open spec fn p_params(t: Seq<TokenV>, p: nat, e: Env, acc: Seq<NodeV>) -> Step<Seq<NodeV>>
    decreases remaining(t.len(), p),
{
    let y = p_ty(t, p, e);
    match y.out {
        Outcome::Done(ty) => {
            let q = p + y.used;
            if q >= t.len() {
                crash(e)
            } else if t[q as int].kind != TokenKind::Ident {
                err(y.used, y.env, missing_name_msg())
            } else {
                match declare_local(y.env, t[q as int].text, ty) {
                    Some((e2, v)) => {
                        let acc2 = acc.push(leaf(NodeKindV::LVar(v)));
                        if q + 1 >= t.len() {
                            crash(e)
                        } else if t[q + 1int].text == ","@ {
                            shift(y.used + 2, p_params(t, q + 2, e2, acc2))
                        } else {
                            ok(y.used + 1, e2, acc2)
                        }
                    },
                    None => crash(e),
                }
            }
        },
        _ => stop_as(y),
    }
}

/// The parameter part of a function definition, from after its "(" to after its ")".
pub open spec fn p_fn_params(t: Seq<TokenV>, p: nat, e: Env) -> Step<Seq<NodeV>> {
    if p >= t.len() {
        crash(e)
    } else if t[p as int].text == ")"@ {
        ok(1, e, seq![])
    } else {
        let l = p_params(t, p, e, seq![]);
        match l.out {
            Outcome::Done(params) => {
                let c = p_expect(t, p + l.used, l.env, ")"@);
                match c.out {
                    Outcome::Done(_) => ok(l.used + 1, c.env, params),
                    _ => shift(l.used, stop_as(c)),
                }
            },
            _ => stop_as(l),
        }
    }
}

/// function ::= "(" paramlist? ")" "{" stmt* "}"  (after the type and the name)
pub open spec fn p_function(t: Seq<TokenV>, p: nat, e: Env, name: Seq<char>, ty: Type) -> Step<NodeV> {
    let a = p_expect(t, p, e, "("@);
    match a.out {
        Outcome::Done(_) => {
            let ps = p_fn_params(t, p + 1, e);
            match ps.out {
                Outcome::Done(params) => {
                    let q = p + 1 + ps.used;
                    if function_names(ps.env.functions).contains(name) {
                        err(1 + ps.used, ps.env, duplicate_function_msg(name))
                    } else if q >= t.len() {
                        crash(ps.env)
                    } else if t[q as int].text != "{"@ {
                        err(1 + ps.used, ps.env, expected_msg("{"@, t[q as int].text))
                    } else {
                        let b = p_stmt(t, q, ps.env);
                        match b.out {
                            Outcome::Done(body) => {
                                let f = FunctionV { name, stack_size: b.env.stack_size, ty };
                                ok(
                                    1 + ps.used + b.used,
                                    Env { functions: b.env.functions.push(f), ..b.env },
                                    mk_node(NodeKindV::Fndef(f, params), None, Some(Box::new(body))),
                                )
                            },
                            _ => shift(1 + ps.used, stop_as(b)),
                        }
                    }
                },
                _ => shift(1, stop_as(ps)),
            }
        },
        _ => stop_as(a),
    }
}

/// program ::= (type ident (function | global_decl))*, each parsed item
/// appended to `acc`.
pub open spec fn p_items(t: Seq<TokenV>, p: nat, e: Env, acc: Seq<NodeV>) -> Step<Seq<NodeV>>
    decreases remaining(t.len(), p),
{
    if p >= t.len() {
        crash(e)
    } else if t[p as int].kind == TokenKind::Eof {
        ok(0, e, acc)
    } else {
        let y = p_ty(t, p, e);
        match y.out {
            Outcome::Done(ty) => {
                let q = p + y.used;
                if q >= t.len() {
                    crash(e)
                } else if t[q as int].kind != TokenKind::Ident {
                    Step { used: y.used, env: y.env, out: Outcome::Exit(missing_name_msg()) }
                } else if q + 1 >= t.len() {
                    crash(e)
                } else {
                    let name = t[q as int].text;
                    if t[q + 1int].text == "("@ {
                        let e2 = Env { locals: y.env.locals.push(seq![]), ..y.env };
                        let f = p_function(t, q + 1, e2, name, ty);
                        match f.out {
                            Outcome::Done(n) => if f.env.fn_idx + 1 > usize::MAX {
                                crash(e)
                            } else {
                                let e3 = Env { fn_idx: f.env.fn_idx + 1, stack_size: 8, ..f.env };
                                shift(y.used + 1 + f.used, p_items(t, q + 1 + f.used, e3, acc.push(n)))
                            },
                            _ => shift(y.used + 1, stop_as(f)),
                        }
                    } else {
                        let g = p_global_decl(t, q + 1, y.env, name, ty);
                        match g.out {
                            Outcome::Done(n) => shift(y.used + 1 + g.used, p_items(t, q + 1 + g.used, g.env, acc.push(n))),
                            _ => shift(y.used + 1, stop_as(g)),
                        }
                    }
                }
            },
            _ => stop_as(y),
        }
    }
}

/// The whole program, from position `p`.
pub open spec fn p_program(t: Seq<TokenV>, p: nat, e: Env) -> Step<Seq<NodeV>> {
    p_items(t, p, e, seq![])
}

// The statement and expression grammar. The functions below call each other;
// each call either consumes a token first or goes to a lower rank, the second
// number of the measure.

/// `stmt ";"`-style tail: the node, then the expected closing token.
pub open spec fn then_expect(t: Seq<TokenV>, p: nat, s: Step<NodeV>, op: Seq<char>) -> Step<NodeV> {
    match s.out {
        Outcome::Done(n) => {
            let c = p_expect(t, p + s.used, s.env, op);
            match c.out {
                Outcome::Done(_) => ok(s.used + 1, c.env, n),
                _ => shift(s.used, stop_as(c)),
            }
        },
        _ => s,
    }
}

/// The statements of a block, from after its "{" to after its "}".
#[verifier::opaque]
pub open spec fn p_block(t: Seq<TokenV>, p: nat, e: Env, acc: Seq<NodeV>) -> Step<NodeV>
    decreases remaining(t.len(), p), 23nat,
{
    if p >= t.len() {
        crash(e)
    } else if t[p as int].text == "}"@ {
        ok(1, e, leaf(NodeKindV::Block(acc)))
    } else {
        let s = p_stmt(t, p, e);
        match s.out {
            Outcome::Done(n) => if s.used == 0 {
                crash(e)
            } else {
                shift(s.used, p_block(t, p + s.used, s.env, acc.push(n)))
            },
            _ => stop_as(s),
        }
    }
}

/// stmt ::= "{" stmt* "}" | "return" expr ";" | "for" ... | "while" ... | "if" ...
///        | decl ";" | expr ";"
#[verifier::opaque]
pub open spec fn p_stmt(t: Seq<TokenV>, p: nat, e: Env) -> Step<NodeV>
    decreases remaining(t.len(), p), 22nat,
{
    if p >= t.len() {
        crash(e)
    } else {
        let x = t[p as int].text;
        if x == "{"@ {
            shift(1, p_block(t, p + 1, e, seq![]))
        } else if x == "return"@ {
            let r = p_expr(t, p + 1, e);
            let rn = match r.out {
                Outcome::Done(v) => ok(r.used, r.env, unary_node(NodeKindV::Return, v)),
                _ => r,
            };
            shift(1, then_expect(t, p + 1, rn, ";"@))
        } else if x == "for"@ {
            shift(1, p_for(t, p + 1, e))
        } else if x == "while"@ {
            shift(1, p_while(t, p + 1, e))
        } else if x == "if"@ {
            shift(1, p_if(t, p + 1, e))
        } else if x == "int"@ || x == "char"@ {
            then_expect(t, p, p_decl(t, p, e), ";"@)
        } else {
            then_expect(t, p, p_expr(t, p, e), ";"@)
        }
    }
}

/// One clause of a `for` header: `expr? op`, with `default` when empty.
#[verifier::opaque]
pub open spec fn p_for_clause(t: Seq<TokenV>, p: nat, e: Env, op: Seq<char>, default: NodeV) -> Step<NodeV>
    decreases remaining(t.len(), p), 21nat,
{
    if p >= t.len() {
        crash(e)
    } else if t[p as int].text == op {
        ok(1, e, default)
    } else {
        then_expect(t, p, p_expr(t, p, e), op)
    }
}

/// "(" expr? ";" expr? ";" expr? ")" stmt, after "for"
#[verifier::opaque]
pub open spec fn p_for(t: Seq<TokenV>, p: nat, e: Env) -> Step<NodeV>
    decreases remaining(t.len(), p), 1nat,
{
    if p >= t.len() {
        crash(e)
    } else if t[p as int].text != "("@ {
        err(0, e, expected_msg("("@, t[p as int].text))
    } else {
        let i = p_for_clause(t, p + 1, e, ";"@, leaf(NodeKindV::Num(0)));
        match i.out {
            Outcome::Done(init) => {
                let q1 = p + 1 + i.used;
                let c = p_for_clause(t, q1, i.env, ";"@, leaf(NodeKindV::Num(1)));
                match c.out {
                    Outcome::Done(cond) => {
                        let q2 = q1 + c.used;
                        let n = p_for_clause(t, q2, c.env, ")"@, leaf(NodeKindV::Num(0)));
                        match n.out {
                            Outcome::Done(inc) => {
                                let q3 = q2 + n.used;
                                let b = p_stmt(t, q3, n.env);
                                match b.out {
                                    Outcome::Done(body) => ok(
                                        (q3 + b.used - p) as nat,
                                        b.env,
                                        binary(
                                            NodeKindV::For,
                                            init,
                                            binary(NodeKindV::For, cond, binary(NodeKindV::For, inc, body)),
                                        ),
                                    ),
                                    _ => shift((q3 - p) as nat, stop_as(b)),
                                }
                            },
                            _ => shift((q2 - p) as nat, stop_as(n)),
                        }
                    },
                    _ => shift((q1 - p) as nat, stop_as(c)),
                }
            },
            _ => shift(1, stop_as(i)),
        }
    }
}

/// The condition of `while` and `if`: "(" expr ")".
#[verifier::opaque]
pub open spec fn p_cond(t: Seq<TokenV>, p: nat, e: Env) -> Step<NodeV>
    decreases remaining(t.len(), p), 21nat,
{
    if p >= t.len() {
        crash(e)
    } else if t[p as int].text != "("@ {
        err(0, e, expected_msg("("@, t[p as int].text))
    } else {
        shift(1, then_expect(t, p + 1, p_expr(t, p + 1, e), ")"@))
    }
}

/// "(" expr ")" stmt, after "while"
#[verifier::opaque]
pub open spec fn p_while(t: Seq<TokenV>, p: nat, e: Env) -> Step<NodeV>
    decreases remaining(t.len(), p), 23nat,
{
    let c = p_cond(t, p, e);
    match c.out {
        Outcome::Done(cond) => {
            let b = p_stmt(t, p + c.used, c.env);
            match b.out {
                Outcome::Done(body) => ok(c.used + b.used, b.env, binary(NodeKindV::While, cond, body)),
                _ => shift(c.used, stop_as(b)),
            }
        },
        _ => stop_as(c),
    }
}

/// "(" expr ")" stmt ("else" stmt)?, after "if"
#[verifier::opaque]
pub open spec fn p_if(t: Seq<TokenV>, p: nat, e: Env) -> Step<NodeV>
    decreases remaining(t.len(), p), 23nat,
{
    let c = p_cond(t, p, e);
    match c.out {
        Outcome::Done(cond) => {
            let q = p + c.used;
            let th = p_stmt(t, q, c.env);
            match th.out {
                Outcome::Done(then_node) => {
                    let q2 = q + th.used;
                    if q2 >= t.len() {
                        crash(e)
                    } else if t[q2 as int].text == "else"@ {
                        let el = p_stmt(t, q2 + 1, th.env);
                        match el.out {
                            Outcome::Done(else_node) => ok(
                                c.used + th.used + 1 + el.used,
                                el.env,
                                binary(NodeKindV::If, cond, binary(NodeKindV::Else, then_node, else_node)),
                            ),
                            _ => shift(c.used + th.used + 1, stop_as(el)),
                        }
                    } else {
                        ok(c.used + th.used, th.env, binary(NodeKindV::If, cond, then_node))
                    }
                },
                _ => shift(c.used, stop_as(th)),
            }
        },
        _ => stop_as(c),
    }
}

/// decl ::= type ident ("[" num "]")* ("=" expr)?
#[verifier::opaque]
pub open spec fn p_decl(t: Seq<TokenV>, p: nat, e: Env) -> Step<NodeV>
    decreases remaining(t.len(), p), 21nat,
{
    let y = p_ty(t, p, e);
    match y.out {
        Outcome::Done(ty) => {
            let q = p + y.used;
            if q >= t.len() {
                crash(e)
            } else if t[q as int].kind != TokenKind::Ident {
                err(y.used, y.env, missing_name_msg())
            } else {
                let d = p_dims(t, q + 1, y.env, seq![]);
                match d.out {
                    Outcome::Done(nums) => match declare_local(d.env, t[q as int].text, array_of(ty, nums)) {
                        Some((e2, v)) => {
                            let q3 = q + 1 + d.used;
                            let var = leaf(NodeKindV::LVar(v));
                            if q3 >= t.len() {
                                crash(e)
                            } else if t[q3 as int].text == "="@ {
                                let r = p_expr(t, q3 + 1, e2);
                                match r.out {
                                    Outcome::Done(rhs) => ok(
                                        (q3 + 1 + r.used - p) as nat,
                                        r.env,
                                        binary(NodeKindV::Assign, var, rhs),
                                    ),
                                    _ => shift((q3 + 1 - p) as nat, stop_as(r)),
                                }
                            } else {
                                ok((q3 - p) as nat, e2, var)
                            }
                        },
                        None => crash(e),
                    },
                    _ => shift(y.used + 1, stop_as(d)),
                }
            }
        },
        _ => stop_as(y),
    }
}

/// expr ::= assign
#[verifier::opaque]
pub open spec fn p_expr(t: Seq<TokenV>, p: nat, e: Env) -> Step<NodeV>
    decreases remaining(t.len(), p), 20nat,
{
    p_assign(t, p, e)
}

/// assign ::= equality ("=" assign)?
#[verifier::opaque]
pub open spec fn p_assign(t: Seq<TokenV>, p: nat, e: Env) -> Step<NodeV>
    decreases remaining(t.len(), p), 19nat,
{
    let l = p_equality(t, p, e);
    match l.out {
        Outcome::Done(n) => {
            let q = p + l.used;
            if q >= t.len() {
                crash(e)
            } else if t[q as int].text == "="@ {
                let r = p_assign(t, q + 1, l.env);
                match r.out {
                    Outcome::Done(m) => ok(l.used + 1 + r.used, r.env, binary(NodeKindV::Assign, n, m)),
                    _ => shift(l.used + 1, stop_as(r)),
                }
            } else {
                l
            }
        },
        _ => l,
    }
}

/// equality ::= relational ("==" relational | "!=" relational)*
#[verifier::opaque]
pub open spec fn p_equality(t: Seq<TokenV>, p: nat, e: Env) -> Step<NodeV>
    decreases remaining(t.len(), p), 18nat,
{
    let l = p_relational(t, p, e);
    match l.out {
        Outcome::Done(n) => shift(l.used, p_equality_tail(t, p + l.used, l.env, n)),
        _ => l,
    }
}

/// The comparison written by a token of the equality level.
pub open spec fn equality_op(x: Seq<char>) -> Option<ComparisonOpKind> {
    if x == "=="@ {
        Some(ComparisonOpKind::Eq)
    } else if x == "!="@ {
        Some(ComparisonOpKind::Nq)
    } else {
        None
    }
}

#[verifier::opaque]
pub open spec fn p_equality_tail(t: Seq<TokenV>, p: nat, e: Env, n: NodeV) -> Step<NodeV>
    decreases remaining(t.len(), p), 17nat,
{
    if p >= t.len() {
        crash(e)
    } else {
        match equality_op(t[p as int].text) {
            Some(op) => {
                let r = p_relational(t, p + 1, e);
                match r.out {
                    Outcome::Done(m) => shift(
                        1 + r.used,
                        p_equality_tail(t, p + 1 + r.used, r.env, binary(NodeKindV::Comparison(op), n, m)),
                    ),
                    _ => shift(1, r),
                }
            },
            None => ok(0, e, n),
        }
    }
}

/// What a comparison operator written in the source means in C, on the
/// values `a` of its left operand and `b` of its right operand.
pub open spec fn operator_holds(x: Seq<char>, a: int, b: int) -> Option<bool> {
    if x == "=="@ {
        Some(a == b)
    } else if x == "!="@ {
        Some(a != b)
    } else if x == "<"@ {
        Some(a < b)
    } else if x == "<="@ {
        Some(a <= b)
    } else if x == ">"@ {
        Some(a > b)
    } else if x == ">="@ {
        Some(a >= b)
    } else {
        None
    }
}

proof fn lemma_operator_texts()
    ensures
        "=="@.len() == 2 && "=="@[0] == '=',
        "!="@.len() == 2 && "!="@[0] == '!',
        "<"@.len() == 1 && "<"@[0] == '<',
        "<="@.len() == 2 && "<="@[0] == '<',
        ">"@.len() == 1 && ">"@[0] == '>',
        ">="@.len() == 2 && ">="@[0] == '>',
{
    reveal_strlit("==");
    reveal_strlit("!=");
    reveal_strlit("<");
    reveal_strlit("<=");
    reveal_strlit(">");
    reveal_strlit(">=");
}

/// Law: an equality operator `==` or `!=` after an operand makes a
/// comparison node whose left operand is what came before, whose right
/// operand is the relational expression after the operator, and which holds
/// exactly when the operator, read as C, holds.
pub proof fn lemma_equality_meaning(t: Seq<TokenV>, p: nat, e: Env, n: NodeV)
    requires
        p < t.len(),
        t[p as int].text == "=="@ || t[p as int].text == "!="@,
        p_relational(t, p + 1, e).out is Done,
    ensures
        ({
            let r = p_relational(t, p + 1, e);
            let m = r.out->Done_0;
            exists|op: ComparisonOpKind|
                #![trigger binary(NodeKindV::Comparison(op), n, m)]
                {
                    &&& forall|a: int, b: int| #[trigger] operator_holds(t[p as int].text, a, b) == Some(compare_holds(op, a, b))
                    &&& p_equality_tail(t, p, e, n) == shift(
                        1 + r.used,
                        p_equality_tail(t, p + 1 + r.used, r.env, binary(NodeKindV::Comparison(op), n, m)),
                    )
                }
        }),
{
    reveal(p_equality_tail);
    reveal(p_relational);
    lemma_operator_texts();
    let op = equality_op(t[p as int].text)->Some_0;
    assert(forall|a: int, b: int| #[trigger] operator_holds(t[p as int].text, a, b) == Some(compare_holds(op, a, b)));
    let r = p_relational(t, p + 1, e);
    let m = r.out->Done_0;
    assert(p_equality_tail(t, p, e, n) == shift(
        1 + r.used,
        p_equality_tail(t, p + 1 + r.used, r.env, binary(NodeKindV::Comparison(op), n, m)),
    ));
}

/// Law: a relational operator `<`, `<=`, `>` or `>=` after an operand makes
/// a comparison node whose left operand is what came before, whose right
/// operand is the additive expression after the operator, and which holds
/// exactly when the operator, read as C, holds.
pub proof fn lemma_relational_meaning(t: Seq<TokenV>, p: nat, e: Env, n: NodeV)
    requires
        p < t.len(),
        t[p as int].text == "<"@ || t[p as int].text == "<="@ || t[p as int].text == ">"@ || t[p as int].text == ">="@,
        p_add(t, p + 1, e).out is Done,
    ensures
        ({
            let r = p_add(t, p + 1, e);
            let m = r.out->Done_0;
            exists|op: ComparisonOpKind|
                #![trigger binary(NodeKindV::Comparison(op), n, m)]
                {
                    &&& forall|a: int, b: int| #[trigger] operator_holds(t[p as int].text, a, b) == Some(compare_holds(op, a, b))
                    &&& p_relational_tail(t, p, e, n) == shift(
                        1 + r.used,
                        p_relational_tail(t, p + 1 + r.used, r.env, binary(NodeKindV::Comparison(op), n, m)),
                    )
                }
        }),
{
    reveal(p_relational_tail);
    reveal(p_add);
    lemma_operator_texts();
    let op = relational_op(t[p as int].text)->Some_0;
    assert(forall|a: int, b: int| #[trigger] operator_holds(t[p as int].text, a, b) == Some(compare_holds(op, a, b)));
    let r = p_add(t, p + 1, e);
    let m = r.out->Done_0;
    assert(p_relational_tail(t, p, e, n) == shift(
        1 + r.used,
        p_relational_tail(t, p + 1 + r.used, r.env, binary(NodeKindV::Comparison(op), n, m)),
    ));
}

/// What an arithmetic operator written in the source means in C, on the
/// values `a` of its left operand and `b` of its right operand.
pub open spec fn operator_value(x: Seq<char>, a: int, b: int) -> Option<int> {
    if x == "+"@ {
        Some(a + b)
    } else if x == "-"@ {
        Some(a - b)
    } else if x == "*"@ {
        Some(a * b)
    } else if x == "/"@ {
        Some(trunc_div(a, b))
    } else {
        None
    }
}

proof fn lemma_arith_texts()
    ensures
        "+"@.len() == 1 && "+"@[0] == '+',
        "-"@.len() == 1 && "-"@[0] == '-',
        "*"@.len() == 1 && "*"@[0] == '*',
        "/"@.len() == 1 && "/"@[0] == '/',
{
    reveal_strlit("+");
    reveal_strlit("-");
    reveal_strlit("*");
    reveal_strlit("/");
}

/// relational ::= add ("<" add | "<=" add | ">" add | ">=" add)*
#[verifier::opaque]
pub open spec fn p_relational(t: Seq<TokenV>, p: nat, e: Env) -> Step<NodeV>
    decreases remaining(t.len(), p), 16nat,
{
    let l = p_add(t, p, e);
    match l.out {
        Outcome::Done(n) => shift(l.used, p_relational_tail(t, p + l.used, l.env, n)),
        _ => l,
    }
}

pub open spec fn relational_op(x: Seq<char>) -> Option<ComparisonOpKind> {
    if x == "<"@ {
        Some(ComparisonOpKind::Lt)
    } else if x == "<="@ {
        Some(ComparisonOpKind::Le)
    } else if x == ">"@ {
        Some(ComparisonOpKind::Gt)
    } else if x == ">="@ {
        Some(ComparisonOpKind::Ge)
    } else {
        None
    }
}

#[verifier::opaque]
pub open spec fn p_relational_tail(t: Seq<TokenV>, p: nat, e: Env, n: NodeV) -> Step<NodeV>
    decreases remaining(t.len(), p), 15nat,
{
    if p >= t.len() {
        crash(e)
    } else {
        match relational_op(t[p as int].text) {
            Some(op) => {
                let r = p_add(t, p + 1, e);
                match r.out {
                    Outcome::Done(m) => shift(
                        1 + r.used,
                        p_relational_tail(t, p + 1 + r.used, r.env, binary(NodeKindV::Comparison(op), n, m)),
                    ),
                    _ => shift(1, r),
                }
            },
            None => ok(0, e, n),
        }
    }
}

/// add ::= mul ("+" mul | "-" mul)*
#[verifier::opaque]
pub open spec fn p_add(t: Seq<TokenV>, p: nat, e: Env) -> Step<NodeV>
    decreases remaining(t.len(), p), 14nat,
{
    let l = p_mul(t, p, e);
    match l.out {
        Outcome::Done(n) => shift(l.used, p_add_tail(t, p + l.used, l.env, n)),
        _ => l,
    }
}

pub open spec fn additive_op(x: Seq<char>) -> Option<BinaryOpKind> {
    if x == "+"@ {
        Some(BinaryOpKind::Add)
    } else if x == "-"@ {
        Some(BinaryOpKind::Sub)
    } else {
        None
    }
}

#[verifier::opaque]
pub open spec fn p_add_tail(t: Seq<TokenV>, p: nat, e: Env, n: NodeV) -> Step<NodeV>
    decreases remaining(t.len(), p), 13nat,
{
    if p >= t.len() {
        crash(e)
    } else {
        match additive_op(t[p as int].text) {
            Some(op) => {
                let r = p_mul(t, p + 1, e);
                match r.out {
                    Outcome::Done(m) => shift(
                        1 + r.used,
                        p_add_tail(t, p + 1 + r.used, r.env, binary(NodeKindV::BinaryOp(op), n, m)),
                    ),
                    _ => shift(1, r),
                }
            },
            None => ok(0, e, n),
        }
    }
}

/// mul ::= unary ("*" unary | "/" unary)*
#[verifier::opaque]
pub open spec fn p_mul(t: Seq<TokenV>, p: nat, e: Env) -> Step<NodeV>
    decreases remaining(t.len(), p), 12nat,
{
    let l = p_unary(t, p, e);
    match l.out {
        Outcome::Done(n) => shift(l.used, p_mul_tail(t, p + l.used, l.env, n)),
        _ => l,
    }
}

pub open spec fn multiplicative_op(x: Seq<char>) -> Option<BinaryOpKind> {
    if x == "*"@ {
        Some(BinaryOpKind::Mul)
    } else if x == "/"@ {
        Some(BinaryOpKind::Div)
    } else {
        None
    }
}

#[verifier::opaque]
pub open spec fn p_mul_tail(t: Seq<TokenV>, p: nat, e: Env, n: NodeV) -> Step<NodeV>
    decreases remaining(t.len(), p), 11nat,
{
    if p >= t.len() {
        crash(e)
    } else {
        match multiplicative_op(t[p as int].text) {
            Some(op) => {
                let r = p_unary(t, p + 1, e);
                match r.out {
                    Outcome::Done(m) => shift(
                        1 + r.used,
                        p_mul_tail(t, p + 1 + r.used, r.env, binary(NodeKindV::BinaryOp(op), n, m)),
                    ),
                    _ => shift(1, r),
                }
            },
            None => ok(0, e, n),
        }
    }
}

/// The constant that `sizeof` gives for an operand of type `ty`.
pub open spec fn sizeof_value(ty: Type) -> i32 {
    if ty.kind == TypeKind::Int {
        4
    } else {
        8
    }
}

/// unary ::= "sizeof" unary | ("+" | "-")? primary | ("*" | "&") unary
#[verifier::opaque]
pub open spec fn p_unary(t: Seq<TokenV>, p: nat, e: Env) -> Step<NodeV>
    decreases remaining(t.len(), p), 10nat,
{
    if p >= t.len() {
        crash(e)
    } else {
        let x = t[p as int].text;
        if x == "+"@ {
            shift(1, p_primary(t, p + 1, e))
        } else if x == "-"@ {
            let r = p_primary(t, p + 1, e);
            match r.out {
                Outcome::Done(m) => ok(
                    1 + r.used,
                    r.env,
                    binary(NodeKindV::BinaryOp(BinaryOpKind::Sub), leaf(NodeKindV::Num(0)), m),
                ),
                _ => shift(1, r),
            }
        } else if x == "&"@ || x == "*"@ || x == "sizeof"@ {
            let r = p_unary(t, p + 1, e);
            match r.out {
                Outcome::Done(m) => ok(
                    1 + r.used,
                    r.env,
                    if x == "&"@ {
                        unary_node(NodeKindV::UnaryOp(UnaryOpKind::Ref), m)
                    } else if x == "*"@ {
                        unary_node(NodeKindV::UnaryOp(UnaryOpKind::Deref), m)
                    } else {
                        leaf(NodeKindV::Num(sizeof_value(m.ty)))
                    },
                ),
                _ => shift(1, r),
            }
        } else {
            p_primary(t, p, e)
        }
    }
}

/// The function that a call of `name` refers to: a defined one, or an `int`
/// function defined elsewhere.
pub open spec fn callee(fs: Seq<FunctionV>, name: Seq<char>) -> FunctionV {
    match lookup_function(fs, name) {
        Some(f) => f,
        None => FunctionV { name, stack_size: 0, ty: int_type() },
    }
}

/// primary ::= num | ident ("(" arglist? ")")? | ident ("[" expr "]")+ | "(" expr ")"
#[verifier::opaque]
pub open spec fn p_primary(t: Seq<TokenV>, p: nat, e: Env) -> Step<NodeV>
    decreases remaining(t.len(), p), 9nat,
{
    if p >= t.len() {
        crash(e)
    } else if t[p as int].text == "("@ {
        shift(1, then_expect(t, p + 1, p_expr(t, p + 1, e), ")"@))
    } else if t[p as int].kind == TokenKind::Ident {
        if e.fn_idx >= e.locals.len() {
            crash(e)
        } else {
            let name = t[p as int].text;
            let lv = lookup_lvar(e.locals[e.fn_idx as int], name);
            let gv = lookup_gvar(e.globals, name);
            let f = callee(e.functions, name);
            let q = p + 1;
            if q >= t.len() {
                crash(e)
            } else if t[q as int].text == "("@ {
                if q + 1 >= t.len() {
                    crash(e)
                } else if t[q + 1int].text == ")"@ {
                    ok(3, e, leaf(NodeKindV::Fncall(f, seq![])))
                } else {
                    let a = p_arglist(t, q + 1, e);
                    match a.out {
                        Outcome::Done(args) => ok(2 + a.used, a.env, leaf(NodeKindV::Fncall(f, args))),
                        _ => shift(2, stop_as(a)),
                    }
                }
            } else if t[q as int].text == "["@ {
                if lv is None && gv is None {
                    err(2, e, unknown_variable_msg(name))
                } else {
                    let base = match lv {
                        Some(v) => leaf(NodeKindV::LVar(v)),
                        None => leaf(NodeKindV::GVar(gv->0)),
                    };
                    let i = p_index(t, q + 1, e, base);
                    match i.out {
                        Outcome::Done(n) => ok(
                            2 + i.used,
                            i.env,
                            unary_node(NodeKindV::UnaryOp(UnaryOpKind::Deref), n),
                        ),
                        _ => shift(2, i),
                    }
                }
            } else {
                match lv {
                    Some(v) => ok(1, e, leaf(NodeKindV::LVar(v))),
                    None => match gv {
                        Some(g) => ok(1, e, leaf(NodeKindV::GVar(g))),
                        None => err(1, e, unknown_variable_msg(name)),
                    },
                }
            }
        }
    } else {
        let n = p_expect_number(t, p, e);
        match n.out {
            Outcome::Done(v) => ok(1, n.env, leaf(NodeKindV::Num(v))),
            _ => stop_as(n),
        }
    }
}

/// An index `expr "]"` after a "[", then any further `"[" expr "]"`, each
/// adding to the address in `n`.
#[verifier::opaque]
pub open spec fn p_index(t: Seq<TokenV>, p: nat, e: Env, n: NodeV) -> Step<NodeV>
    decreases remaining(t.len(), p), 21nat,
{
    let x = then_expect(t, p, p_expr(t, p, e), "]"@);
    match x.out {
        Outcome::Done(ix) => {
            let q = p + x.used;
            let m = binary(NodeKindV::BinaryOp(BinaryOpKind::Add), n, ix);
            if q >= t.len() {
                crash(e)
            } else if t[q as int].text == "["@ {
                shift(x.used + 1, p_index(t, q + 1, x.env, m))
            } else {
                ok(x.used, x.env, m)
            }
        },
        _ => x,
    }
}

/// arglist ::= expr ("," expr)* ")"
#[verifier::opaque]
pub open spec fn p_arglist(t: Seq<TokenV>, p: nat, e: Env) -> Step<Seq<NodeV>>
    decreases remaining(t.len(), p), 21nat,
{
    let x = p_expr(t, p, e);
    match x.out {
        Outcome::Done(a) => shift(x.used, p_args_tail(t, p + x.used, x.env, seq![a])),
        _ => stop_as(x),
    }
}

#[verifier::opaque]
pub open spec fn p_args_tail(t: Seq<TokenV>, p: nat, e: Env, acc: Seq<NodeV>) -> Step<Seq<NodeV>>
    decreases remaining(t.len(), p), 1nat,
{
    if p >= t.len() {
        crash(e)
    } else if t[p as int].text == ","@ {
        let x = p_expr(t, p + 1, e);
        match x.out {
            Outcome::Done(a) => shift(1 + x.used, p_args_tail(t, p + 1 + x.used, x.env, acc.push(a))),
            _ => shift(1, stop_as(x)),
        }
    } else {
        let c = p_expect(t, p, e, ")"@);
        match c.out {
            Outcome::Done(_) => ok(1, c.env, acc),
            _ => stop_as(c),
        }
    }
}

/// Law: an additive operator `+` or `-` after an operand makes an arithmetic node
/// whose left operand is what came before, whose right operand is the multiplicative expression
/// after the operator, and whose value is what the operator, read as C, computes.
pub proof fn lemma_additive_meaning(t: Seq<TokenV>, p: nat, e: Env, n: NodeV)
    requires
        p < t.len(),
        t[p as int].text == "+"@ || t[p as int].text == "-"@,
        p_mul(t, p + 1, e).out is Done,
    ensures
        ({
            let r = p_mul(t, p + 1, e);
            let m = r.out->Done_0;
            exists|op: BinaryOpKind|
                #![trigger binary(NodeKindV::BinaryOp(op), n, m)]
                {
                    &&& forall|a: int, b: int| #[trigger] operator_value(t[p as int].text, a, b) == Some(arith_value(op, a, b))
                    &&& p_add_tail(t, p, e, n) == shift(
                        1 + r.used,
                        p_add_tail(t, p + 1 + r.used, r.env, binary(NodeKindV::BinaryOp(op), n, m)),
                    )
                }
        }),
{
    reveal(p_add_tail);
    reveal(p_mul);
    lemma_arith_texts();
    let op = additive_op(t[p as int].text)->Some_0;
    assert(forall|a: int, b: int| #[trigger] operator_value(t[p as int].text, a, b) == Some(arith_value(op, a, b)));
    let r = p_mul(t, p + 1, e);
    let m = r.out->Done_0;
    assert(p_add_tail(t, p, e, n) == shift(
        1 + r.used,
        p_add_tail(t, p + 1 + r.used, r.env, binary(NodeKindV::BinaryOp(op), n, m)),
    ));
}

/// Law: a multiplicative operator `*` or `/` after an operand makes an arithmetic node
/// whose left operand is what came before, whose right operand is the unary expression
/// after the operator, and whose value is what the operator, read as C, computes.
pub proof fn lemma_multiplicative_meaning(t: Seq<TokenV>, p: nat, e: Env, n: NodeV)
    requires
        p < t.len(),
        t[p as int].text == "*"@ || t[p as int].text == "/"@,
        p_unary(t, p + 1, e).out is Done,
    ensures
        ({
            let r = p_unary(t, p + 1, e);
            let m = r.out->Done_0;
            exists|op: BinaryOpKind|
                #![trigger binary(NodeKindV::BinaryOp(op), n, m)]
                {
                    &&& forall|a: int, b: int| #[trigger] operator_value(t[p as int].text, a, b) == Some(arith_value(op, a, b))
                    &&& p_mul_tail(t, p, e, n) == shift(
                        1 + r.used,
                        p_mul_tail(t, p + 1 + r.used, r.env, binary(NodeKindV::BinaryOp(op), n, m)),
                    )
                }
        }),
{
    reveal(p_mul_tail);
    reveal(p_unary);
    lemma_arith_texts();
    let op = multiplicative_op(t[p as int].text)->Some_0;
    assert(forall|a: int, b: int| #[trigger] operator_value(t[p as int].text, a, b) == Some(arith_value(op, a, b)));
    let r = p_unary(t, p + 1, e);
    let m = r.out->Done_0;
    assert(p_mul_tail(t, p, e, n) == shift(
        1 + r.used,
        p_mul_tail(t, p + 1 + r.used, r.env, binary(NodeKindV::BinaryOp(op), n, m)),
    ));
}

/// Law: a unary `-` before a primary expression makes an arithmetic node of
/// the number 0 and that expression, whose value is the negation of the
/// expression's value; a unary `+` leaves the primary expression as it is.
pub proof fn lemma_sign_meaning(t: Seq<TokenV>, p: nat, e: Env)
    requires
        p < t.len(),
        t[p as int].text == "-"@ || t[p as int].text == "+"@,
        p_primary(t, p + 1, e).out is Done,
    ensures
        ({
            let r = p_primary(t, p + 1, e);
            let m = r.out->Done_0;
            &&& t[p as int].text == "+"@ ==> p_unary(t, p, e) == shift(1, r)
            &&& t[p as int].text == "-"@ ==> exists|op: BinaryOpKind|
                #![trigger binary(NodeKindV::BinaryOp(op), leaf(NodeKindV::Num(0)), m)]
                {
                    &&& forall|x: int| #[trigger] arith_value(op, 0, x) == -x
                    &&& p_unary(t, p, e) == ok(1 + r.used, r.env, binary(NodeKindV::BinaryOp(op), leaf(NodeKindV::Num(0)), m))
                }
        }),
{
    reveal(p_unary);
    reveal(p_primary);
    lemma_arith_texts();
    let r = p_primary(t, p + 1, e);
    let m = r.out->Done_0;
    if t[p as int].text == "-"@ {
        let op = BinaryOpKind::Sub;
        assert(forall|x: int| #[trigger] arith_value(op, 0, x) == -x);
        assert(p_unary(t, p, e) == ok(1 + r.used, r.env, binary(NodeKindV::BinaryOp(op), leaf(NodeKindV::Num(0)), m)));
    }
}

} // verus!
