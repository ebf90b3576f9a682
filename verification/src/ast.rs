//! The syntax tree of the C subset, its types, and the typing rule that
//! gives each node its type.
use vstd::prelude::*;

verus! {

#[derive(Debug, Clone, Copy, PartialEq, Eq, Structural)]
pub enum BinaryOpKind {
    Add,
    Sub,
    Mul,
    Div,
}

#[derive(Debug, Clone, Copy, PartialEq, Eq, Structural)]
pub enum UnaryOpKind {
    Ref,
    Deref,
}

#[derive(Debug, Clone, Copy, PartialEq, Eq, Structural)]
pub enum ComparisonOpKind {
    Eq,
    Nq,
    Lt,
    Le,
    Gt,
    Ge,
}

#[derive(Debug, Clone, Copy, PartialEq, Eq, Structural)]
pub enum TypeKind {
    Int,
    Ptr,
    Arr,
    Char,
}

/// A type: `int`, `char`, a pointer to `ptr_to`, or an array of `arr_size`
/// elements of type `ptr_to`.
#[derive(Debug, PartialEq, Eq)]
pub struct Type {
    pub kind: TypeKind,
    pub ptr_to: Option<Box<Type>>,
    pub arr_size: usize,
}

impl Clone for Type {
    fn clone(&self) -> (r: Self)
        ensures
            r == *self,
        decreases self,
    {
        let ptr_to = match &self.ptr_to {
            Some(b) => Some(Box::new((**b).clone())),
            None => None,
        };
        Type { kind: self.kind, ptr_to, arr_size: self.arr_size }
    }
}

/// What a comparison node means in C, on the values `a` of its left operand
/// and `b` of its right operand.
pub open spec fn compare_holds(op: ComparisonOpKind, a: int, b: int) -> bool {
    match op {
        ComparisonOpKind::Eq => a == b,
        ComparisonOpKind::Nq => a != b,
        ComparisonOpKind::Lt => a < b,
        ComparisonOpKind::Le => a <= b,
        ComparisonOpKind::Gt => a > b,
        ComparisonOpKind::Ge => a >= b,
    }
}

/// C's integer division: the quotient rounded toward zero.
pub open spec fn trunc_div(a: int, b: int) -> int {
    let q = (if a < 0 { -a } else { a }) / (if b < 0 { -b } else { b });
    if (a < 0) != (b < 0) {
        -q
    } else {
        q
    }
}

/// What an arithmetic node means in C, on the values `a` of its left operand
/// and `b` of its right operand.
pub open spec fn arith_value(op: BinaryOpKind, a: int, b: int) -> int {
    match op {
        BinaryOpKind::Add => a + b,
        BinaryOpKind::Sub => a - b,
        BinaryOpKind::Mul => a * b,
        BinaryOpKind::Div => trunc_div(a, b),
    }
}

pub open spec fn int_type() -> Type {
    Type { kind: TypeKind::Int, ptr_to: None, arr_size: 1 }
}

pub open spec fn char_type() -> Type {
    Type { kind: TypeKind::Char, ptr_to: None, arr_size: 1 }
}

pub open spec fn ptr_type(to: Type) -> Type {
    Type { kind: TypeKind::Ptr, ptr_to: Some(Box::new(to)), arr_size: 1 }
}

pub open spec fn array_type(n: usize, elem: Type) -> Type {
    Type { kind: TypeKind::Arr, ptr_to: Some(Box::new(elem)), arr_size: n }
}

pub fn new_int_type() -> (t: Type)
    ensures
        t == int_type(),
{
    Type { kind: TypeKind::Int, ptr_to: None, arr_size: 1 }
}

/// The size of a type in bytes: `char` 1, `int` 4, a pointer 8, an array its
/// length times the size of its element.
pub open spec fn type_size(ty: Type) -> nat
    decreases ty,
{
    match ty.kind {
        TypeKind::Char => 1,
        TypeKind::Int => 4,
        TypeKind::Ptr => 8,
        TypeKind::Arr => match ty.ptr_to {
            Some(e) => (ty.arr_size as nat) * type_size(*e),
            None => 0,
        },
    }
}

/// Whether `get_type_size` returns for `ty`: every array has an element type,
/// and no product overflows `usize`.
pub open spec fn size_computable(ty: Type) -> bool
    decreases ty,
{
    match ty.kind {
        TypeKind::Arr => match ty.ptr_to {
            Some(e) => size_computable(*e) && ty.arr_size * type_size(*e) <= usize::MAX,
            None => false,
        },
        _ => true,
    }
}

/// The size of `ty`, or `None` where computing it panics.
pub fn type_size_checked(ty: &Type) -> (r: Option<usize>)
    ensures
        r == (if size_computable(*ty) {
            Some(type_size(*ty) as usize)
        } else {
            None::<usize>
        }),
        size_computable(*ty) ==> type_size(*ty) <= usize::MAX,
    decreases ty,
{
    match ty.kind {
        TypeKind::Char => Some(1),
        TypeKind::Int => Some(4),
        TypeKind::Ptr => Some(8),
        TypeKind::Arr => match &ty.ptr_to {
            Some(e) => match type_size_checked(e) {
                Some(n) => ty.arr_size.checked_mul(n),
                None => None,
            },
            None => None,
        },
    }
}

/// The size of `ty` in bytes.
pub fn get_type_size(ty: &Type) -> (r: usize)
    requires
        size_computable(*ty),
    ensures
        r == type_size(*ty),
{
    match type_size_checked(ty) {
        Some(n) => n,
        None => 0,
    }
}

#[derive(Debug, PartialEq)]
pub struct LVar {
    pub name: String,
    pub offset: usize,
    pub ty: Type,
}

#[derive(Debug, PartialEq)]
pub struct GVar {
    pub name: String,
    pub ty: Type,
}

#[derive(Debug, PartialEq)]
pub struct Function {
    pub name: String,
    pub stack_size: usize,
    pub ty: Type,
}

pub ghost struct LVarV {
    pub name: Seq<char>,
    pub offset: nat,
    pub ty: Type,
}

pub ghost struct GVarV {
    pub name: Seq<char>,
    pub ty: Type,
}

pub ghost struct FunctionV {
    pub name: Seq<char>,
    pub stack_size: nat,
    pub ty: Type,
}

impl View for LVar {
    type V = LVarV;

    open spec fn view(&self) -> LVarV {
        LVarV { name: self.name@, offset: self.offset as nat, ty: self.ty }
    }
}

impl View for GVar {
    type V = GVarV;

    open spec fn view(&self) -> GVarV {
        GVarV { name: self.name@, ty: self.ty }
    }
}

impl View for Function {
    type V = FunctionV;

    open spec fn view(&self) -> FunctionV {
        FunctionV { name: self.name@, stack_size: self.stack_size as nat, ty: self.ty }
    }
}

impl Clone for LVar {
    fn clone(&self) -> (r: Self)
        ensures
            r@ == self@,
    {
        LVar { name: self.name.clone(), offset: self.offset, ty: self.ty.clone() }
    }
}

impl Clone for GVar {
    fn clone(&self) -> (r: Self)
        ensures
            r@ == self@,
    {
        GVar { name: self.name.clone(), ty: self.ty.clone() }
    }
}

impl Clone for Function {
    fn clone(&self) -> (r: Self)
        ensures
            r@ == self@,
    {
        Function { name: self.name.clone(), stack_size: self.stack_size, ty: self.ty.clone() }
    }
}

#[derive(Debug, PartialEq)]
pub enum NodeKind {
    BinaryOp(BinaryOpKind),
    UnaryOp(UnaryOpKind),
    Comparison(ComparisonOpKind),
    Num(i32),
    LVar(LVar),
    GVar(GVar),
    GVarDef(GVar),
    Assign,
    Return,
    Block(Vec<Node>),
    Fncall(Function, Vec<Node>),
    Fndef(Function, Vec<Node>),
    For,
    While,
    If,
    Else,
}

#[derive(Debug, PartialEq)]
pub struct Node {
    pub kind: NodeKind,
    pub lhs: Option<Box<Node>>,
    pub rhs: Option<Box<Node>>,
    pub ty: Type,
}

pub ghost enum NodeKindV {
    BinaryOp(BinaryOpKind),
    UnaryOp(UnaryOpKind),
    Comparison(ComparisonOpKind),
    Num(i32),
    LVar(LVarV),
    GVar(GVarV),
    GVarDef(GVarV),
    Assign,
    Return,
    Block(Seq<NodeV>),
    Fncall(FunctionV, Seq<NodeV>),
    Fndef(FunctionV, Seq<NodeV>),
    For,
    While,
    If,
    Else,
}

pub ghost struct NodeV {
    pub kind: NodeKindV,
    pub lhs: Option<Box<NodeV>>,
    pub rhs: Option<Box<NodeV>>,
    pub ty: Type,
}

pub open spec fn node_v(n: Node) -> NodeV
    decreases n,
{
    NodeV { kind: kind_v(n.kind), lhs: opt_node_v(n.lhs), rhs: opt_node_v(n.rhs), ty: n.ty }
}

pub open spec fn opt_node_v(o: Option<Box<Node>>) -> Option<Box<NodeV>>
    decreases o,
{
    match o {
        Some(b) => Some(Box::new(node_v(*b))),
        None => None,
    }
}

pub open spec fn kind_v(k: NodeKind) -> NodeKindV
    decreases k,
{
    match k {
        NodeKind::BinaryOp(op) => NodeKindV::BinaryOp(op),
        NodeKind::UnaryOp(op) => NodeKindV::UnaryOp(op),
        NodeKind::Comparison(op) => NodeKindV::Comparison(op),
        NodeKind::Num(v) => NodeKindV::Num(v),
        NodeKind::LVar(v) => NodeKindV::LVar(v@),
        NodeKind::GVar(g) => NodeKindV::GVar(g@),
        NodeKind::GVarDef(g) => NodeKindV::GVarDef(g@),
        NodeKind::Assign => NodeKindV::Assign,
        NodeKind::Return => NodeKindV::Return,
        NodeKind::Block(v) => NodeKindV::Block(nodes_v(v@)),
        NodeKind::Fncall(f, v) => NodeKindV::Fncall(f@, nodes_v(v@)),
        NodeKind::Fndef(f, v) => NodeKindV::Fndef(f@, nodes_v(v@)),
        NodeKind::For => NodeKindV::For,
        NodeKind::While => NodeKindV::While,
        NodeKind::If => NodeKindV::If,
        NodeKind::Else => NodeKindV::Else,
    }
}

pub open spec fn nodes_v(s: Seq<Node>) -> Seq<NodeV>
    decreases s,
{
    if s.len() == 0 {
        Seq::empty()
    } else {
        nodes_v(s.drop_last()).push(node_v(s.last()))
    }
}

impl View for Node {
    type V = NodeV;

    open spec fn view(&self) -> NodeV {
        node_v(*self)
    }
}

/// Lemma: the view of a node, one level down.
pub proof fn lemma_node_view(n: Node)
    ensures
        n@.kind == kind_v(n.kind),
        n@.ty == n.ty,
        n@.lhs == (match n.lhs {
            Some(b) => Some(Box::new(node_v(*b))),
            None => None::<Box<NodeV>>,
        }),
        n@.rhs == (match n.rhs {
            Some(b) => Some(Box::new(node_v(*b))),
            None => None::<Box<NodeV>>,
        }),
{
}

pub proof fn lemma_nodes_v_push(s: Seq<Node>, n: Node)
    ensures
        nodes_v(s.push(n)) == nodes_v(s).push(node_v(n)),
{
    assert(s.push(n).drop_last() =~= s);
}

pub proof fn lemma_nodes_v_len(s: Seq<Node>)
    ensures
        nodes_v(s).len() == s.len(),
        forall|i: int| 0 <= i < s.len() ==> #[trigger] nodes_v(s)[i] == node_v(s[i]),
    decreases s.len(),
{
    if s.len() > 0 {
        lemma_nodes_v_len(s.drop_last());
    }
}

/// After adding an index to a pointer or an array: a pointer to an array
/// steps to the inner array type, any other type stays.
pub open spec fn index_step(ty: Type) -> Type {
    match ty.ptr_to {
        Some(inner) => if inner.kind == TypeKind::Arr {
            *inner
        } else {
            ty
        },
        None => ty,
    }
}

pub open spec fn is_pointer_like(k: TypeKind) -> bool {
    k == TypeKind::Ptr || k == TypeKind::Arr
}

/// The type a node gets from its kind and its operands.
pub open spec fn node_type(kind: NodeKindV, lhs: Option<Box<NodeV>>, rhs: Option<Box<NodeV>>) -> Type {
    match kind {
        NodeKindV::BinaryOp(op) => if op == BinaryOpKind::Add || op == BinaryOpKind::Sub {
            match (lhs, rhs) {
                (Some(l), Some(r)) => if is_pointer_like(l.ty.kind) && r.ty.kind == TypeKind::Int {
                    index_step(l.ty)
                } else if l.ty.kind == TypeKind::Int && is_pointer_like(r.ty.kind) {
                    index_step(r.ty)
                } else {
                    int_type()
                },
                _ => int_type(),
            }
        } else {
            int_type()
        },
        NodeKindV::UnaryOp(UnaryOpKind::Ref) => Type {
            kind: TypeKind::Ptr,
            ptr_to: match lhs {
                Some(l) => Some(Box::new(l.ty)),
                None => None,
            },
            arr_size: 1,
        },
        NodeKindV::UnaryOp(UnaryOpKind::Deref) => match lhs {
            Some(l) => if is_pointer_like(l.ty.kind) {
                match l.ty.ptr_to {
                    Some(p) => *p,
                    None => int_type(),
                }
            } else {
                int_type()
            },
            None => int_type(),
        },
        NodeKindV::LVar(v) => v.ty,
        NodeKindV::GVar(g) => g.ty,
        NodeKindV::GVarDef(g) => g.ty,
        NodeKindV::Assign => match lhs {
            Some(l) => l.ty,
            None => int_type(),
        },
        NodeKindV::Fncall(f, _) => f.ty,
        NodeKindV::Fndef(f, _) => f.ty,
        _ => int_type(),
    }
}

/// A node with the type that its kind and operands give it.
pub open spec fn mk_node(kind: NodeKindV, lhs: Option<Box<NodeV>>, rhs: Option<Box<NodeV>>) -> NodeV {
    NodeV { kind, lhs, rhs, ty: node_type(kind, lhs, rhs) }
}

/// Law: subtracting is typed as adding; a pointer or an array moved by an
/// integer, either way round, stays a pointer or an array, whose pointee
/// type is the element type of the operand; any other arithmetic is `int`.
pub proof fn lemma_arithmetic_type(l: NodeV, r: NodeV)
    ensures
        node_type(NodeKindV::BinaryOp(BinaryOpKind::Sub), Some(Box::new(l)), Some(Box::new(r)))
            == node_type(NodeKindV::BinaryOp(BinaryOpKind::Add), Some(Box::new(l)), Some(Box::new(r))),
        ({
            let ty = node_type(NodeKindV::BinaryOp(BinaryOpKind::Add), Some(Box::new(l)), Some(Box::new(r)));
            if (l.ty.kind == TypeKind::Ptr || l.ty.kind == TypeKind::Arr) && r.ty.kind == TypeKind::Int {
                &&& (ty.kind == TypeKind::Ptr || ty.kind == TypeKind::Arr)
                &&& (ty == l.ty || Some(Box::new(ty)) == l.ty.ptr_to)
            } else if l.ty.kind == TypeKind::Int && (r.ty.kind == TypeKind::Ptr || r.ty.kind == TypeKind::Arr) {
                &&& (ty.kind == TypeKind::Ptr || ty.kind == TypeKind::Arr)
                &&& (ty == r.ty || Some(Box::new(ty)) == r.ty.ptr_to)
            } else {
                ty == (Type { kind: TypeKind::Int, ptr_to: None, arr_size: 1 })
            }
        }),
        node_type(NodeKindV::BinaryOp(BinaryOpKind::Mul), Some(Box::new(l)), Some(Box::new(r)))
            == (Type { kind: TypeKind::Int, ptr_to: None, arr_size: 1 }),
        node_type(NodeKindV::BinaryOp(BinaryOpKind::Div), Some(Box::new(l)), Some(Box::new(r)))
            == (Type { kind: TypeKind::Int, ptr_to: None, arr_size: 1 }),
{
}

fn index_step_of(ty: &Type) -> (r: Type)
    ensures
        r == index_step(*ty),
{
    match &ty.ptr_to {
        Some(inner) => if inner.kind == TypeKind::Arr {
            (**inner).clone()
        } else {
            ty.clone()
        },
        None => ty.clone(),
    }
}

/// Builds a node, its type given by `node_type`.
pub fn create_new_node(kind: NodeKind, lhs: Option<Box<Node>>, rhs: Option<Box<Node>>) -> (r: Node)
    ensures
        r@ == mk_node(kind_v(kind), opt_node_v(lhs), opt_node_v(rhs)),
{
    let ty = match &kind {
        NodeKind::BinaryOp(op) => match op {
            BinaryOpKind::Add | BinaryOpKind::Sub => {
                match (&lhs, &rhs) {
                    (Some(l), Some(r)) => {
                        let lk = l.ty.kind;
                        let rk = r.ty.kind;
                        if (lk == TypeKind::Ptr || lk == TypeKind::Arr) && rk == TypeKind::Int {
                            index_step_of(&l.ty)
                        } else if lk == TypeKind::Int && (rk == TypeKind::Ptr || rk
                            == TypeKind::Arr) {
                            index_step_of(&r.ty)
                        } else {
                            new_int_type()
                        }
                    },
                    _ => new_int_type(),
                }
            },
            BinaryOpKind::Mul | BinaryOpKind::Div => new_int_type(),
        },
        NodeKind::UnaryOp(op) => match op {
            UnaryOpKind::Ref => match &lhs {
                Some(l) => Type { kind: TypeKind::Ptr, ptr_to: Some(Box::new(l.ty.clone())), arr_size: 1 },
                None => Type { kind: TypeKind::Ptr, ptr_to: None, arr_size: 1 },
            },
            UnaryOpKind::Deref => match &lhs {
                Some(l) => if l.ty.kind == TypeKind::Ptr || l.ty.kind == TypeKind::Arr {
                    match &l.ty.ptr_to {
                        Some(p) => (**p).clone(),
                        None => new_int_type(),
                    }
                } else {
                    new_int_type()
                },
                None => new_int_type(),
            },
        },
        NodeKind::LVar(v) => v.ty.clone(),
        NodeKind::GVar(g) => g.ty.clone(),
        NodeKind::GVarDef(g) => g.ty.clone(),
        NodeKind::Assign => match &lhs {
            Some(l) => l.ty.clone(),
            None => new_int_type(),
        },
        NodeKind::Fncall(f, _) => f.ty.clone(),
        NodeKind::Fndef(f, _) => f.ty.clone(),
        _ => new_int_type(),
    };
    Node { kind, lhs, rhs, ty }
}

} // verus!
