use crate::position::Position;
use crate::tokens::{TToken, TTokenV};
use crate::types::{Date, TypeV, VariableType};
use vstd::prelude::*;

verus! {

/// A node of the syntax tree. A real literal keeps its source text.
#[derive(Debug, PartialEq)]
#[allow(inconsistent_fields)]
pub enum Node {
    Main { children: Vec<Box<Node>> },
    Class { name: Box<Node>, base: Box<Node>, children: Vec<Box<Node>>, pos: Position },
    Function { name: Box<Node>, private: bool, params: Vec<Box<Node>>, return_type: Box<VariableType>, children: Vec<Box<Node>>, pos: Position },
    Procedure { name: Box<Node>, private: bool, params: Vec<Box<Node>>, children: Vec<Box<Node>>, pos: Position },
    CreateObject { call: Box<Node>, pos: Position },
    Int { val: i64, pos: Position },
    String { val: String, pos: Position },
    Boolean { val: bool, pos: Position },
    Real { val: String, pos: Position },
    Date { val: Date, pos: Position },
    Var { name: String, pos: Position },
    Const { name: String, val: Box<Node>, pos: Position },
    PointerDef { name: String, ref_to: Box<VariableType>, pos: Position },
    Enum { name: String, variants: Vec<Box<Node>>, pos: Position },
    Record { name: Box<Node>, children: Vec<Box<Node>>, pos: Position },
    Composite { children: Vec<Box<Node>>, pos: Position },
    ArrayVar { name: String, indices: Vec<Box<Node>>, pos: Position },
    Range { start: Box<Node>, end: Box<Node>, pos: Position },
    Declare { t: Box<VariableType>, children: Vec<String>, byref: bool, private: bool, pos: Position },
    Assignment { lhs: Box<Node>, rhs: Box<Node>, pos: Position },
    FunctionCall { name: String, params: Vec<Box<Node>>, pos: Position },
    While { cond: Box<Node>, body: Vec<Box<Node>>, pos: Position },
    Repeat { cond: Box<Node>, body: Vec<Box<Node>>, pos: Position },
    For { iter: Box<Node>, range: Box<Node>, step: Box<Node>, body: Vec<Box<Node>>, pos: Position },
    Unary { op: String, expr: Box<Node>, pos: Position },
    Binary { op: String, lhs: Box<Node>, rhs: Box<Node>, pos: Position },
    Output { children: Vec<Box<Node>>, pos: Position },
    Input { child: Box<Node>, pos: Position },
    OpenFile { filename: Box<Node>, mode: TToken, pos: Position },
    CloseFile { filename: Box<Node>, pos: Position },
    ReadFile { filename: Box<Node>, var: Box<Node>, pos: Position },
    WriteFile { filename: Box<Node>, expr: Box<Node>, pos: Position },
    SeekFile { filename: Box<Node>, expr: Box<Node>, pos: Position },
    PutRecord { filename: Box<Node>, var: Box<Node>, pos: Position },
    GetRecord { filename: Box<Node>, var: Box<Node>, pos: Position },
    Return { expr: Box<Node>, pos: Position },
    Reference { expr: Box<Node>, pos: Position },
    Dereference { expr: Box<Node>, pos: Position },
    If { cond: Box<Node>, true_body: Vec<Box<Node>>, false_body: Vec<Box<Node>>, pos: Position },
    Switch { subject: Box<Node>, cases: Vec<Box<Node>>, otherwise: Vec<Box<Node>>, pos: Position },
    Case { expr: Box<Node>, children: Vec<Box<Node>>, pos: Position },
    Null,
}

/// The mathematical value of a syntax tree: lists become sequences, names character sequences.
#[allow(inconsistent_fields)]
pub enum NodeV {
    Main { children: Seq<NodeV> },
    Class { name: Box<NodeV>, base: Box<NodeV>, children: Seq<NodeV>, pos: Position },
    Function { name: Box<NodeV>, private: bool, params: Seq<NodeV>, return_type: TypeV, children: Seq<NodeV>, pos: Position },
    Procedure { name: Box<NodeV>, private: bool, params: Seq<NodeV>, children: Seq<NodeV>, pos: Position },
    CreateObject { call: Box<NodeV>, pos: Position },
    Int { val: i64, pos: Position },
    String { val: Seq<char>, pos: Position },
    Boolean { val: bool, pos: Position },
    Real { val: Seq<char>, pos: Position },
    Date { val: Date, pos: Position },
    Var { name: Seq<char>, pos: Position },
    Const { name: Seq<char>, val: Box<NodeV>, pos: Position },
    PointerDef { name: Seq<char>, ref_to: TypeV, pos: Position },
    Enum { name: Seq<char>, variants: Seq<NodeV>, pos: Position },
    Record { name: Box<NodeV>, children: Seq<NodeV>, pos: Position },
    Composite { children: Seq<NodeV>, pos: Position },
    ArrayVar { name: Seq<char>, indices: Seq<NodeV>, pos: Position },
    Range { start: Box<NodeV>, end: Box<NodeV>, pos: Position },
    Declare { t: TypeV, children: Seq<Seq<char>>, byref: bool, private: bool, pos: Position },
    Assignment { lhs: Box<NodeV>, rhs: Box<NodeV>, pos: Position },
    FunctionCall { name: Seq<char>, params: Seq<NodeV>, pos: Position },
    While { cond: Box<NodeV>, body: Seq<NodeV>, pos: Position },
    Repeat { cond: Box<NodeV>, body: Seq<NodeV>, pos: Position },
    For { iter: Box<NodeV>, range: Box<NodeV>, step: Box<NodeV>, body: Seq<NodeV>, pos: Position },
    Unary { op: Seq<char>, expr: Box<NodeV>, pos: Position },
    Binary { op: Seq<char>, lhs: Box<NodeV>, rhs: Box<NodeV>, pos: Position },
    Output { children: Seq<NodeV>, pos: Position },
    Input { child: Box<NodeV>, pos: Position },
    OpenFile { filename: Box<NodeV>, mode: TTokenV, pos: Position },
    CloseFile { filename: Box<NodeV>, pos: Position },
    ReadFile { filename: Box<NodeV>, var: Box<NodeV>, pos: Position },
    WriteFile { filename: Box<NodeV>, expr: Box<NodeV>, pos: Position },
    SeekFile { filename: Box<NodeV>, expr: Box<NodeV>, pos: Position },
    PutRecord { filename: Box<NodeV>, var: Box<NodeV>, pos: Position },
    GetRecord { filename: Box<NodeV>, var: Box<NodeV>, pos: Position },
    Return { expr: Box<NodeV>, pos: Position },
    Reference { expr: Box<NodeV>, pos: Position },
    Dereference { expr: Box<NodeV>, pos: Position },
    If { cond: Box<NodeV>, true_body: Seq<NodeV>, false_body: Seq<NodeV>, pos: Position },
    Switch { subject: Box<NodeV>, cases: Seq<NodeV>, otherwise: Seq<NodeV>, pos: Position },
    Case { expr: Box<NodeV>, children: Seq<NodeV>, pos: Position },
    Null,
}

pub open spec fn node_views(s: Seq<Box<Node>>) -> Seq<NodeV>
    decreases s,
{
    if s.len() == 0 {
        Seq::empty()
    } else {
        proof {
            assert(decreases_to!(s => s[s.len() - 1]));
        }
        node_views(s.drop_last()).push((*s.last()).view())
    }
}

pub proof fn lemma_node_views(s: Seq<Box<Node>>)
    ensures
        node_views(s).len() == s.len(),
        forall|k: int| 0 <= k < s.len() ==> #[trigger] node_views(s)[k] == (*s[k])@,
    decreases s.len(),
{
    if s.len() == 0 {
        assert(node_views(s) == Seq::<NodeV>::empty());
    } else {
        lemma_node_views(s.drop_last());
        assert(node_views(s) == node_views(s.drop_last()).push((*s.last())@));
        assert forall|k: int| 0 <= k < s.len() implies #[trigger] node_views(s)[k] == (*s[k])@ by {
            if k < s.len() - 1 {
                assert(s.drop_last()[k] == s[k]);
            }
        }
    }
}

/// Views of a list with one more node.
pub proof fn lemma_node_views_push(s: Seq<Box<Node>>, x: Box<Node>)
    ensures
        node_views(s.push(x)) == node_views(s).push((*x)@),
{
    lemma_node_views(s);
    lemma_node_views(s.push(x));
    assert(node_views(s.push(x)) =~= node_views(s).push((*x)@));
}

pub open spec fn names_view(s: Seq<String>) -> Seq<Seq<char>> {
    s.map_values(|n: String| n@)
}

impl View for Node {
    type V = NodeV;

    open spec fn view(&self) -> NodeV
        decreases self,
    {
        match self {
            Node::Main { children } => NodeV::Main { children: node_views(children@) },
            Node::Class { name, base, children, pos } => NodeV::Class { name: Box::new((**name).view()), base: Box::new((**base).view()), children: node_views(children@), pos: *pos },
            Node::Function { name, private, params, return_type, children, pos } => NodeV::Function { name: Box::new((**name).view()), private: *private, params: node_views(params@), return_type: (**return_type).view(), children: node_views(children@), pos: *pos },
            Node::Procedure { name, private, params, children, pos } => NodeV::Procedure { name: Box::new((**name).view()), private: *private, params: node_views(params@), children: node_views(children@), pos: *pos },
            Node::CreateObject { call, pos } => NodeV::CreateObject { call: Box::new((**call).view()), pos: *pos },
            Node::Int { val, pos } => NodeV::Int { val: *val, pos: *pos },
            Node::String { val, pos } => NodeV::String { val: val@, pos: *pos },
            Node::Boolean { val, pos } => NodeV::Boolean { val: *val, pos: *pos },
            Node::Real { val, pos } => NodeV::Real { val: val@, pos: *pos },
            Node::Date { val, pos } => NodeV::Date { val: *val, pos: *pos },
            Node::Var { name, pos } => NodeV::Var { name: name@, pos: *pos },
            Node::Const { name, val, pos } => NodeV::Const { name: name@, val: Box::new((**val).view()), pos: *pos },
            Node::PointerDef { name, ref_to, pos } => NodeV::PointerDef { name: name@, ref_to: (**ref_to).view(), pos: *pos },
            Node::Enum { name, variants, pos } => NodeV::Enum { name: name@, variants: node_views(variants@), pos: *pos },
            Node::Record { name, children, pos } => NodeV::Record { name: Box::new((**name).view()), children: node_views(children@), pos: *pos },
            Node::Composite { children, pos } => NodeV::Composite { children: node_views(children@), pos: *pos },
            Node::ArrayVar { name, indices, pos } => NodeV::ArrayVar { name: name@, indices: node_views(indices@), pos: *pos },
            Node::Range { start, end, pos } => NodeV::Range { start: Box::new((**start).view()), end: Box::new((**end).view()), pos: *pos },
            Node::Declare { t, children, byref, private, pos } => NodeV::Declare { t: (**t).view(), children: names_view(children@), byref: *byref, private: *private, pos: *pos },
            Node::Assignment { lhs, rhs, pos } => NodeV::Assignment { lhs: Box::new((**lhs).view()), rhs: Box::new((**rhs).view()), pos: *pos },
            Node::FunctionCall { name, params, pos } => NodeV::FunctionCall { name: name@, params: node_views(params@), pos: *pos },
            Node::While { cond, body, pos } => NodeV::While { cond: Box::new((**cond).view()), body: node_views(body@), pos: *pos },
            Node::Repeat { cond, body, pos } => NodeV::Repeat { cond: Box::new((**cond).view()), body: node_views(body@), pos: *pos },
            Node::For { iter, range, step, body, pos } => NodeV::For { iter: Box::new((**iter).view()), range: Box::new((**range).view()), step: Box::new((**step).view()), body: node_views(body@), pos: *pos },
            Node::Unary { op, expr, pos } => NodeV::Unary { op: op@, expr: Box::new((**expr).view()), pos: *pos },
            Node::Binary { op, lhs, rhs, pos } => NodeV::Binary { op: op@, lhs: Box::new((**lhs).view()), rhs: Box::new((**rhs).view()), pos: *pos },
            Node::Output { children, pos } => NodeV::Output { children: node_views(children@), pos: *pos },
            Node::Input { child, pos } => NodeV::Input { child: Box::new((**child).view()), pos: *pos },
            Node::OpenFile { filename, mode, pos } => NodeV::OpenFile { filename: Box::new((**filename).view()), mode: mode@, pos: *pos },
            Node::CloseFile { filename, pos } => NodeV::CloseFile { filename: Box::new((**filename).view()), pos: *pos },
            Node::ReadFile { filename, var, pos } => NodeV::ReadFile { filename: Box::new((**filename).view()), var: Box::new((**var).view()), pos: *pos },
            Node::WriteFile { filename, expr, pos } => NodeV::WriteFile { filename: Box::new((**filename).view()), expr: Box::new((**expr).view()), pos: *pos },
            Node::SeekFile { filename, expr, pos } => NodeV::SeekFile { filename: Box::new((**filename).view()), expr: Box::new((**expr).view()), pos: *pos },
            Node::PutRecord { filename, var, pos } => NodeV::PutRecord { filename: Box::new((**filename).view()), var: Box::new((**var).view()), pos: *pos },
            Node::GetRecord { filename, var, pos } => NodeV::GetRecord { filename: Box::new((**filename).view()), var: Box::new((**var).view()), pos: *pos },
            Node::Return { expr, pos } => NodeV::Return { expr: Box::new((**expr).view()), pos: *pos },
            Node::Reference { expr, pos } => NodeV::Reference { expr: Box::new((**expr).view()), pos: *pos },
            Node::Dereference { expr, pos } => NodeV::Dereference { expr: Box::new((**expr).view()), pos: *pos },
            Node::If { cond, true_body, false_body, pos } => NodeV::If { cond: Box::new((**cond).view()), true_body: node_views(true_body@), false_body: node_views(false_body@), pos: *pos },
            Node::Switch { subject, cases, otherwise, pos } => NodeV::Switch { subject: Box::new((**subject).view()), cases: node_views(cases@), otherwise: node_views(otherwise@), pos: *pos },
            Node::Case { expr, children, pos } => NodeV::Case { expr: Box::new((**expr).view()), children: node_views(children@), pos: *pos },
            Node::Null => NodeV::Null,
        }
    }
}

/// A copy of a list of names.
pub fn clone_names(v: &Vec<String>) -> (r: Vec<String>)
    ensures
        names_view(r@) == names_view(v@),
{
    let mut r: Vec<String> = Vec::new();
    let mut k: usize = 0;
    while k < v.len()
        invariant
            k <= v.len(),
            names_view(r@) == names_view(v@.take(k as int)),
            r.len() == k,
        decreases v.len() - k,
    {
        let c = v[k].clone();
        let ghost old_r = r@;
        r.push(c);
        proof {
            assert(r@ =~= old_r.push(v@[k as int]));
            assert(v@.take(k + 1) =~= v@.take(k as int).push(v@[k as int]));
            let a = names_view(r@);
            let b = names_view(v@.take(k + 1));
            let pa = names_view(old_r);
            let pb = names_view(v@.take(k as int));
            assert forall|j: int| 0 <= j < a.len() implies a[j] == b[j] by {
                if j < k {
                    assert(a[j] == pa[j]);
                    assert(b[j] == pb[j]);
                }
            }
            assert(a =~= b);
        }
        k = k + 1;
    }
    proof {
        assert(v@.take(k as int) =~= v@);
    }
    r
}

/// A deep copy of a list of nodes.
pub fn clone_nodes(v: &Vec<Box<Node>>) -> (r: Vec<Box<Node>>)
    ensures
        node_views(r@) == node_views(v@),
    decreases v,
{
    let mut r: Vec<Box<Node>> = Vec::new();
    let mut k: usize = 0;
    proof {
        assert(v@.take(0) =~= Seq::<Box<Node>>::empty());
    }
    while k < v.len()
        invariant
            k <= v.len(),
            node_views(r@) == node_views(v@.take(k as int)),
        decreases v.len() - k,
    {
        proof {
            assert(decreases_to!(v => v@[k as int]));
        }
        let c = (*v[k]).clone();
        let ghost old_r = r@;
        r.push(Box::new(c));
        proof {
            assert(r@.drop_last() =~= old_r);
            assert(v@.take(k + 1).drop_last() =~= v@.take(k as int));
        }
        k = k + 1;
    }
    proof {
        assert(v@.take(k as int) =~= v@);
    }
    r
}

impl Clone for Node {
    fn clone(&self) -> (res: Self)
        ensures
            res@ == self@,
        decreases self,
    {
        match self {
            Node::Main { children } => Node::Main { children: clone_nodes(children) },
            Node::Class { name, base, children, pos } => Node::Class { name: Box::new((**name).clone()), base: Box::new((**base).clone()), children: clone_nodes(children), pos: *pos },
            Node::Function { name, private, params, return_type, children, pos } => Node::Function { name: Box::new((**name).clone()), private: *private, params: clone_nodes(params), return_type: Box::new((**return_type).clone()), children: clone_nodes(children), pos: *pos },
            Node::Procedure { name, private, params, children, pos } => Node::Procedure { name: Box::new((**name).clone()), private: *private, params: clone_nodes(params), children: clone_nodes(children), pos: *pos },
            Node::CreateObject { call, pos } => Node::CreateObject { call: Box::new((**call).clone()), pos: *pos },
            Node::Int { val, pos } => Node::Int { val: *val, pos: *pos },
            Node::String { val, pos } => Node::String { val: val.clone(), pos: *pos },
            Node::Boolean { val, pos } => Node::Boolean { val: *val, pos: *pos },
            Node::Real { val, pos } => Node::Real { val: val.clone(), pos: *pos },
            Node::Date { val, pos } => Node::Date { val: *val, pos: *pos },
            Node::Var { name, pos } => Node::Var { name: name.clone(), pos: *pos },
            Node::Const { name, val, pos } => Node::Const { name: name.clone(), val: Box::new((**val).clone()), pos: *pos },
            Node::PointerDef { name, ref_to, pos } => Node::PointerDef { name: name.clone(), ref_to: Box::new((**ref_to).clone()), pos: *pos },
            Node::Enum { name, variants, pos } => Node::Enum { name: name.clone(), variants: clone_nodes(variants), pos: *pos },
            Node::Record { name, children, pos } => Node::Record { name: Box::new((**name).clone()), children: clone_nodes(children), pos: *pos },
            Node::Composite { children, pos } => Node::Composite { children: clone_nodes(children), pos: *pos },
            Node::ArrayVar { name, indices, pos } => Node::ArrayVar { name: name.clone(), indices: clone_nodes(indices), pos: *pos },
            Node::Range { start, end, pos } => Node::Range { start: Box::new((**start).clone()), end: Box::new((**end).clone()), pos: *pos },
            Node::Declare { t, children, byref, private, pos } => Node::Declare { t: Box::new((**t).clone()), children: clone_names(children), byref: *byref, private: *private, pos: *pos },
            Node::Assignment { lhs, rhs, pos } => Node::Assignment { lhs: Box::new((**lhs).clone()), rhs: Box::new((**rhs).clone()), pos: *pos },
            Node::FunctionCall { name, params, pos } => Node::FunctionCall { name: name.clone(), params: clone_nodes(params), pos: *pos },
            Node::While { cond, body, pos } => Node::While { cond: Box::new((**cond).clone()), body: clone_nodes(body), pos: *pos },
            Node::Repeat { cond, body, pos } => Node::Repeat { cond: Box::new((**cond).clone()), body: clone_nodes(body), pos: *pos },
            Node::For { iter, range, step, body, pos } => Node::For { iter: Box::new((**iter).clone()), range: Box::new((**range).clone()), step: Box::new((**step).clone()), body: clone_nodes(body), pos: *pos },
            Node::Unary { op, expr, pos } => Node::Unary { op: op.clone(), expr: Box::new((**expr).clone()), pos: *pos },
            Node::Binary { op, lhs, rhs, pos } => Node::Binary { op: op.clone(), lhs: Box::new((**lhs).clone()), rhs: Box::new((**rhs).clone()), pos: *pos },
            Node::Output { children, pos } => Node::Output { children: clone_nodes(children), pos: *pos },
            Node::Input { child, pos } => Node::Input { child: Box::new((**child).clone()), pos: *pos },
            Node::OpenFile { filename, mode, pos } => Node::OpenFile { filename: Box::new((**filename).clone()), mode: mode.clone(), pos: *pos },
            Node::CloseFile { filename, pos } => Node::CloseFile { filename: Box::new((**filename).clone()), pos: *pos },
            Node::ReadFile { filename, var, pos } => Node::ReadFile { filename: Box::new((**filename).clone()), var: Box::new((**var).clone()), pos: *pos },
            Node::WriteFile { filename, expr, pos } => Node::WriteFile { filename: Box::new((**filename).clone()), expr: Box::new((**expr).clone()), pos: *pos },
            Node::SeekFile { filename, expr, pos } => Node::SeekFile { filename: Box::new((**filename).clone()), expr: Box::new((**expr).clone()), pos: *pos },
            Node::PutRecord { filename, var, pos } => Node::PutRecord { filename: Box::new((**filename).clone()), var: Box::new((**var).clone()), pos: *pos },
            Node::GetRecord { filename, var, pos } => Node::GetRecord { filename: Box::new((**filename).clone()), var: Box::new((**var).clone()), pos: *pos },
            Node::Return { expr, pos } => Node::Return { expr: Box::new((**expr).clone()), pos: *pos },
            Node::Reference { expr, pos } => Node::Reference { expr: Box::new((**expr).clone()), pos: *pos },
            Node::Dereference { expr, pos } => Node::Dereference { expr: Box::new((**expr).clone()), pos: *pos },
            Node::If { cond, true_body, false_body, pos } => Node::If { cond: Box::new((**cond).clone()), true_body: clone_nodes(true_body), false_body: clone_nodes(false_body), pos: *pos },
            Node::Switch { subject, cases, otherwise, pos } => Node::Switch { subject: Box::new((**subject).clone()), cases: clone_nodes(cases), otherwise: clone_nodes(otherwise), pos: *pos },
            Node::Case { expr, children, pos } => Node::Case { expr: Box::new((**expr).clone()), children: clone_nodes(children), pos: *pos },
            Node::Null => Node::Null,
        }
    }
}


/// Whether a node carries a source span (every node but the program, enum and record
/// definitions, assignments and the empty statement).
pub open spec fn has_pos(n: NodeV) -> bool {
    !(n is Main || n is Enum || n is Record || n is Assignment || n is Null)
}

/// The source span of a node that has one.
pub open spec fn node_pos(n: NodeV) -> Position {
    match n {
        NodeV::Class { pos, .. } => pos,
        NodeV::Function { pos, .. } => pos,
        NodeV::Procedure { pos, .. } => pos,
        NodeV::CreateObject { pos, .. } => pos,
        NodeV::Int { pos, .. } => pos,
        NodeV::String { pos, .. } => pos,
        NodeV::Boolean { pos, .. } => pos,
        NodeV::Real { pos, .. } => pos,
        NodeV::Date { pos, .. } => pos,
        NodeV::Var { pos, .. } => pos,
        NodeV::Const { pos, .. } => pos,
        NodeV::PointerDef { pos, .. } => pos,
        NodeV::Composite { pos, .. } => pos,
        NodeV::ArrayVar { pos, .. } => pos,
        NodeV::Range { pos, .. } => pos,
        NodeV::Declare { pos, .. } => pos,
        NodeV::FunctionCall { pos, .. } => pos,
        NodeV::While { pos, .. } => pos,
        NodeV::Repeat { pos, .. } => pos,
        NodeV::For { pos, .. } => pos,
        NodeV::Unary { pos, .. } => pos,
        NodeV::Binary { pos, .. } => pos,
        NodeV::Output { pos, .. } => pos,
        NodeV::Input { pos, .. } => pos,
        NodeV::OpenFile { pos, .. } => pos,
        NodeV::CloseFile { pos, .. } => pos,
        NodeV::ReadFile { pos, .. } => pos,
        NodeV::WriteFile { pos, .. } => pos,
        NodeV::SeekFile { pos, .. } => pos,
        NodeV::PutRecord { pos, .. } => pos,
        NodeV::GetRecord { pos, .. } => pos,
        NodeV::Return { pos, .. } => pos,
        NodeV::Reference { pos, .. } => pos,
        NodeV::Dereference { pos, .. } => pos,
        NodeV::If { pos, .. } => pos,
        NodeV::Switch { pos, .. } => pos,
        NodeV::Case { pos, .. } => pos,
        _ => Position { line_start: 0, line_end: 0, pos_start: 0, pos_end: 0 },
    }
}

impl Node {
    /// Whether the node carries a source span.
    pub fn has_span(&self) -> (b: bool)
        ensures
            b == has_pos(self@),
    {
        !matches!(self, Node::Main { .. } | Node::Enum { .. } | Node::Record { .. } | Node::Assignment { .. } | Node::Null)
    }

    /// The source span of the node.
    pub fn pos(&self) -> (p: Position)
        requires
            has_pos(self@),
        ensures
            p == node_pos(self@),
    {
        match self {
            Node::Class { pos, .. } => *pos,
            Node::Function { pos, .. } => *pos,
            Node::Procedure { pos, .. } => *pos,
            Node::CreateObject { pos, .. } => *pos,
            Node::Int { pos, .. } => *pos,
            Node::String { pos, .. } => *pos,
            Node::Boolean { pos, .. } => *pos,
            Node::Real { pos, .. } => *pos,
            Node::Date { pos, .. } => *pos,
            Node::Var { pos, .. } => *pos,
            Node::Const { pos, .. } => *pos,
            Node::PointerDef { pos, .. } => *pos,
            Node::Composite { pos, .. } => *pos,
            Node::ArrayVar { pos, .. } => *pos,
            Node::Range { pos, .. } => *pos,
            Node::Declare { pos, .. } => *pos,
            Node::FunctionCall { pos, .. } => *pos,
            Node::While { pos, .. } => *pos,
            Node::Repeat { pos, .. } => *pos,
            Node::For { pos, .. } => *pos,
            Node::Unary { pos, .. } => *pos,
            Node::Binary { pos, .. } => *pos,
            Node::Output { pos, .. } => *pos,
            Node::Input { pos, .. } => *pos,
            Node::OpenFile { pos, .. } => *pos,
            Node::CloseFile { pos, .. } => *pos,
            Node::ReadFile { pos, .. } => *pos,
            Node::WriteFile { pos, .. } => *pos,
            Node::SeekFile { pos, .. } => *pos,
            Node::PutRecord { pos, .. } => *pos,
            Node::GetRecord { pos, .. } => *pos,
            Node::Return { pos, .. } => *pos,
            Node::Reference { pos, .. } => *pos,
            Node::Dereference { pos, .. } => *pos,
            Node::If { pos, .. } => *pos,
            Node::Switch { pos, .. } => *pos,
            Node::Case { pos, .. } => *pos,
            _ => Position::invalid(),
        }
    }
}

} // verus!
