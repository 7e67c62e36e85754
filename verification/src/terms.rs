use vstd::prelude::*;
use std::rc::Rc;

verus! {

broadcast use vstd::std_specs::vec::group_vec_axioms;

/// Relational, logical and structural operators that may appear in a
/// constraint operation.
#[derive(Clone, Copy, Debug, PartialEq, Eq, Hash, Structural)]
pub enum Operator {
    Debug,
    Print,
    Cut,
    In,
    Isa,
    New,
    Dot,
    Not,
    Mul,
    Div,
    Add,
    Sub,
    Eq,
    Geq,
    Leq,
    Neq,
    Gt,
    Lt,
    Unify,
    Or,
    And,
    ForAll,
    Assign,
}

/// An interned identifier naming a logical variable or a class tag.
#[derive(Debug, Hash, PartialEq, Eq)]
pub struct Symbol {
    pub name: String,
}

/// An immutable term node.
#[derive(Debug, Hash, PartialEq, Eq)]
pub enum Value {
    Variable(Symbol),
    Number(i64),
    Str(String),
    Pattern(Symbol),
    Expression(Operation),
    Partial(crate::partial::Partial),
}

/// A cheaply duplicable handle to an immutable [`Value`]; duplicating a term
/// shares the underlying node rather than copying the whole subtree.
#[derive(Debug, Hash, PartialEq, Eq)]
pub struct Term {
    pub value: Rc<Value>,
}

/// One constraint: an operator applied to an ordered list of argument terms.
#[derive(Debug, Hash, PartialEq, Eq)]
pub struct Operation {
    pub operator: Operator,
    pub args: Rc<Vec<Term>>,
}

/// The mathematical value of a term: the tree with all sharing and interning
/// forgotten.
#[verifier::ext_equal]
pub enum TermModel {
    Variable(Seq<char>),
    Number(int),
    Str(Seq<char>),
    Pattern(Seq<char>),
    Expression(OperationModel),
    Partial(PartialModel),
}

/// The mathematical value of a constraint operation.
#[verifier::ext_equal]
pub struct OperationModel {
    pub operator: Operator,
    pub args: Seq<TermModel>,
}

/// The mathematical value of a constraint store.
#[verifier::ext_equal]
pub struct PartialModel {
    pub variable: Seq<char>,
    pub constraints: Seq<OperationModel>,
}

pub open spec fn term_model(t: Term) -> TermModel
    decreases t,
{
    value_model(*t.value)
}

pub open spec fn value_model(v: Value) -> TermModel
    decreases v,
{
    match v {
        Value::Variable(s) => TermModel::Variable(s.name@),
        Value::Number(n) => TermModel::Number(n as int),
        Value::Str(s) => TermModel::Str(s@),
        Value::Pattern(s) => TermModel::Pattern(s.name@),
        Value::Expression(o) => TermModel::Expression(op_model(o)),
        Value::Partial(p) => TermModel::Partial(partial_model(p)),
    }
}

pub open spec fn op_model(o: Operation) -> OperationModel
    decreases o,
{
    OperationModel {
        operator: o.operator,
        args: Seq::new(
            (*o.args)@.len(),
            |i: int|
                if 0 <= i < (*o.args)@.len() {
                    term_model((*o.args)@[i])
                } else {
                    TermModel::Number(0)
                },
        ),
    }
}

pub open spec fn partial_model(p: crate::partial::Partial) -> PartialModel
    decreases p,
{
    PartialModel {
        variable: p.variable.name@,
        constraints: Seq::new(
            p.constraints@.len(),
            |i: int|
                if 0 <= i < p.constraints@.len() {
                    op_model(p.constraints@[i])
                } else {
                    OperationModel { operator: Operator::And, args: Seq::empty() }
                },
        ),
    }
}

/// The models of a sequence of terms, element by element.
pub open spec fn terms_model(ts: Seq<Term>) -> Seq<TermModel> {
    Seq::new(ts.len(), |i: int| term_model(ts[i]))
}

/// The models of a sequence of operations, element by element.
pub open spec fn ops_model(os: Seq<Operation>) -> Seq<OperationModel> {
    Seq::new(os.len(), |i: int| op_model(os[i]))
}

/// The model of the distinguished variable that every store's constraints
/// are phrased over.
pub open spec fn this_var_model() -> TermModel {
    TermModel::Variable("_this"@)
}

impl View for Term {
    type V = TermModel;

    open spec fn view(&self) -> TermModel {
        term_model(*self)
    }
}

impl View for Operation {
    type V = OperationModel;

    open spec fn view(&self) -> OperationModel {
        op_model(*self)
    }
}

impl Symbol {
    pub fn new(name: String) -> (r: Self)
        ensures
            r.name == name,
    {
        Symbol { name }
    }
}

impl Clone for Symbol {
    fn clone(&self) -> (r: Self)
        ensures
            r == *self,
    {
        Symbol { name: self.name.clone() }
    }
}

/// Relies on std's Rc::clone: the returned handle refers to the same value.
#[verifier::external_body]
fn rc_clone<T>(rc: &Rc<T>) -> (r: Rc<T>)
    ensures
        r == *rc,
{
    Rc::clone(rc)
}

impl Term {
    /// Wrap a value as a term.
    pub fn new_temporary(value: Value) -> (r: Term)
        ensures
            *r.value == value,
    {
        Term { value: Rc::new(value) }
    }
}

impl Clone for Term {
    fn clone(&self) -> (r: Self)
        ensures
            r == *self,
    {
        Term { value: rc_clone(&self.value) }
    }
}

impl Operation {
    /// A binary constraint operation.
    pub fn binary(operator: Operator, left: Term, right: Term) -> (r: Operation)
        ensures
            r@ == (OperationModel { operator, args: seq![left@, right@] }),
    {
        let ghost lm = left@;
        let ghost rm = right@;
        let mut args: Vec<Term> = Vec::new();
        args.push(left);
        args.push(right);
        let ghost av = args@;
        let r = Operation { operator, args: Rc::new(args) };
        proof {
            assert((*r.args)@ == av);
            assert(op_model(r).args.len() == 2);
            assert(op_model(r).args[0] == lm);
            assert(op_model(r).args[1] == rm);
            assert(op_model(r).args =~= seq![lm, rm]);
            assert(r@ =~= (OperationModel { operator, args: seq![lm, rm] }));
        }
        r
    }

    /// An n-ary constraint operation over an argument list.
    pub fn nary(operator: Operator, args: Vec<Term>) -> (r: Operation)
        ensures
            r@ == (OperationModel { operator, args: terms_model(args@) }),
    {
        let ghost am = terms_model(args@);
        let ghost av = args@;
        let r = Operation { operator, args: Rc::new(args) };
        proof {
            assert((*r.args)@ == av);
            assert forall|i: int| 0 <= i < am.len() implies op_model(r).args[i] == am[i] by {}
            assert(op_model(r).args =~= am);
            assert(r@ =~= (OperationModel { operator, args: am }));
        }
        r
    }
}

impl Clone for Operation {
    fn clone(&self) -> (r: Self)
        ensures
            r == *self,
    {
        Operation { operator: self.operator, args: rc_clone(&self.args) }
    }
}

} // verus!
