use vstd::prelude::*;
use crate::terms::{
    Operation, OperationModel, Operator, PartialModel, Symbol, Term, TermModel, Value, ops_model,
    partial_model, terms_model, this_var_model,
};
use crate::isa_check::IsaConstraintCheck;

verus! {

broadcast use vstd::std_specs::vec::group_vec_axioms;

/// An explicitly surfaced failure of this core: the operator has no defined
/// negation, so a constraint using it cannot be inverted.
#[derive(Clone, Copy, Debug, PartialEq, Eq, Structural)]
pub enum PartialError {
    UnsupportedNegation(Operator),
}

/// A per-variable constraint store: the bound variable satisfies a value iff
/// every accumulated constraint holds for it, in insertion order.
#[derive(Debug, Hash, PartialEq, Eq)]
pub struct Partial {
    pub constraints: Vec<Operation>,
    pub variable: Symbol,
}

impl View for Partial {
    type V = PartialModel;

    open spec fn view(&self) -> PartialModel {
        partial_model(*self)
    }
}

/// The model of the constraint appended by `unify`.
pub open spec fn unify_constraint_model(other: TermModel) -> OperationModel {
    OperationModel { operator: Operator::Unify, args: seq![this_var_model(), other] }
}

/// The model of the constraint appended by `compare`.
pub open spec fn comparison_constraint_model(operator: Operator, other: TermModel) -> OperationModel {
    OperationModel { operator, args: seq![this_var_model(), other] }
}

/// The model of the constraint appended by `isa`.
pub open spec fn isa_constraint_model(other: TermModel) -> OperationModel {
    OperationModel { operator: Operator::Isa, args: seq![this_var_model(), other] }
}

/// The model of the constraint appended by `in_contains`.
pub open spec fn contains_constraint_model(other: TermModel) -> OperationModel {
    OperationModel { operator: Operator::In, args: seq![other, this_var_model()] }
}

/// The model of the constraint appended by `in_unbound`: the named placeholder
/// is a member of the store's variable.
pub open spec fn in_unbound_constraint_model(name: Seq<char>) -> OperationModel {
    OperationModel {
        operator: Operator::In,
        args: seq![TermModel::Variable(name), this_var_model()],
    }
}

/// The model of the constraint appended by `lookup`: `value` unifies with the
/// `field` member of the store's variable.
pub open spec fn lookup_constraint_model(field: TermModel, value: TermModel) -> OperationModel {
    OperationModel {
        operator: Operator::Unify,
        args: seq![
            value,
            TermModel::Expression(
                OperationModel { operator: Operator::Dot, args: seq![this_var_model(), field] },
            ),
        ],
    }
}

/// The name under which a variable or placeholder term may be re-keyed.
pub open spec fn placeholder_name(t: TermModel) -> Seq<char> {
    match t {
        TermModel::Variable(n) => n,
        TermModel::Partial(p) => p.variable,
        _ => Seq::empty(),
    }
}

/// The operators accepted by `compare`.
pub open spec fn comparison_operator(op: Operator) -> bool {
    match op {
        Operator::Lt | Operator::Gt | Operator::Leq | Operator::Geq | Operator::Eq
            | Operator::Neq => true,
        _ => false,
    }
}

impl Partial {
    /// A fresh store for `variable`, with no constraints yet.
    pub fn new(variable: Symbol) -> (r: Self)
        ensures
            r@.variable == variable.name@,
            r@.constraints == Seq::<OperationModel>::empty(),
    {
        let r = Partial { constraints: Vec::new(), variable };
        proof {
            assert(r@.constraints =~= Seq::<OperationModel>::empty());
        }
        r
    }

    /// The distinguished variable term that every constraint is phrased over.
    fn variable_term(&self) -> (r: Term)
        ensures
            r@ == this_var_model(),
    {
        Term::new_temporary(Value::Variable(Symbol::new("_this".to_owned())))
    }

    /// Append `o` verbatim.
    pub fn add_constraint(&mut self, o: Operation)
        ensures
            final(self)@.variable == old(self)@.variable,
            final(self)@.constraints == old(self)@.constraints.push(o@),
    {
        let ghost om = o@;
        self.constraints.push(o);
        proof {
            assert(self@.constraints =~= old(self)@.constraints.push(om));
        }
    }

    /// Append the constraint that the store's variable unifies with `other`.
    pub fn unify(&mut self, other: Term)
        ensures
            final(self)@.variable == old(self)@.variable,
            final(self)@.constraints == old(self)@.constraints.push(unify_constraint_model(other@)),
    {
        let vt = self.variable_term();
        let op = Operation::binary(Operator::Unify, vt, other);
        self.add_constraint(op);
    }

    /// Append the comparison `operator(self-var, other)`.
    pub fn compare(&mut self, operator: Operator, other: Term)
        requires
            comparison_operator(operator),
        ensures
            final(self)@.variable == old(self)@.variable,
            final(self)@.constraints == old(self)@.constraints.push(
                comparison_constraint_model(operator, other@),
            ),
    {
        let vt = self.variable_term();
        let op = Operation::binary(operator, vt, other);
        self.add_constraint(op);
    }

    /// Append the type-membership constraint `isa(self-var, other)` and
    /// return the consistency-check task that the evaluator must run to
    /// completion before trusting the constraint. The task holds a snapshot
    /// of the constraints accumulated before this one, not a reference back
    /// into the store.
    pub fn isa(&mut self, other: Term) -> (r: IsaConstraintCheck)
        ensures
            final(self)@.variable == old(self)@.variable,
            final(self)@.constraints == old(self)@.constraints.push(isa_constraint_model(other@)),
            ops_model(r.existing@) == old(self)@.constraints,
            r.proposed@ == isa_constraint_model(other@),
            r.index == 0,
            r.phase is Scanning,
            r.wf(),
    {
        let vt = self.variable_term();
        let isa_op = Operation::binary(Operator::Isa, vt, other);
        let snapshot = self.constraints.clone();
        proof {
            assert(snapshot@ =~= self.constraints@);
            assert(ops_model(snapshot@) =~= old(self)@.constraints);
        }
        let check = IsaConstraintCheck::new(snapshot, isa_op.clone());
        self.add_constraint(isa_op);
        check
    }

    /// Append the constraint that the store's variable contains the concrete
    /// value `other`; `other` must not be a variable or another placeholder.
    pub fn in_contains(&mut self, other: Term)
        requires
            !(other@ is Variable),
            !(other@ is Partial),
        ensures
            final(self)@.variable == old(self)@.variable,
            final(self)@.constraints == old(self)@.constraints.push(contains_constraint_model(other@)),
    {
        let vt = self.variable_term();
        let op = Operation::binary(Operator::In, other, vt);
        self.add_constraint(op);
    }

    /// Append the constraint that the variable or placeholder `other` is a
    /// member of the store's variable, and return a fresh store keyed to
    /// `other`'s name for the per-element constraints.
    pub fn in_unbound(&mut self, other: Term) -> (r: Term)
        requires
            other@ is Variable || other@ is Partial,
        ensures
            final(self)@.variable == old(self)@.variable,
            final(self)@.constraints == old(self)@.constraints.push(
                in_unbound_constraint_model(placeholder_name(other@)),
            ),
            r@ == TermModel::Partial(
                PartialModel {
                    variable: placeholder_name(other@),
                    constraints: Seq::<OperationModel>::empty(),
                },
            ),
    {
        let name: Symbol = match &*other.value {
            Value::Partial(p) => p.variable.clone(),
            Value::Variable(s) => s.clone(),
            _ => unreached(),
        };
        let name_term = Term::new_temporary(Value::Variable(name.clone()));
        let vt = self.variable_term();
        let op = Operation::binary(Operator::In, name_term, vt);
        self.add_constraint(op);
        let fresh = Partial::new(name);
        let r = Term::new_temporary(Value::Partial(fresh));
        r
    }

    /// Append a lookup of `field` on the store's variable, unified with the
    /// variable `value`, and return a fresh store keyed to `value`'s name so
    /// that chained accesses attach to it.
    pub fn lookup(&mut self, field: Term, value: Term) -> (r: Term)
        requires
            field@ is Str,
            value@ is Variable,
        ensures
            final(self)@.variable == old(self)@.variable,
            final(self)@.constraints == old(self)@.constraints.push(
                lookup_constraint_model(field@, value@),
            ),
            r@ == TermModel::Partial(
                PartialModel {
                    variable: placeholder_name(value@),
                    constraints: Seq::<OperationModel>::empty(),
                },
            ),
    {
        let vt = self.variable_term();
        let dot_op = Operation::binary(Operator::Dot, vt, field);
        let dot_term = Term::new_temporary(Value::Expression(dot_op));
        let name: Symbol = match &*value.value {
            Value::Variable(s) => s.clone(),
            _ => unreached(),
        };
        let op = Operation::binary(Operator::Unify, value, dot_term);
        self.add_constraint(op);
        let fresh = Partial::new(name);
        let r = Term::new_temporary(Value::Partial(fresh));
        r
    }

    /// Augment our constraints with those on `other`, preserving order.
    ///
    /// Both stores must name the same variable.
    pub fn merge_constraints(&mut self, other: Self)
        requires
            old(self)@.variable == other@.variable,
        ensures
            final(self)@.variable == old(self)@.variable,
            final(self)@.constraints == old(self)@.constraints + other@.constraints,
    {
        let mut o = other;
        let ghost om = other@.constraints;
        self.constraints.append(&mut o.constraints);
        proof {
            assert(self@.constraints =~= old(self)@.constraints + om);
        }
    }

    /// The accumulated constraints, in insertion order.
    pub fn constraints(&self) -> (r: &Vec<Operation>)
        ensures
            r@ == self.constraints@,
            ops_model(r@) == self@.constraints,
    {
        proof {
            assert(ops_model(self.constraints@) =~= self@.constraints);
        }
        &self.constraints
    }

    /// The variable this store describes.
    pub fn name(&self) -> (r: &Symbol)
        ensures
            r.name@ == self@.variable,
    {
        &self.variable
    }

    /// A structurally equal store keyed to `name` instead.
    pub fn clone_with_name(&self, name: Symbol) -> (r: Self)
        ensures
            r@.variable == name.name@,
            r@.constraints == self@.constraints,
    {
        let mut fresh = self.clone();
        fresh.variable = name;
        proof {
            assert(fresh@.constraints =~= self@.constraints);
        }
        fresh
    }

    /// A store with this store's variable but the given constraint list.
    pub fn clone_with_constraints(&self, constraints: Vec<Operation>) -> (r: Self)
        ensures
            r@.variable == self@.variable,
            r@.constraints == ops_model(constraints@),
    {
        let mut fresh = self.clone();
        let ghost cm = ops_model(constraints@);
        fresh.constraints = constraints;
        proof {
            assert(fresh@.constraints =~= cm);
        }
        fresh
    }
}

/// The logical negation of an operator. Structural operators map to
/// themselves: they are never the thing being negated, only sub-terms of a
/// negated relation. Operators outside `operator_invertible` have no defined
/// negation; their image here is an artifact and never reached by exec code.
pub open spec fn invert_operator_model(op: Operator) -> Operator {
    match op {
        Operator::And => Operator::Or,
        Operator::Or => Operator::And,
        Operator::Unify => Operator::Neq,
        Operator::Eq => Operator::Neq,
        Operator::Neq => Operator::Unify,
        Operator::Gt => Operator::Leq,
        Operator::Geq => Operator::Lt,
        Operator::Lt => Operator::Geq,
        Operator::Leq => Operator::Gt,
        _ => op,
    }
}

/// The operators that inversion accepts.
pub open spec fn operator_invertible(op: Operator) -> bool {
    match op {
        Operator::And | Operator::Or | Operator::Unify | Operator::Eq | Operator::Neq
            | Operator::Gt | Operator::Geq | Operator::Lt | Operator::Leq | Operator::Debug
            | Operator::Print | Operator::New | Operator::Dot => true,
        _ => false,
    }
}

/// An operation with its operator negated and its arguments unchanged.
pub open spec fn invert_operation_model(o: OperationModel) -> OperationModel {
    OperationModel { operator: invert_operator_model(o.operator), args: o.args }
}

/// All operators from index `from` on are invertible.
pub open spec fn all_invertible(cs: Seq<OperationModel>, from: int) -> bool {
    forall|i: int| from <= i < cs.len() ==> operator_invertible(#[trigger] cs[i].operator)
}

/// The constraint list that negating the suffix `cs[csp..]` yields: the kept
/// prefix unchanged, then nothing for an empty suffix, the single constraint
/// inverted for a suffix of one, or one disjunction of the inverted suffix
/// constraints (De Morgan's law) otherwise.
pub open spec fn inverted_constraints_model(cs: Seq<OperationModel>, csp: int) -> Seq<
    OperationModel,
>
    recommends
        0 <= csp <= cs.len(),
{
    let kept = cs.subrange(0, csp);
    let appended = cs.subrange(csp, cs.len() as int);
    if appended.len() == 0 {
        kept
    } else if appended.len() == 1 {
        kept.push(invert_operation_model(appended[0]))
    } else {
        kept.push(
            OperationModel {
                operator: Operator::Or,
                args: appended.map(
                    |i: int, o: OperationModel| TermModel::Expression(invert_operation_model(o)),
                ),
            },
        )
    }
}

/// Invert a single operation: flip its operator, keep its arguments. An
/// operator with no defined negation is rejected explicitly rather than
/// mapped to anything.
pub fn invert_operation(o: Operation) -> (r: Result<Operation, PartialError>)
    ensures
        operator_invertible(o@.operator) ==> (r matches Ok(inv) && inv@ == invert_operation_model(
            o@,
        )),
        !operator_invertible(o@.operator) ==> r == Err::<Operation, PartialError>(
            PartialError::UnsupportedNegation(o@.operator),
        ),
{
    let inverted: Operator = match o.operator {
        Operator::And => Operator::Or,
        Operator::Or => Operator::And,
        Operator::Unify | Operator::Eq => Operator::Neq,
        Operator::Neq => Operator::Unify,
        Operator::Gt => Operator::Leq,
        Operator::Geq => Operator::Lt,
        Operator::Lt => Operator::Geq,
        Operator::Leq => Operator::Gt,
        Operator::Debug | Operator::Print | Operator::New | Operator::Dot => o.operator,
        _ => {
            return Err(PartialError::UnsupportedNegation(o.operator));
        },
    };
    Ok(Operation { operator: inverted, args: o.args })
}

impl Partial {
    /// Replace the constraints appended since the checkpoint `csp` by their
    /// negation: nothing if none were appended (a deliberate incompleteness:
    /// negating no constraint does not manufacture one), the single appended
    /// constraint inverted, or a disjunction of the inverted constraints by
    /// De Morgan's law. A suffix constraint whose operator has no defined
    /// negation is reported, not silently mis-negated.
    pub fn inverted_constraints(&self, csp: usize) -> (r: Result<Vec<Operation>, PartialError>)
        requires
            csp <= self.constraints@.len(),
        ensures
            (r is Ok) <==> all_invertible(self@.constraints, csp as int),
            r matches Ok(out) ==> ops_model(out@) == inverted_constraints_model(
                self@.constraints,
                csp as int,
            ),
            r matches Err(e) ==> exists|i: int|
                csp <= i < self@.constraints.len() && !operator_invertible(
                    #[trigger] self@.constraints[i].operator,
                ) && e == PartialError::UnsupportedNegation(self@.constraints[i].operator) && (
                forall|j: int| csp <= j < i ==> operator_invertible(self@.constraints[j].operator)),
    {
        let ghost cs = self@.constraints;
        let n = self.constraints.len();
        let mut combined: Vec<Operation> = Vec::new();
        let mut i: usize = 0;
        while i < csp
            invariant
                i <= csp <= n == self.constraints@.len(),
                cs == self@.constraints,
                combined@.len() == i,
                forall|k: int| 0 <= k < i ==> #[trigger] combined@[k]@ == cs[k],
            decreases csp - i,
        {
            combined.push(self.constraints[i].clone());
            i += 1;
        }
        if n - csp == 0 {
            proof {
                let m = inverted_constraints_model(cs, csp as int);
                assert forall|k: int| 0 <= k < combined@.len() implies ops_model(combined@)[k]
                    == m[k] by {
                    assert(combined@[k]@ == cs[k]);
                }
                assert(ops_model(combined@) =~= m);
            }
            Ok(combined)
        } else if n - csp == 1 {
            match invert_operation(self.constraints[csp].clone()) {
                Ok(inv) => {
                    let ghost im = inv@;
                    combined.push(inv);
                    proof {
                        let m = inverted_constraints_model(cs, csp as int);
                        assert(m == cs.subrange(0, csp as int).push(
                            invert_operation_model(cs.subrange(csp as int, cs.len() as int)[0]),
                        ));
                        assert(cs.subrange(csp as int, cs.len() as int)[0] == cs[csp as int]);
                        assert forall|k: int| 0 <= k < combined@.len() implies ops_model(
                            combined@,
                        )[k] == m[k] by {
                            if k < csp {
                                assert(combined@[k]@ == cs[k]);
                            } else {
                                assert(combined@[k]@ == im);
                            }
                        }
                        assert(ops_model(combined@) =~= m);
                    }
                    Ok(combined)
                },
                Err(e) => {
                    proof {
                        assert(!operator_invertible(cs[csp as int].operator));
                    }
                    Err(e)
                },
            }
        } else {
            let mut args: Vec<Term> = Vec::new();
            let mut j: usize = csp;
            while j < n
                invariant
                    csp <= j <= n == self.constraints@.len(),
                    cs == self@.constraints,
                    args@.len() == j - csp,
                    forall|k: int| csp <= k < j ==> operator_invertible(cs[k].operator),
                    forall|k: int|
                        0 <= k < j - csp ==> #[trigger] args@[k]@ == TermModel::Expression(
                            invert_operation_model(cs[csp + k]),
                        ),
                decreases n - j,
            {
                match invert_operation(self.constraints[j].clone()) {
                    Ok(inv) => {
                        args.push(Term::new_temporary(Value::Expression(inv)));
                    },
                    Err(e) => {
                        proof {
                            assert(!operator_invertible(cs[j as int].operator));
                            assert(csp <= j < cs.len() && !operator_invertible(
                                cs[j as int].operator,
                            ) && e == PartialError::UnsupportedNegation(cs[j as int].operator) && (
                            forall|k: int|
                                csp <= k < j ==> operator_invertible(cs[k].operator)));
                        }
                        return Err(e);
                    },
                }
                j += 1;
            }
            let disjunction = Operation::nary(Operator::Or, args);
            let ghost dm = disjunction@;
            combined.push(disjunction);
            proof {
                let m = inverted_constraints_model(cs, csp as int);
                let appended = cs.subrange(csp as int, cs.len() as int);
                let wrapped = appended.map(
                    |i: int, o: OperationModel| TermModel::Expression(invert_operation_model(o)),
                );
                assert forall|k: int| 0 <= k < appended.len() implies wrapped[k]
                    == terms_model(args@)[k] by {
                    assert(appended[k] == cs[csp + k]);
                    assert(args@[k]@ == TermModel::Expression(invert_operation_model(cs[csp + k])));
                }
                assert(wrapped =~= terms_model(args@));
                assert(dm == (OperationModel { operator: Operator::Or, args: wrapped }));
                assert forall|k: int| 0 <= k < combined@.len() implies ops_model(combined@)[k]
                    == m[k] by {
                    if k < csp {
                        assert(combined@[k]@ == cs[k]);
                    } else {
                        assert(combined@[k]@ == dm);
                    }
                }
                assert(ops_model(combined@) =~= m);
            }
            Ok(combined)
        }
    }

    /// Consume the store, yielding its constraints as one boolean term: the
    /// single constraint directly, or a flat conjunction in insertion order.
    pub fn into_expression(self) -> (r: Term)
        ensures
            r@ == into_expression_model(self@),
    {
        let ghost pm = self@;
        let mut s = self;
        if s.constraints.len() == 1 {
            let op = match s.constraints.pop() {
                Some(op) => op,
                None => unreached(),
            };
            let r = Term::new_temporary(Value::Expression(op));
            proof {
                assert(op@ == pm.constraints[0]);
            }
            r
        } else {
            let n = s.constraints.len();
            let mut args: Vec<Term> = Vec::new();
            let mut i: usize = 0;
            while i < n
                invariant
                    i <= n == s.constraints@.len(),
                    pm == s@,
                    args@.len() == i,
                    forall|k: int|
                        0 <= k < i ==> #[trigger] args@[k]@ == TermModel::Expression(
                            pm.constraints[k],
                        ),
                decreases n - i,
            {
                let op = s.constraints[i].clone();
                args.push(Term::new_temporary(Value::Expression(op)));
                i += 1;
            }
            let conjunction = Operation::nary(Operator::And, args);
            let ghost cm = conjunction@;
            let r = Term::new_temporary(Value::Expression(conjunction));
            proof {
                let wrapped = pm.constraints.map(
                    |i: int, o: OperationModel| TermModel::Expression(o),
                );
                assert forall|k: int| 0 <= k < wrapped.len() implies wrapped[k]
                    == terms_model(args@)[k] by {
                    assert(args@[k]@ == TermModel::Expression(pm.constraints[k]));
                }
                assert(wrapped =~= terms_model(args@));
                assert(cm == (OperationModel { operator: Operator::And, args: wrapped }));
            }
            r
        }
    }

    /// Consume the store, wrapping it (not yet collapsed) as a placeholder
    /// term, for when a partial must be threaded further rather than
    /// finalized.
    pub fn into_term(self) -> (r: Term)
        ensures
            r@ == TermModel::Partial(self@),
    {
        Term::new_temporary(Value::Partial(self))
    }
}

/// The term that materializing a store yields: its only constraint, or the
/// flat conjunction of all of them in insertion order.
pub open spec fn into_expression_model(p: PartialModel) -> TermModel {
    if p.constraints.len() == 1 {
        TermModel::Expression(p.constraints[0])
    } else {
        TermModel::Expression(
            OperationModel {
                operator: Operator::And,
                args: p.constraints.map(|i: int, o: OperationModel| TermModel::Expression(o)),
            },
        )
    }
}

/// Vacuous negation: inverting at a checkpoint equal to the constraint count
/// leaves the constraint list unchanged.
pub proof fn lemma_vacuous_negation(cs: Seq<OperationModel>)
    ensures
        inverted_constraints_model(cs, cs.len() as int) == cs,
{
    assert(cs.subrange(0, cs.len() as int) =~= cs);
    assert(cs.subrange(cs.len() as int, cs.len() as int) =~= Seq::<OperationModel>::empty());
}

/// Operator-level negation parity: flipping twice restores an invertible
/// operator, except that the double flip of equality lands on unification,
/// its semantic equal; from the first flip on, flipping twice more always
/// restores exactly.
pub proof fn lemma_invert_operator_parity(op: Operator)
    requires
        operator_invertible(op),
    ensures
        invert_operator_model(invert_operator_model(op)) == (if op == Operator::Eq {
            Operator::Unify
        } else {
            op
        }),
        invert_operator_model(
            invert_operator_model(invert_operator_model(op)),
        ) == invert_operator_model(op),
{
}

/// Negation parity, at the store level: a negated suffix is replaced by a
/// single constraint, so from one inversion on, repeated inversion at the
/// same checkpoint alternates between exactly two constraint lists; an odd
/// number of inversions always yields the first.
pub proof fn lemma_negation_parity(cs: Seq<OperationModel>, csp: int)
    requires
        0 <= csp <= cs.len(),
        all_invertible(cs, csp),
    ensures
        inverted_constraints_model(
            inverted_constraints_model(inverted_constraints_model(cs, csp), csp),
            csp,
        ) == inverted_constraints_model(cs, csp),
{
    let kept = cs.subrange(0, csp);
    let once = inverted_constraints_model(cs, csp);
    if cs.len() == csp {
        assert(once == kept);
        assert(kept.len() == csp);
        lemma_vacuous_negation(kept);
    } else {
        let d = once.last();
        assert(once == kept.push(d));
        assert(once.len() == csp + 1);
        if cs.len() - csp == 1 {
            assert(d == invert_operation_model(cs.subrange(csp, cs.len() as int)[0]));
            assert(cs.subrange(csp, cs.len() as int)[0] == cs[csp]);
            lemma_invert_operator_parity(cs[csp].operator);
        }
        lemma_single_suffix_flip(kept, d);
        let twice = inverted_constraints_model(once, csp);
        assert(twice == kept.push(invert_operation_model(d)));
        lemma_single_suffix_flip(kept, invert_operation_model(d));
        assert(invert_operation_model(invert_operation_model(d)) == d);
    }
}

/// Double negation on a suffix of one: inverting twice at the same
/// checkpoint restores the store exactly, whenever the suffix operator is in
/// the image of inversion (every operator but equality, whose double flip
/// lands on unification).
pub proof fn lemma_double_negation(kept: Seq<OperationModel>, c: OperationModel)
    requires
        operator_invertible(c.operator),
        c.operator != Operator::Eq,
    ensures
        inverted_constraints_model(
            inverted_constraints_model(kept.push(c), kept.len() as int),
            kept.len() as int,
        ) == kept.push(c),
{
    let csp = kept.len() as int;
    lemma_single_suffix_flip(kept, c);
    lemma_single_suffix_flip(kept, invert_operation_model(c));
    lemma_invert_operator_parity(c.operator);
}

/// Inverting a store whose suffix past the checkpoint is the single
/// constraint `c` appends `c` with its operator flipped.
pub proof fn lemma_single_suffix_flip(kept: Seq<OperationModel>, c: OperationModel)
    ensures
        inverted_constraints_model(kept.push(c), kept.len() as int) == kept.push(
            invert_operation_model(c),
        ),
{
    let cs = kept.push(c);
    let csp = kept.len() as int;
    assert(cs.subrange(0, csp) =~= kept);
    assert(cs.subrange(csp, cs.len() as int) =~= seq![c]);
}

/// De Morgan soundness: under any interpretation of atomic constraints in
/// which flipping an operator negates the constraint, some inverted suffix
/// constraint holds exactly when not every original suffix constraint holds;
/// so the appended disjunction of inverted constraints means the negation of
/// the implicit conjunction it replaced.
pub proof fn lemma_de_morgan_negates(
    cs: Seq<OperationModel>,
    holds: spec_fn(OperationModel) -> bool,
)
    requires
        forall|c: OperationModel| holds(#[trigger] invert_operation_model(c)) == !holds(c),
    ensures
        (exists|i: int| 0 <= i < cs.len() && holds(#[trigger] invert_operation_model(cs[i])))
            <==> !(forall|i: int| 0 <= i < cs.len() ==> holds(#[trigger] cs[i])),
{
    if exists|i: int| 0 <= i < cs.len() && holds(#[trigger] invert_operation_model(cs[i])) {
        let i = choose|i: int| 0 <= i < cs.len() && holds(#[trigger] invert_operation_model(cs[i]));
        assert(!holds(cs[i]));
    }
    if !(forall|i: int| 0 <= i < cs.len() ==> holds(#[trigger] cs[i])) {
        let i = choose|i: int| 0 <= i < cs.len() && !holds(#[trigger] cs[i]);
        assert(holds(invert_operation_model(cs[i])));
    }
}

/// De Morgan's law on a two-constraint suffix of a unification and a
/// less-than: inversion appends one disjunction whose arguments are the same
/// terms under not-equals and greater-or-equal respectively.
pub proof fn lemma_de_morgan_pair(kept: Seq<OperationModel>, c1: OperationModel, c2: OperationModel)
    requires
        c1.operator == Operator::Unify,
        c2.operator == Operator::Lt,
    ensures
        inverted_constraints_model(kept + seq![c1, c2], kept.len() as int) == kept.push(
            OperationModel {
                operator: Operator::Or,
                args: seq![
                    TermModel::Expression(
                        OperationModel { operator: Operator::Neq, args: c1.args },
                    ),
                    TermModel::Expression(
                        OperationModel { operator: Operator::Geq, args: c2.args },
                    ),
                ],
            },
        ),
{
    let cs = kept + seq![c1, c2];
    let csp = kept.len() as int;
    assert(cs.subrange(0, csp) =~= kept);
    let appended = cs.subrange(csp, cs.len() as int);
    assert(appended =~= seq![c1, c2]);
    let wrapped = appended.map(
        |i: int, o: OperationModel| TermModel::Expression(invert_operation_model(o)),
    );
    assert(wrapped =~= seq![
        TermModel::Expression(OperationModel { operator: Operator::Neq, args: c1.args }),
        TermModel::Expression(OperationModel { operator: Operator::Geq, args: c2.args }),
    ]);
}

impl Clone for Partial {
    /// An independent copy: the evaluator forks a store at every choice point.
    fn clone(&self) -> (r: Self)
        ensures
            r@ == self@,
            r.variable.name@ == self.variable.name@,
            r.constraints@ == self.constraints@,
    {
        let constraints = self.constraints.clone();
        proof {
            assert(constraints@ =~= self.constraints@);
        }
        let r = Partial { constraints, variable: self.variable.clone() };
        proof {
            assert(r@ =~= self@);
        }
        r
    }
}

} // verus!
