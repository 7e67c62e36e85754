// Structural checks of the store's contracts on concrete values: insertion
// order, merge as concatenation, negation parity, vacuous negation, the
// De Morgan disjunction shape, materialization, re-keying, and the
// suspension protocol of the isa consistency task.

use polar_partial::isa_check::{CheckPhase, IsaConstraintCheck, TaskEvent};
use polar_partial::partial::{Partial, PartialError};
use polar_partial::terms::{Operation, Operator, Symbol, Term, Value};

fn sym(s: &str) -> Symbol {
    Symbol::new(s.to_string())
}

fn var(s: &str) -> Term {
    Term::new_temporary(Value::Variable(sym(s)))
}

fn num(n: i64) -> Term {
    Term::new_temporary(Value::Number(n))
}

fn string(s: &str) -> Term {
    Term::new_temporary(Value::Str(s.to_string()))
}

fn pattern(s: &str) -> Term {
    Term::new_temporary(Value::Pattern(sym(s)))
}

fn this_var() -> Term {
    var("_this")
}

#[test]
fn order_preservation() {
    let mut a = Partial::new(sym("a"));
    a.unify(num(1));
    a.compare(Operator::Gt, num(2));
    a.in_contains(num(3));
    let _ = a.isa(pattern("Post"));
    let _ = a.lookup(string("f"), var("v"));
    a.add_constraint(Operation::binary(Operator::Neq, this_var(), num(4)));
    let ops: Vec<Operator> = a.constraints().iter().map(|c| c.operator).collect();
    assert_eq!(
        ops,
        vec![
            Operator::Unify,
            Operator::Gt,
            Operator::In,
            Operator::Isa,
            Operator::Unify,
            Operator::Neq,
        ]
    );
    assert_eq!(a.constraints()[0].args[1], num(1));
    assert_eq!(a.constraints()[1].args[1], num(2));
    assert_eq!(a.constraints()[2].args[0], num(3));
}

#[test]
fn merge_same_name_is_concatenation() {
    let mut a = Partial::new(sym("a"));
    a.unify(num(1));
    let mut b = Partial::new(sym("a"));
    b.compare(Operator::Lt, num(2));
    b.unify(num(3));
    let expected: Vec<Operation> = a
        .constraints()
        .iter()
        .chain(b.constraints().iter())
        .cloned()
        .collect();
    a.merge_constraints(b);
    assert_eq!(a.constraints().clone(), expected);
    assert_eq!(a.name().name, "a");
}

#[test]
fn negation_parity() {
    // an even number of inversions restores the constraint, an odd number
    // the single flip, for any suffix operator in the image of inversion
    let mut a = Partial::new(sym("a"));
    a.compare(Operator::Gt, num(1));
    let original = a.constraints().clone();
    let once = a.clone_with_constraints(a.inverted_constraints(0).unwrap());
    assert_eq!(once.constraints()[0].operator, Operator::Leq);
    let twice = once.clone_with_constraints(once.inverted_constraints(0).unwrap());
    assert_eq!(twice.constraints().clone(), original);
    let thrice = twice.clone_with_constraints(twice.inverted_constraints(0).unwrap());
    assert_eq!(thrice.constraints().clone(), once.constraints().clone());

    // the double flip of == lands on =, its semantic equal
    let mut e = Partial::new(sym("a"));
    e.compare(Operator::Eq, num(1));
    let once = e.clone_with_constraints(e.inverted_constraints(0).unwrap());
    assert_eq!(once.constraints()[0].operator, Operator::Neq);
    let twice = once.clone_with_constraints(once.inverted_constraints(0).unwrap());
    assert_eq!(twice.constraints()[0].operator, Operator::Unify);
    assert_eq!(twice.constraints()[0].args, e.constraints()[0].args);

    // a multi-constraint suffix: from the first inversion on, the store
    // alternates between exactly two lists
    let mut m = Partial::new(sym("a"));
    m.unify(num(1));
    m.unify(num(2));
    let once = m.clone_with_constraints(m.inverted_constraints(0).unwrap());
    let twice = once.clone_with_constraints(once.inverted_constraints(0).unwrap());
    let thrice = twice.clone_with_constraints(twice.inverted_constraints(0).unwrap());
    assert_eq!(thrice.constraints().clone(), once.constraints().clone());
    assert_eq!(once.constraints()[0].operator, Operator::Or);
    assert_eq!(twice.constraints()[0].operator, Operator::And);
}

#[test]
fn vacuous_negation() {
    let mut a = Partial::new(sym("a"));
    a.unify(num(1));
    a.compare(Operator::Lt, num(2));
    let csp = a.constraints().len();
    let inverted = a.inverted_constraints(csp).unwrap();
    assert_eq!(inverted, a.constraints().clone());
}

#[test]
fn de_morgan_disjunction() {
    // new = [c1, c2] with operators unify and less-than inverts to a single
    // disjunction of not-equals and greater-or-equal over the same terms
    let mut a = Partial::new(sym("a"));
    a.unify(num(1));
    a.compare(Operator::Lt, num(2));
    let inverted = a.inverted_constraints(0).unwrap();
    assert_eq!(inverted.len(), 1);
    let disjunction = &inverted[0];
    assert_eq!(disjunction.operator, Operator::Or);
    assert_eq!(disjunction.args.len(), 2);
    let first = match &*disjunction.args[0].value {
        Value::Expression(o) => o.clone(),
        _ => panic!("expected a wrapped expression"),
    };
    let second = match &*disjunction.args[1].value {
        Value::Expression(o) => o.clone(),
        _ => panic!("expected a wrapped expression"),
    };
    assert_eq!(first.operator, Operator::Neq);
    assert_eq!(*first.args, vec![this_var(), num(1)]);
    assert_eq!(second.operator, Operator::Geq);
    assert_eq!(*second.args, vec![this_var(), num(2)]);
}

#[test]
fn unsupported_negation_is_an_error() {
    let mut a = Partial::new(sym("a"));
    a.add_constraint(Operation::binary(Operator::Add, this_var(), num(1)));
    assert_eq!(
        a.inverted_constraints(0),
        Err(PartialError::UnsupportedNegation(Operator::Add))
    );
    // structural operators invert to themselves
    let print_op = Operation::binary(Operator::Print, this_var(), num(1));
    let inverted = polar_partial::partial::invert_operation(print_op.clone()).unwrap();
    assert_eq!(inverted, print_op);
}

#[test]
fn materialization_round_trip() {
    // one constraint materializes to that constraint directly
    let mut a = Partial::new(sym("a"));
    a.compare(Operator::Gt, num(0));
    let only = a.constraints()[0].clone();
    let e = a.into_expression();
    match &*e.value {
        Value::Expression(o) => assert_eq!(*o, only),
        _ => panic!("expected an expression"),
    }

    // several constraints materialize to one flat conjunction in order
    let mut a = Partial::new(sym("a"));
    a.unify(num(1));
    a.unify(num(2));
    let c0 = a.constraints()[0].clone();
    let c1 = a.constraints()[1].clone();
    let e = a.into_expression();
    match &*e.value {
        Value::Expression(o) => {
            assert_eq!(o.operator, Operator::And);
            assert_eq!(o.args.len(), 2);
            assert_eq!(*o.args[0].value, Value::Expression(c0));
            assert_eq!(*o.args[1].value, Value::Expression(c1));
        }
        _ => panic!("expected an expression"),
    }

    // no constraints materialize to the empty conjunction
    let e = Partial::new(sym("a")).into_expression();
    match &*e.value {
        Value::Expression(o) => {
            assert_eq!(o.operator, Operator::And);
            assert_eq!(o.args.len(), 0);
        }
        _ => panic!("expected an expression"),
    }
}

#[test]
fn into_term_wraps_the_store() {
    let mut a = Partial::new(sym("a"));
    a.unify(num(1));
    let expected = a.clone();
    let t = a.into_term();
    match &*t.value {
        Value::Partial(p) => assert_eq!(*p, expected),
        _ => panic!("expected a placeholder term"),
    }
}

#[test]
fn rekeying_and_rewinding() {
    let mut a = Partial::new(sym("a"));
    a.unify(num(1));
    a.unify(num(2));
    let renamed = a.clone_with_name(sym("b"));
    assert_eq!(renamed.name().name, "b");
    assert_eq!(renamed.constraints().clone(), a.constraints().clone());

    let snapshot = a.constraints()[..1].to_vec();
    let rewound = a.clone_with_constraints(snapshot.clone());
    assert_eq!(rewound.name().name, "a");
    assert_eq!(rewound.constraints().clone(), snapshot);
}

#[test]
fn forked_stores_are_independent() {
    let mut a = Partial::new(sym("a"));
    a.unify(num(1));
    let fork = a.clone();
    a.unify(num(2));
    assert_eq!(fork.constraints().len(), 1);
    assert_eq!(a.constraints().len(), 2);
}

#[test]
fn deferred_stores_are_keyed_to_the_placeholder() {
    let mut a = Partial::new(sym("a"));
    let member = a.in_unbound(var("y"));
    match &*member.value {
        Value::Partial(p) => {
            assert_eq!(p.name().name, "y");
            assert_eq!(p.constraints().len(), 0);
        }
        _ => panic!("expected a placeholder term"),
    }
    // the appended constraint reads: y is a member of the store's variable
    let c = &a.constraints()[0];
    assert_eq!(c.operator, Operator::In);
    assert_eq!(c.args[0], var("y"));
    assert_eq!(c.args[1], this_var());

    let looked_up = a.lookup(string("f"), var("v"));
    match &*looked_up.value {
        Value::Partial(p) => assert_eq!(p.name().name, "v"),
        _ => panic!("expected a placeholder term"),
    }
}

#[test]
fn isa_task_suspension_protocol() {
    let mut a = Partial::new(sym("a"));
    let first = a.isa(pattern("Post"));
    // no earlier type constraint: immediately consistent
    let mut first = first;
    assert_eq!(first.advance(None), TaskEvent::Done(true));

    // a second type constraint questions the snapshot: primary question,
    // reversed alternative, then failure when both answers are no
    let mut task = a.isa(pattern("User"));
    let q = match task.advance(None) {
        TaskEvent::Suspended(q) => q,
        other => panic!("expected a suspension, got {:?}", other),
    };
    assert_eq!(q.left_tag.name, "User");
    assert_eq!(q.right_tag.name, "Post");
    assert_eq!(task.phase, CheckPhase::AwaitingPrimary);
    let q = match task.advance(Some(false)) {
        TaskEvent::Suspended(q) => q,
        other => panic!("expected a suspension, got {:?}", other),
    };
    assert_eq!(q.left_tag.name, "Post");
    assert_eq!(q.right_tag.name, "User");
    assert_eq!(task.advance(Some(false)), TaskEvent::Done(false));
    // a failed task stays failed
    assert_eq!(task.advance(None), TaskEvent::Done(false));

    // with an affirmative answer the task accepts the constraint set
    let mut b = Partial::new(sym("b"));
    let _ = b.isa(pattern("Post"));
    let mut task = b.isa(pattern("PostSubclass"));
    assert!(matches!(task.advance(None), TaskEvent::Suspended(_)));
    assert_eq!(task.advance(Some(true)), TaskEvent::Done(true));

    // the task holds a snapshot, not a reference: it still sees only the
    // constraints that existed when it was created
    let mut c = Partial::new(sym("c"));
    let _ = c.isa(pattern("Post"));
    let mut task = IsaConstraintCheck::new(
        c.constraints().clone(),
        Operation::binary(Operator::Isa, this_var(), pattern("User")),
    );
    c.unify(num(1));
    let _ = c.isa(pattern("Extra"));
    assert!(matches!(task.advance(None), TaskEvent::Suspended(_)));
    assert_eq!(task.advance(Some(true)), TaskEvent::Done(true));
}

#[test]
fn isa_task_skips_untagged_constraints() {
    let mut a = Partial::new(sym("a"));
    a.unify(num(1));
    a.compare(Operator::Gt, num(0));
    let mut task = a.isa(pattern("Post"));
    // only type-membership constraints are questioned; none exist
    assert_eq!(task.advance(None), TaskEvent::Done(true));

    // a proposed constraint without a class tag has nothing to check
    let mut task = IsaConstraintCheck::new(
        a.constraints().clone(),
        Operation::binary(Operator::Isa, this_var(), num(1)),
    );
    assert_eq!(task.advance(None), TaskEvent::Done(true));
}
