use vstd::prelude::*;
use crate::terms::{Operation, OperationModel, Operator, Symbol, Value, ops_model};

verus! {

broadcast use vstd::std_specs::vec::group_vec_axioms;

/// A question for the host: is the class named `left_tag` a subclass of the
/// class named `right_tag`?
#[derive(Debug, Clone, PartialEq, Eq)]
pub struct SubclassRequest {
    pub left_tag: Symbol,
    pub right_tag: Symbol,
}

/// One step of the consistency-check task: either it suspends on a subclass
/// question the driver must answer, or it is done, with `true` for a
/// consistent constraint set and `false` to make the branch fail.
#[derive(Debug, Clone, PartialEq, Eq)]
pub enum TaskEvent {
    Suspended(SubclassRequest),
    Done(bool),
}

/// Where the task stands between two calls to `advance`.
#[derive(Debug, Clone, Copy, PartialEq, Eq, Structural)]
pub enum CheckPhase {
    /// Looking for the next snapshotted type constraint to compare against.
    Scanning,
    /// Asked whether the proposed tag is a subclass of the current one.
    AwaitingPrimary,
    /// The primary answer was no; asked the reverse question.
    AwaitingAlternative,
    /// Both answers were no: the constraint set is inconsistent.
    Failed,
}

/// The class tag a type-membership constraint asserts, if it is one.
pub open spec fn isa_tag(o: OperationModel) -> Option<Seq<char>> {
    if o.operator == Operator::Isa && o.args.len() == 2 && (o.args[1] is Pattern) {
        Some(o.args[1]->Pattern_0)
    } else {
        None
    }
}

/// The first index at or past `from` holding a type-membership constraint
/// with a class tag, or the length if there is none.
pub open spec fn next_isa_index(e: Seq<OperationModel>, from: int) -> int
    decreases e.len() - from,
{
    if from >= e.len() {
        e.len() as int
    } else if isa_tag(e[from]) is Some {
        from
    } else {
        next_isa_index(e, from + 1)
    }
}

/// A single-use, resumable task that re-examines the type-membership
/// constraints accumulated before a new one (a snapshot taken when the new
/// one was appended) for mutual consistency, consulting the host about
/// subclass relations. It holds no reference back into the store.
#[derive(Debug)]
pub struct IsaConstraintCheck {
    pub existing: Vec<Operation>,
    pub proposed: Operation,
    pub index: usize,
    pub phase: CheckPhase,
}

impl IsaConstraintCheck {
    /// The models of the snapshotted constraints.
    pub open spec fn existing_model(self) -> Seq<OperationModel> {
        ops_model(self.existing@)
    }

    /// The class tag the proposed constraint asserts, if any.
    pub open spec fn proposed_tag(self) -> Option<Seq<char>> {
        isa_tag(self.proposed@)
    }

    /// The cursor stays within the snapshot, and a pending question always
    /// points at a tagged type constraint and has a tagged proposal.
    pub open spec fn wf(self) -> bool {
        &&& self.index <= self.existing@.len()
        &&& (self.phase is AwaitingPrimary || self.phase is AwaitingAlternative) ==> {
            &&& self.index < self.existing@.len()
            &&& self.proposed_tag() is Some
            &&& isa_tag(self.existing_model()[self.index as int]) is Some
        }
    }

    /// What resuming the scan at `from` does: suspend on a primary question
    /// against the next tagged type constraint, or finish consistent if none
    /// is left.
    pub open spec fn scan_outcome(
        pre: Self,
        from: int,
        post: Self,
        r: TaskEvent,
    ) -> bool {
        let e = pre.existing_model();
        let j = next_isa_index(e, from);
        &&& post.index == j
        &&& if j == e.len() {
            &&& post.phase is Scanning
            &&& r == TaskEvent::Done(true)
        } else {
            &&& post.phase is AwaitingPrimary
            &&& r matches TaskEvent::Suspended(q) && Some(q.left_tag.name@) == pre.proposed_tag()
                && Some(q.right_tag.name@) == isa_tag(e[j])
        }
    }

    pub fn new(existing: Vec<Operation>, proposed: Operation) -> (r: Self)
        ensures
            r.existing@ == existing@,
            r.proposed == proposed,
            r.index == 0,
            r.phase is Scanning,
            r.wf(),
    {
        IsaConstraintCheck { existing, proposed, index: 0, phase: CheckPhase::Scanning }
    }

    /// The class tag of a type-membership constraint, if it names one.
    fn isa_tag_of(o: &Operation) -> (r: Option<Symbol>)
        ensures
            match r {
                Some(s) => isa_tag(o@) == Some(s.name@),
                None => isa_tag(o@) is None,
            },
    {
        if o.operator == Operator::Isa && o.args.len() == 2 {
            proof {
                assert(o@.args[1] == crate::terms::term_model((*o.args)@[1]));
            }
            match &*o.args[1].value {
                Value::Pattern(s) => Some(s.clone()),
                _ => None,
            }
        } else {
            None
        }
    }

    /// Scan forward for the next snapshotted type constraint to question.
    fn resume_scan(&mut self, proposed: Symbol) -> (r: TaskEvent)
        requires
            old(self).index <= old(self).existing@.len(),
            old(self).proposed_tag() == Some(proposed.name@),
        ensures
            final(self).existing@ == old(self).existing@,
            final(self).proposed == old(self).proposed,
            final(self).wf(),
            Self::scan_outcome(*old(self), old(self).index as int, *final(self), r),
    {
        let ghost e = self.existing_model();
        let n = self.existing.len();
        while self.index < n
            invariant
                self.index <= n == self.existing@.len(),
                self.existing@ == old(self).existing@,
                self.proposed == old(self).proposed,
                old(self).proposed_tag() == Some(proposed.name@),
                e == self.existing_model(),
                next_isa_index(e, old(self).index as int) == next_isa_index(
                    e,
                    self.index as int,
                ),
            decreases n - self.index,
        {
            proof {
                assert(e[self.index as int] == self.existing@[self.index as int]@);
            }
            match Self::isa_tag_of(&self.existing[self.index]) {
                Some(tag) => {
                    proof {
                        assert(isa_tag(e[self.index as int]) is Some);
                        assert(next_isa_index(e, self.index as int) == self.index as int);
                        assert(Some(proposed.name@) == old(self).proposed_tag());
                    }
                    self.phase = CheckPhase::AwaitingPrimary;
                    let ghost pname = proposed.name@;
                    let r = TaskEvent::Suspended(
                        SubclassRequest { left_tag: proposed, right_tag: tag },
                    );
                    proof {
                        assert(r matches TaskEvent::Suspended(q) && q.left_tag.name@ == pname);
                        assert(self.proposed_tag() == old(self).proposed_tag());
                    }
                    return r;
                },
                None => {
                    proof {
                        assert(next_isa_index(e, self.index as int) == next_isa_index(
                            e,
                            self.index as int + 1,
                        ));
                    }
                    self.index += 1;
                },
            }
        }
        proof {
            assert(next_isa_index(e, self.index as int) == e.len());
        }
        self.phase = CheckPhase::Scanning;
        TaskEvent::Done(true)
    }

    /// Drive the task one step. The first call passes no answer; after a
    /// suspension, the next call passes the host's answer to the question.
    /// The snapshot and the proposed constraint are never changed.
    pub fn advance(&mut self, answer: Option<bool>) -> (r: TaskEvent)
        requires
            old(self).wf(),
            (answer is Some) == (old(self).phase is AwaitingPrimary
                || old(self).phase is AwaitingAlternative),
        ensures
            final(self).wf(),
            final(self).existing@ == old(self).existing@,
            final(self).proposed == old(self).proposed,
            old(self).phase is Failed ==> r == TaskEvent::Done(false) && final(self).phase
                is Failed,
            old(self).phase is Scanning ==> {
                if old(self).proposed_tag() is None {
                    r == TaskEvent::Done(true) && final(self).phase is Scanning
                        && final(self).index == old(self).existing@.len()
                } else {
                    Self::scan_outcome(*old(self), old(self).index as int, *final(self), r)
                }
            },
            old(self).phase is AwaitingPrimary && answer == Some(true) ==> Self::scan_outcome(
                *old(self),
                old(self).index as int + 1,
                *final(self),
                r,
            ),
            old(self).phase is AwaitingPrimary && answer == Some(false) ==> {
                &&& final(self).phase is AwaitingAlternative
                &&& final(self).index == old(self).index
                &&& r matches TaskEvent::Suspended(q) && Some(q.left_tag.name@) == isa_tag(
                    old(self).existing_model()[old(self).index as int],
                ) && Some(q.right_tag.name@) == old(self).proposed_tag()
            },
            old(self).phase is AwaitingAlternative && answer == Some(true) ==> Self::scan_outcome(
                *old(self),
                old(self).index as int + 1,
                *final(self),
                r,
            ),
            old(self).phase is AwaitingAlternative && answer == Some(false) ==> r
                == TaskEvent::Done(false) && final(self).phase is Failed,
    {
        match self.phase {
            CheckPhase::Failed => TaskEvent::Done(false),
            CheckPhase::Scanning => {
                match Self::isa_tag_of(&self.proposed) {
                    None => {
                        self.index = self.existing.len();
                        TaskEvent::Done(true)
                    },
                    Some(ptag) => self.resume_scan(ptag),
                }
            },
            CheckPhase::AwaitingPrimary => {
                let yes = match answer {
                    Some(b) => b,
                    None => unreached(),
                };
                if yes {
                    proof {
                        assert(self.index < self.existing@.len());
                        assert(self.existing@.len() == self.existing.len());
                    }
                    self.index += 1;
                    let ptag = match Self::isa_tag_of(&self.proposed) {
                        Some(t) => t,
                        None => unreached(),
                    };
                    self.resume_scan(ptag)
                } else {
                    self.phase = CheckPhase::AwaitingAlternative;
                    let etag = match Self::isa_tag_of(&self.existing[self.index]) {
                        Some(t) => t,
                        None => unreached(),
                    };
                    let ptag = match Self::isa_tag_of(&self.proposed) {
                        Some(t) => t,
                        None => unreached(),
                    };
                    proof {
                        assert(self.existing_model()[self.index as int]
                            == self.existing@[self.index as int]@);
                    }
                    TaskEvent::Suspended(SubclassRequest { left_tag: etag, right_tag: ptag })
                }
            },
            CheckPhase::AwaitingAlternative => {
                let yes = match answer {
                    Some(b) => b,
                    None => unreached(),
                };
                if yes {
                    proof {
                        assert(self.index < self.existing@.len());
                        assert(self.existing@.len() == self.existing.len());
                    }
                    self.index += 1;
                    let ptag = match Self::isa_tag_of(&self.proposed) {
                        Some(t) => t,
                        None => unreached(),
                    };
                    self.resume_scan(ptag)
                } else {
                    self.phase = CheckPhase::Failed;
                    TaskEvent::Done(false)
                }
            },
        }
    }
}

} // verus!
