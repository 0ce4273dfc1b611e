//! Restricting actions to execution contexts.
//!
//! An action that has been restricted to a context is enabled only while the
//! current state belongs to that context; an action never restricted is
//! always evaluated. Each action has at most one restriction: restricting it
//! again replaces the earlier one.
use crate::lifecycle::GutzExecutionContext;
use vstd::prelude::*;

verus! {

/// Implemented by a game's action type: what the player wants to do. Two
/// actions are told apart by `same_action`, which is the action type's own
/// equality.
pub trait GutzAction: Copy {
    fn same_action(&self, other: &Self) -> (r: bool)
        ensures
            r == (*self == *other),
    ;
}

/// No action has two restrictions.
pub open spec fn distinct_actions<A>(s: Seq<(A, GutzExecutionContext)>) -> bool {
    forall|i: int, j: int| 0 <= i < j < s.len() ==> s[i].0 != s[j].0
}

/// `action` has a restriction in `s`.
pub open spec fn is_restricted<A>(s: Seq<(A, GutzExecutionContext)>, action: A) -> bool {
    exists|i: int| 0 <= i < s.len() && s[i].0 == action
}

/// Where the restriction of `action` stands in `s` (meaningful when it has
/// one).
pub open spec fn restriction_position<A>(s: Seq<(A, GutzExecutionContext)>, action: A) -> int {
    choose|i: int| 0 <= i < s.len() && s[i].0 == action
}

/// Restricting `action` to `context`: an earlier restriction of the action
/// is replaced in place; otherwise the restriction is added last.
pub open spec fn restrict_spec<A>(
    s: Seq<(A, GutzExecutionContext)>,
    action: A,
    context: GutzExecutionContext,
) -> Seq<(A, GutzExecutionContext)> {
    if is_restricted(s, action) {
        s.update(restriction_position(s, action), (action, context))
    } else {
        s.push((action, context))
    }
}

/// The restrictions after restricting, in order, each (action, context) of
/// `calls`.
pub open spec fn restrictions_after<A>(
    s: Seq<(A, GutzExecutionContext)>,
    calls: Seq<(A, GutzExecutionContext)>,
) -> Seq<(A, GutzExecutionContext)>
    decreases calls.len(),
{
    if calls.len() == 0 {
        s
    } else {
        restrict_spec(restrictions_after(s, calls.drop_last()), calls.last().0, calls.last().1)
    }
}

/// The context that the latest of `calls` naming `action` restricts it to.
pub open spec fn latest_context<A>(
    calls: Seq<(A, GutzExecutionContext)>,
    action: A,
) -> Option<GutzExecutionContext>
    decreases calls.len(),
{
    if calls.len() == 0 {
        None
    } else if calls.last().0 == action {
        Some(calls.last().1)
    } else {
        latest_context(calls.drop_last(), action)
    }
}

/// One decision per restricted action: enable it when the current context
/// is the one it is restricted to, disable it otherwise.
pub open spec fn decisions_spec<A>(
    restrictions: Seq<(A, GutzExecutionContext)>,
    current: Option<GutzExecutionContext>,
) -> Seq<(A, bool)> {
    restrictions.map_values(
        |r: (A, GutzExecutionContext)| (r.0, current == Some(r.1)),
    )
}

/// The restrictions recorded so far, each action once.
pub struct GutzInputContexts<A> {
    restrictions: Vec<(A, GutzExecutionContext)>,
}

impl<A: GutzAction> GutzInputContexts<A> {
    /// The restrictions, each action once, in the order the actions were
    /// first restricted.
    pub closed spec fn spec_restrictions(&self) -> Seq<(A, GutzExecutionContext)> {
        self.restrictions@
    }

    /// No action has two restrictions.
    pub open spec fn wf(&self) -> bool {
        distinct_actions(self.spec_restrictions())
    }

    pub fn new() -> (r: Self)
        ensures
            r.wf(),
            r.spec_restrictions() == Seq::<(A, GutzExecutionContext)>::empty(),
    {
        GutzInputContexts { restrictions: Vec::new() }
    }

    /// The restrictions, each action once.
    pub fn restrictions(&self) -> (r: &Vec<(A, GutzExecutionContext)>)
        ensures
            r@ == self.spec_restrictions(),
    {
        &self.restrictions
    }

    /// `action` is enabled only while the current state is in `context`;
    /// an earlier restriction of `action` is replaced. Returns the set
    /// itself, so that restrictions can be chained.
    pub fn restrict_to(&mut self, action: A, context: GutzExecutionContext) -> (r: &mut Self)
        requires
            old(self).wf(),
        ensures
            r.wf(),
            r.spec_restrictions() == restrict_spec(old(self).spec_restrictions(), action, context),
            *final(self) == *final(r),
    {
        let ghost s = self.restrictions@;
        let mut i: usize = 0;
        while i < self.restrictions.len()
            invariant
                self.restrictions@ == s,
                s == old(self).spec_restrictions(),
                distinct_actions(s),
                i <= s.len(),
                forall|j: int| 0 <= j < i ==> s[j].0 != action,
            decreases s.len() - i,
        {
            if self.restrictions[i].0.same_action(&action) {
                assert(is_restricted(s, action));
                assert(restriction_position(s, action) == i) by {
                    let k = restriction_position(s, action);
                    if k != i as int {
                        if k > i as int {
                            assert(s[i as int].0 != s[k].0);
                        }
                    }
                };
                self.restrictions.set(i, (action, context));
                assert(self.restrictions@ == s.update(i as int, (action, context)));
                assert(distinct_actions(self.restrictions@)) by {
                    assert forall|a: int, b: int| 0 <= a < b < self.restrictions@.len() implies
                        self.restrictions@[a].0 != self.restrictions@[b].0 by {
                        assert(self.restrictions@[a].0 == s[a].0);
                        assert(self.restrictions@[b].0 == s[b].0);
                    }
                };
                return self;
            }
            i = i + 1;
        }
        assert(!is_restricted(s, action));
        self.restrictions.push((action, context));
        assert(self.restrictions@ == s.push((action, context)));
        self
    }

    /// The enable/disable decisions for the current context (`None` when the
    /// game has no current state), one per restricted action.
    pub fn decisions(&self, current: Option<GutzExecutionContext>) -> (r: Vec<(A, bool)>)
        ensures
            r@ == decisions_spec(self.spec_restrictions(), current),
    {
        let mut r: Vec<(A, bool)> = Vec::new();
        let mut i: usize = 0;
        while i < self.restrictions.len()
            invariant
                i <= self.restrictions@.len(),
                r@ == decisions_spec(self.restrictions@.take(i as int), current),
            decreases self.restrictions@.len() - i,
        {
            let (action, required) = self.restrictions[i];
            let enabled = match current {
                Some(c) => c == required,
                None => false,
            };
            r.push((action, enabled));
            assert(r@ =~= decisions_spec(self.restrictions@.take(i + 1), current));
            i = i + 1;
        }
        assert(self.restrictions@.take(i as int) =~= self.restrictions@);
        r
    }
}

/// From no restrictions, after any sequence of `restrict_to` calls each
/// action has at most one restriction; an action has one exactly when some
/// call named it, and it is the context of the latest such call. So the
/// decisions hold each restricted action once, enabled exactly when its
/// latest restriction names the current context, and leave every other
/// action alone.
pub proof fn law_latest_restriction_wins<A>(calls: Seq<(A, GutzExecutionContext)>)
    ensures
        ({
            let s = restrictions_after(Seq::empty(), calls);
            &&& distinct_actions(s)
            &&& forall|a: A| #[trigger] is_restricted(s, a) <==> latest_context(calls, a) is Some
            &&& forall|i: int| 0 <= i < s.len() ==> latest_context(calls, (#[trigger] s[i]).0) == Some(s[i].1)
        }),
    decreases calls.len(),
{
    let s = restrictions_after(Seq::empty(), calls);
    if calls.len() > 0 {
        let rest = calls.drop_last();
        law_latest_restriction_wins(rest);
        let before = restrictions_after(Seq::empty(), rest);
        let (a0, c0) = (calls.last().0, calls.last().1);
        if is_restricted(before, a0) {
            let p = restriction_position(before, a0);
            assert(s == before.update(p, (a0, c0)));
            assert forall|i: int, j: int| 0 <= i < j < s.len() implies s[i].0 != s[j].0 by {
                assert(s[i].0 == before[i].0);
                assert(s[j].0 == before[j].0);
            }
            assert forall|a: A| #[trigger] is_restricted(s, a) <==> latest_context(calls, a) is Some by {
                if is_restricted(before, a) {
                    let k = choose|k: int| 0 <= k < before.len() && before[k].0 == a;
                    assert(s[k].0 == a);
                }
                if is_restricted(s, a) {
                    let k = choose|k: int| 0 <= k < s.len() && s[k].0 == a;
                    assert(before[k].0 == a);
                }
                if a == a0 {
                    assert(s[p].0 == a);
                }
            }
            assert forall|i: int| 0 <= i < s.len() implies latest_context(calls, (#[trigger] s[i]).0)
                == Some(s[i].1) by {
                if i != p {
                    assert(s[i] == before[i]);
                    assert(before[i].0 != before[p].0) by {
                        if i < p {
                        } else {
                        }
                    }
                }
            }
        } else {
            assert(s == before.push((a0, c0)));
            assert forall|i: int, j: int| 0 <= i < j < s.len() implies s[i].0 != s[j].0 by {
                if j == before.len() {
                    assert(s[i] == before[i]);
                }
            }
            assert forall|a: A| #[trigger] is_restricted(s, a) <==> latest_context(calls, a) is Some by {
                if is_restricted(before, a) {
                    let k = choose|k: int| 0 <= k < before.len() && before[k].0 == a;
                    assert(s[k].0 == a);
                }
                if is_restricted(s, a) {
                    let k = choose|k: int| 0 <= k < s.len() && s[k].0 == a;
                    if k < before.len() {
                        assert(before[k].0 == a);
                    }
                }
                if a == a0 {
                    assert(s[before.len() as int].0 == a);
                }
            }
            assert forall|i: int| 0 <= i < s.len() implies latest_context(calls, (#[trigger] s[i]).0)
                == Some(s[i].1) by {
                if i < before.len() {
                    assert(s[i] == before[i]);
                    if before[i].0 == a0 {
                        assert(is_restricted(before, a0));
                    }
                }
            }
        }
    } else {
        assert forall|a: A| #[trigger] is_restricted(s, a) <==> latest_context(calls, a) is Some by {
        }
    }
}

} // verus!
