use vstd::prelude::*;

use crate::bootstrap::{next, success_outcome, Abi, Action, Bootstrap, Event, Outcome, Phase};

verus! {

/// The state after the events `events`, starting from `s`.
pub open spec fn state_after(s: Bootstrap, events: Seq<Event>) -> Bootstrap
    decreases events.len(),
{
    if events.len() == 0 {
        s
    } else {
        next(state_after(s, events.drop_last()), events.last()).0
    }
}

/// The actions asked for, one per event, starting from `s`.
pub open spec fn actions_of(s: Bootstrap, events: Seq<Event>) -> Seq<Action>
    decreases events.len(),
{
    if events.len() == 0 {
        Seq::empty()
    } else {
        actions_of(s, events.drop_last()).push(next(state_after(s, events.drop_last()), events.last()).1)
    }
}

/// How many of `actions` end the bootstrap.
pub open spec fn finishes(actions: Seq<Action>) -> nat
    decreases actions.len(),
{
    if actions.len() == 0 {
        0
    } else {
        finishes(actions.drop_last()) + if actions.last() is Finish {
            1nat
        } else {
            0nat
        }
    }
}

/// How many of `actions` record an error on the runtime's error channel.
pub open spec fn reports(actions: Seq<Action>) -> nat
    decreases actions.len(),
{
    if actions.len() == 0 {
        0
    } else {
        reports(actions.drop_last()) + if actions.last() matches Action::Finish {
            report_error: true,
            ..
        } {
            1nat
        } else {
            0nat
        }
    }
}

/// True when the runtime reported the scope as held among `events`.
pub open spec fn scope_entered(events: Seq<Event>) -> bool {
    exists|m: int| 0 <= m < events.len() && events[m] == Event::ScopeOpened
}

/// What holds after any events from a fresh bootstrap.
proof fn lemma_run_invariant(abi: Abi, events: Seq<Event>)
    ensures
        ({
            let s = state_after(Bootstrap::initial(abi), events);
            let a = actions_of(Bootstrap::initial(abi), events);
            &&& a.len() == events.len()
            &&& s.abi == abi
            &&& reports(a) <= finishes(a) <= 1
            &&& s.phase != Phase::Done ==> finishes(a) == 0
            &&& s.phase != Phase::Done ==> s.scope_open == scope_entered(events)
            &&& s.phase == Phase::WrappingHandle || s.phase == Phase::SettingDoc || s.phase
                == Phase::RunningInitializer ==> s.scope_open
        }),
    decreases events.len(),
{
    if events.len() > 0 {
        let init = Bootstrap::initial(abi);
        let p = events.drop_last();
        lemma_run_invariant(abi, p);
        let a = actions_of(init, events);
        assert(a.drop_last() =~= actions_of(init, p));
        if scope_entered(p) {
            let m = choose|m: int| 0 <= m < p.len() && p[m] == Event::ScopeOpened;
            assert(events[m] == Event::ScopeOpened);
        }
        if scope_entered(events) && events.last() != Event::ScopeOpened {
            let m = choose|m: int| 0 <= m < events.len() && events[m] == Event::ScopeOpened;
            assert(p[m] == Event::ScopeOpened);
        }
    }
}

/// The action asked for at event `k` follows from the state before it.
proof fn lemma_action_at(abi: Abi, events: Seq<Event>, k: int)
    requires
        0 <= k < events.len(),
    ensures
        actions_of(Bootstrap::initial(abi), events).len() == events.len(),
        actions_of(Bootstrap::initial(abi), events)[k] == next(
            state_after(Bootstrap::initial(abi), events.take(k)),
            events[k],
        ).1,
    decreases events.len(),
{
    let init = Bootstrap::initial(abi);
    lemma_run_invariant(abi, events);
    let p = events.drop_last();
    if k == events.len() - 1 {
        assert(events.take(k) =~= p);
    } else {
        lemma_action_at(abi, p, k);
        assert(p.take(k) =~= events.take(k));
    }
}

/// Whatever the runtime reports, a bootstrap ends at most once, and so
/// records at most one error on the runtime's error channel.
pub proof fn law_bootstrap_ends_once(abi: Abi, events: Seq<Event>)
    ensures
        finishes(actions_of(Bootstrap::initial(abi), events)) <= 1,
        reports(actions_of(Bootstrap::initial(abi), events)) <= 1,
{
    lemma_run_invariant(abi, events);
}

/// A bootstrap that ends without recording an error does so only because
/// the initializer succeeded or because module creation failed, in which
/// case the runtime has recorded its own error; it hands back the module
/// only after the initializer succeeded, and then records no error.
pub proof fn law_silent_end(abi: Abi, events: Seq<Event>, k: int)
    requires
        0 <= k < events.len(),
    ensures
        actions_of(Bootstrap::initial(abi), events)[k] matches Action::Finish {
            report_error: false,
            ..
        } ==> events[k] == (Event::ModuleCreated { ok: false }) || events[k] == (
        Event::InitializerFinished { ok: true }),
        actions_of(Bootstrap::initial(abi), events)[k] matches Action::Finish {
            outcome: Outcome::Module,
            ..
        } ==> events[k] == (Event::InitializerFinished { ok: true })
            && actions_of(Bootstrap::initial(abi), events)[k] == (Action::Finish {
            report_error: false,
            release_scope: true,
            outcome: success_outcome(abi),
        }),
{
    lemma_action_at(abi, events, k);
    lemma_run_invariant(abi, events.take(k));
}

/// A bootstrap that ends releases the interop scope exactly when the
/// runtime reported it held before.
pub proof fn law_scope_released(abi: Abi, events: Seq<Event>, k: int)
    requires
        0 <= k < events.len(),
    ensures
        actions_of(Bootstrap::initial(abi), events)[k] matches Action::Finish {
            release_scope,
            ..
        } ==> release_scope == scope_entered(events.take(k)),
{
    lemma_action_at(abi, events, k);
    lemma_run_invariant(abi, events.take(k));
}

} // verus!
