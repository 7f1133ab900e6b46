//! What the watch loop does over a whole history of events.

use crate::watch::{
    accepts, actions_for, initial_state, next_state, starting_actions, valid, ActionView,
    EventView, Notice, Phase, WatchState,
};
use vstd::prelude::*;

verus! {

/// With what an operation is set up.
pub struct Launch {
    pub reload: bool,
    pub changed_paths: Option<Seq<Seq<char>>>,
}

/// The launches that a list of actions asks for, in order.
pub open spec fn launches_in(actions: Seq<ActionView>) -> Seq<Launch>
    decreases actions.len(),
{
    if actions.len() == 0 {
        Seq::empty()
    } else {
        launches_in(actions.drop_last()) + (match actions.last() {
            ActionView::Run { reload, changed_paths } => seq![Launch { reload, changed_paths }],
            _ => Seq::empty(),
        })
    }
}

/// The change that event `e` delivers in state `s`, if it delivers one.
pub open spec fn change_in(s: WatchState, e: EventView) -> Seq<Seq<Seq<char>>> {
    match e {
        EventView::Changed { paths, .. } => if accepts(s, e) {
            seq![paths]
        } else {
            Seq::empty()
        },
        _ => Seq::empty(),
    }
}

/// The state after a whole history, first event first.
pub open spec fn after_events(s: WatchState, events: Seq<EventView>) -> WatchState
    decreases events.len(),
{
    if events.len() == 0 {
        s
    } else {
        next_state(after_events(s, events.drop_last()), events.last())
    }
}

/// Every launch that a history asks for, in order.
pub open spec fn launches(s: WatchState, events: Seq<EventView>) -> Seq<Launch>
    decreases events.len(),
{
    if events.len() == 0 {
        Seq::empty()
    } else {
        launches(s, events.drop_last()) + launches_in(
            actions_for(after_events(s, events.drop_last()), events.last()),
        )
    }
}

/// Every change that a history delivers, in order.
pub open spec fn changes(s: WatchState, events: Seq<EventView>) -> Seq<Seq<Seq<char>>>
    decreases events.len(),
{
    if events.len() == 0 {
        Seq::empty()
    } else {
        changes(s, events.drop_last()) + change_in(
            after_events(s, events.drop_last()),
            events.last(),
        )
    }
}

/// Registration requests only.
pub open spec fn all_registrations(events: Seq<EventView>) -> bool {
    forall|k: int| 0 <= k < events.len() ==> (#[trigger] events[k]) is Registered
}

proof fn lemma_launches_in_push(actions: Seq<ActionView>, last: ActionView)
    ensures
        launches_in(actions.push(last)) == launches_in(actions) + (match last {
            ActionView::Run { reload, changed_paths } => seq![Launch { reload, changed_paths }],
            _ => Seq::<Launch>::empty(),
        }),
{
    assert(actions.push(last).drop_last() =~= actions);
}

proof fn lemma_no_launch(actions: Seq<ActionView>)
    requires
        forall|i: int| 0 <= i < actions.len() ==> !((#[trigger] actions[i]) is Run),
    ensures
        launches_in(actions) == Seq::<Launch>::empty(),
    decreases actions.len(),
{
    if actions.len() > 0 {
        lemma_no_launch(actions.drop_last());
        assert(!(actions[actions.len() - 1] is Run));
        assert(launches_in(actions) =~= Seq::<Launch>::empty());
    }
}

/// What one step launches: a fresh watcher sets up the operation, with the reload
/// flag of a first cycle and the change that caused the restart; nothing else does.
pub proof fn lemma_step_launches(s: WatchState, e: EventView)
    ensures
        launches_in(actions_for(s, e)) == if s.phase == Phase::Starting && e is WatcherReady {
            seq![Launch { reload: s.first_cycle, changed_paths: s.changed }]
        } else {
            Seq::<Launch>::empty()
        },
{
    let actions = actions_for(s, e);
    if s.phase == Phase::Starting && e is WatcherReady {
        let run = ActionView::Run { reload: s.first_cycle, changed_paths: s.changed };
        let head = actions.drop_last();
        assert(actions =~= head.push(run));
        lemma_no_launch(head);
        lemma_launches_in_push(head, run);
        assert(launches_in(actions) =~= seq![
            Launch { reload: s.first_cycle, changed_paths: s.changed },
        ]);
    } else {
        lemma_no_launch(actions);
    }
}

/// What holds after every history that begins in the initial state.
spec fn coherent(s: WatchState, run: Seq<Launch>, seen: Seq<Seq<Seq<char>>>) -> bool {
    &&& s.first_cycle <==> run.len() == 0
    &&& s.first_cycle ==> s.phase == Phase::Starting || s.phase == Phase::Failed
    &&& match s.phase {
        Phase::Starting => run.len() == seen.len() && s.changed == if seen.len() == 0 {
            None
        } else {
            Some(seen.last())
        },
        Phase::RunningWithRegistration => run.len() == seen.len() + 1,
        Phase::AwaitingAfterCompletion => run.len() == seen.len() + 1,
        Phase::Failed => seen.len() <= run.len() <= seen.len() + 1,
    }
    &&& run.len() > 0 ==> run[0] == Launch { reload: true, changed_paths: None }
    &&& forall|k: int|
        1 <= k < run.len() ==> #[trigger] run[k] == Launch {
            reload: false,
            changed_paths: Some(seen[k - 1]),
        }
}

proof fn lemma_coherent(start: WatchState, events: Seq<EventView>)
    requires
        start == initial_state(start.job_name, start.clear_screen),
    ensures
        coherent(after_events(start, events), launches(start, events), changes(start, events)),
    decreases events.len(),
{
    if events.len() > 0 {
        let before = events.drop_last();
        let e = events.last();
        lemma_coherent(start, before);
        let s = after_events(start, before);
        lemma_step_launches(s, e);
        let run = launches(start, before);
        let seen = changes(start, before);
        let run_after = launches(start, events);
        let seen_after = changes(start, events);
        assert(run_after == run + launches_in(actions_for(s, e)));
        assert(seen_after == seen + change_in(s, e));
        if accepts(s, e) {
            match e {
                EventView::WatcherReady => {
                    assert(run_after =~= run.push(
                        Launch { reload: s.first_cycle, changed_paths: s.changed },
                    ));
                    assert(seen_after =~= seen);
                },
                EventView::Changed { paths, interactive } => {
                    assert(run_after =~= run);
                    assert(seen_after =~= seen.push(paths));
                },
                _ => {
                    assert(run_after =~= run);
                    assert(seen_after =~= seen);
                },
            }
        } else {
            assert(run_after =~= run);
            assert(seen_after =~= seen);
        }
    }
}

/// The operation is set up with the reload flag raised and without a changed-path
/// context exactly once, at the first launch. Every later launch has the flag lowered
/// and carries the change that was delivered most recently: launches and changes
/// take turns, so that the change before launch `k` is change `k - 1`.
pub proof fn lemma_launch_contexts(
    job_name: Seq<char>,
    clear_screen: bool,
    events: Seq<EventView>,
)
    ensures
        ({
            let run = launches(initial_state(job_name, clear_screen), events);
            let seen = changes(initial_state(job_name, clear_screen), events);
            &&& seen.len() <= run.len() <= seen.len() + 1
            &&& run.len() > 0 ==> run[0] == Launch { reload: true, changed_paths: None }
            &&& forall|k: int|
                1 <= k < run.len() ==> #[trigger] run[k] == Launch {
                    reload: false,
                    changed_paths: Some(seen[k - 1]),
                }
        }),
{
    lemma_coherent(initial_state(job_name, clear_screen), events);
}

/// Every step keeps a state valid.
pub proof fn lemma_step_keeps_valid(s: WatchState, e: EventView)
    requires
        valid(s),
    ensures
        valid(next_state(s, e)),
{
    match e {
        EventView::Registered(paths) => {
            crate::path::lemma_merged_distinct(s.watched, paths);
        },
        _ => {},
    }
}

/// Whatever happens, a loop that began in the initial state is in a valid state.
pub proof fn lemma_history_keeps_valid(job_name: Seq<char>, clear_screen: bool, events: Seq<EventView>)
    ensures
        valid(after_events(initial_state(job_name, clear_screen), events)),
    decreases events.len(),
{
    if events.len() > 0 {
        lemma_history_keeps_valid(job_name, clear_screen, events.drop_last());
        lemma_step_keeps_valid(
            after_events(initial_state(job_name, clear_screen), events.drop_last()),
            events.last(),
        );
    }
}

/// Registering the same paths twice is registering them once: the second request
/// finds every path watched already, asks for nothing to be watched, and leaves the
/// set of watched paths, and so its size, as it was.
pub proof fn lemma_registering_twice(s: WatchState, paths: Seq<Seq<char>>)
    requires
        s.phase == Phase::RunningWithRegistration || s.phase == Phase::AwaitingAfterCompletion,
    ensures
        ({
            let request = EventView::Registered(paths);
            let once = next_state(s, request);
            &&& next_state(once, request) == once
            &&& next_state(once, request).watched.len() == once.watched.len()
            &&& actions_for(once, request) == seq![ActionView::Watch(Seq::empty())]
        }),
{
    crate::path::lemma_merged_idempotent(s.watched, paths);
    let once = next_state(s, EventView::Registered(paths));
    assert(crate::path::fresh(once.watched, paths) =~= Seq::<Seq<char>>::empty());
}

/// A watcher that cannot be constructed ends the loop: the only thing asked for is
/// to fail, no status line among it, and from then on no event changes anything or
/// asks for anything.
pub proof fn lemma_failed_start_is_final(s: WatchState, later: EventView)
    requires
        s.phase == Phase::Starting,
    ensures
        ({
            let failed = next_state(s, EventView::WatcherFailed);
            &&& actions_for(s, EventView::WatcherFailed) == seq![ActionView::Fail]
            &&& failed.phase == Phase::Failed
            &&& next_state(failed, later) == failed
            &&& actions_for(failed, later) == Seq::<ActionView>::empty()
        }),
{
}

/// Registration requests leave the phase, the pending change and the reload flag
/// alone.
pub proof fn lemma_registrations_keep_phase(s: WatchState, registrations: Seq<EventView>)
    requires
        all_registrations(registrations),
    ensures
        after_events(s, registrations).phase == s.phase,
        after_events(s, registrations).first_cycle == s.first_cycle,
        after_events(s, registrations).changed == s.changed,
        after_events(s, registrations).clear_screen == s.clear_screen,
    decreases registrations.len(),
{
    if registrations.len() > 0 {
        assert(registrations.last() is Registered);
        assert forall|k: int| 0 <= k < registrations.drop_last().len() implies (
        #[trigger] registrations.drop_last()[k]) is Registered by {
            assert(registrations[k] is Registered);
        }
        lemma_registrations_keep_phase(s, registrations.drop_last());
    }
}

/// A failed run does not end the loop. The failure is reported and the loop goes on
/// waiting; whatever is registered meanwhile, the next change restarts the cycle, and
/// the operation is then set up anew with that change as its context.
pub proof fn lemma_failure_keeps_watching(
    s: WatchState,
    registrations: Seq<EventView>,
    paths: Seq<Seq<char>>,
    interactive: bool,
)
    requires
        valid(s),
        s.phase == Phase::RunningWithRegistration,
        all_registrations(registrations),
    ensures
        ({
            let failed = EventView::Finished { success: false };
            let change = EventView::Changed { paths, interactive };
            let waiting = after_events(next_state(s, failed), registrations);
            let restarted = next_state(waiting, change);
            &&& actions_for(s, failed) == seq![
                ActionView::DrainRegistrations,
                ActionView::Log(Notice::Failed),
            ]
            &&& waiting.phase == Phase::AwaitingAfterCompletion
            &&& actions_for(waiting, change) == (if s.clear_screen && interactive {
                seq![ActionView::ClearScreen]
            } else {
                Seq::<ActionView>::empty()
            }) + seq![ActionView::Log(Notice::ChangeDetected), ActionView::Abandon]
                + starting_actions()
            &&& restarted.phase == Phase::Starting
            &&& launches_in(actions_for(restarted, EventView::WatcherReady)) == seq![
                Launch { reload: false, changed_paths: Some(paths) },
            ]
        }),
{
    let failed = EventView::Finished { success: false };
    let change = EventView::Changed { paths, interactive };
    let after_failure = next_state(s, failed);
    lemma_registrations_keep_phase(after_failure, registrations);
    let waiting = after_events(after_failure, registrations);
    let restarted = next_state(waiting, change);
    lemma_step_launches(restarted, EventView::WatcherReady);
}

} // verus!
