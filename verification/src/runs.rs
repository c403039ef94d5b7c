//! What holds of every reconciliation, whatever the server answers.
//!
//! A run is what the engine asks for, step by step, on a sequence of events.
//! The statements here are about every request and every such sequence.

use vstd::prelude::*;
use crate::client::{focus_operation, OperationView};
use crate::engine::{
    initial, keys_for, must_clean, pane_count_in, pane_present, placeholder_in, session_of,
    spec_step, window_of, window_target, EngineView, Event, NextView, Phase,
};
use crate::snapshot::{lemma_created_session_is_found, lemma_created_window_is_found};
use crate::target::TargetView;
use crate::workspace::WorkSpace;

verus! {

/// What the engine asks for, step by step, when it starts in `state` and is
/// handed `events` one after the other.
pub open spec fn run(
    request: WorkSpace,
    inside_client: bool,
    state: EngineView,
    events: Seq<Event>,
) -> Seq<NextView>
    decreases events.len(),
{
    if events.len() == 0 {
        Seq::empty()
    } else {
        let (then, next) = spec_step(request, inside_client, state, events[0]);
        seq![next] + run(request, inside_client, then, events.subrange(1, events.len() as int))
    }
}

/// Removing the window `name` of the wanted session.
pub open spec fn removal(request: WorkSpace, name: Seq<char>) -> NextView {
    NextView::Perform(
        OperationView::KillWindow {
            target: TargetView { session: session_of(request), window: name, pane: None },
        },
    )
}

/// Whether a step asks for the terminal to be focused.
pub open spec fn is_focus(next: NextView) -> bool {
    next matches NextView::Perform(operation) && operation.is_focus()
}

/// Whether a step asks for a session to be created.
pub open spec fn is_new_session(next: NextView) -> bool {
    next matches NextView::Perform(operation) && operation is NewSession
}

/// A run has one entry for each event, and its entries behind the first are
/// the run from the second state on.
pub proof fn lemma_run_unfolds(
    request: WorkSpace,
    inside_client: bool,
    state: EngineView,
    events: Seq<Event>,
)
    ensures
        run(request, inside_client, state, events).len() == events.len(),
        events.len() > 0 ==> run(request, inside_client, state, events)[0] == spec_step(
            request,
            inside_client,
            state,
            events[0],
        ).1,
        forall|k: int|
            1 <= k < events.len() ==> run(request, inside_client, state, events)[k] == run(
                request,
                inside_client,
                spec_step(request, inside_client, state, events[0]).0,
                events.subrange(1, events.len() as int),
            )[k - 1],
    decreases events.len(),
{
    if events.len() > 0 {
        let then = spec_step(request, inside_client, state, events[0]).0;
        lemma_run_unfolds(request, inside_client, then, events.subrange(1, events.len() as int));
    }
}

/// Once the terminal has been focused, or the reconciliation has ended, no
/// operation is asked for any more.
pub proof fn lemma_nothing_after_focus(
    request: WorkSpace,
    inside_client: bool,
    state: EngineView,
    events: Seq<Event>,
)
    requires
        state.phase is Attaching || state.phase is Finished,
    ensures
        forall|k: int|
            0 <= k < events.len() ==> !(run(request, inside_client, state, events)[k] is Perform),
    decreases events.len(),
{
    lemma_run_unfolds(request, inside_client, state, events);
    if events.len() > 0 {
        let then = spec_step(request, inside_client, state, events[0]).0;
        lemma_nothing_after_focus(
            request,
            inside_client,
            then,
            events.subrange(1, events.len() as int),
        );
    }
}

/// Behind the first step no session is created: once the first view of the
/// server has been read, the engine never asks for one again.
pub proof fn lemma_no_session_later(
    request: WorkSpace,
    inside_client: bool,
    state: EngineView,
    events: Seq<Event>,
)
    requires
        !(state.phase is Inspecting),
    ensures
        forall|k: int|
            0 <= k < events.len() ==> !is_new_session(
                run(request, inside_client, state, events)[k],
            ),
    decreases events.len(),
{
    lemma_run_unfolds(request, inside_client, state, events);
    if events.len() > 0 {
        let then = spec_step(request, inside_client, state, events[0]).0;
        lemma_no_session_later(request, inside_client, then, events.subrange(1, events.len() as int));
    }
}

/// Where the first view of the server does not show the session, the session
/// is created exactly once: by the first step, under its normalized name and
/// rooted at the directory, and by no later step.
pub proof fn lemma_session_created_once(
    request: WorkSpace,
    inside_client: bool,
    events: Seq<Event>,
)
    requires
        events.len() > 0,
        events[0] matches Event::Completed(snapshot) && snapshot.spec_find_session(
            request.session_name@,
        ) is None,
    ensures
        run(request, inside_client, initial(), events)[0] == NextView::Perform(
            OperationView::NewSession { session: session_of(request), directory: request.path@ },
        ),
        forall|k: int|
            1 <= k < events.len() ==> !is_new_session(
                run(request, inside_client, initial(), events)[k],
            ),
{
    lemma_run_unfolds(request, inside_client, initial(), events);
    let then = spec_step(request, inside_client, initial(), events[0]).0;
    lemma_no_session_later(request, inside_client, then, events.subrange(1, events.len() as int));
}

/// Where the first view of the server shows the session, no session is
/// created at all.
pub proof fn lemma_existing_session_is_kept(
    request: WorkSpace,
    inside_client: bool,
    events: Seq<Event>,
)
    requires
        events.len() > 0,
        events[0] matches Event::Completed(snapshot) && snapshot.spec_find_session(
            request.session_name@,
        ) is Some,
    ensures
        forall|k: int|
            0 <= k < events.len() ==> !is_new_session(
                run(request, inside_client, initial(), events)[k],
            ),
{
    lemma_run_unfolds(request, inside_client, initial(), events);
    let then = spec_step(request, inside_client, initial(), events[0]).0;
    lemma_no_session_later(request, inside_client, then, events.subrange(1, events.len() as int));
}

/// Where the first view of the server shows the wanted window, the only
/// operation of the whole run is the focus on pane 0 of that window: there is
/// no split, no layout, no key is sent, nothing is created or removed.
pub proof fn lemma_existing_window_is_only_focused(
    request: WorkSpace,
    inside_client: bool,
    events: Seq<Event>,
)
    requires
        events.len() > 0,
        events[0] matches Event::Completed(snapshot) && snapshot.spec_find_window(
            request.session_name@,
            request.spec_window_name(),
        ) is Some,
    ensures
        run(request, inside_client, initial(), events)[0] == NextView::Perform(
            focus_operation(inside_client, window_target(request, Some(0usize))),
        ),
        forall|k: int|
            1 <= k < events.len() ==> !(run(request, inside_client, initial(), events)[k]
                is Perform),
        events.len() > 1 && events[1] is Completed ==> run(
            request,
            inside_client,
            initial(),
            events,
        )[1] is Done,
{
    lemma_run_unfolds(request, inside_client, initial(), events);
    let then = spec_step(request, inside_client, initial(), events[0]).0;
    let rest = events.subrange(1, events.len() as int);
    lemma_nothing_after_focus(request, inside_client, then, rest);
    lemma_run_unfolds(request, inside_client, then, rest);
}

/// The states in which the window `name`, which came with the session the
/// engine created, still stands and has to go before the run ends.
pub open spec fn holds_leftover(request: WorkSpace, state: EngineView, name: Seq<char>) -> bool {
    &&& state.placeholder == Some(name)
    &&& must_clean(request, Some(name))
    &&& (state.phase is CreatingWindow || state.phase is Splitting || state.phase
        is ApplyingLayout || state.phase is Sending || state.phase is Cleaning)
}

/// From a state that holds a leftover window, the terminal is focused only
/// by the step that follows the removal of that window.
pub proof fn lemma_leftover_goes_first(
    request: WorkSpace,
    inside_client: bool,
    state: EngineView,
    events: Seq<Event>,
    name: Seq<char>,
)
    requires
        holds_leftover(request, state, name),
    ensures
        forall|k: int|
            0 <= k < events.len() && is_focus(run(request, inside_client, state, events)[k]) ==> (k
                == 0 && state.phase is Cleaning) || (k > 0 && run(
                request,
                inside_client,
                state,
                events,
            )[k - 1] == removal(request, name)),
    decreases events.len(),
{
    lemma_run_unfolds(request, inside_client, state, events);
    if events.len() > 0 {
        let (then, next) = spec_step(request, inside_client, state, events[0]);
        let rest = events.subrange(1, events.len() as int);
        lemma_run_unfolds(request, inside_client, then, rest);
        if holds_leftover(request, then, name) {
            lemma_leftover_goes_first(request, inside_client, then, rest, name);
            assert(then.phase is Cleaning ==> next == removal(request, name));
        } else {
            assert(then.phase is Attaching || then.phase is Finished);
            lemma_nothing_after_focus(request, inside_client, then, rest);
        }
        let whole = run(request, inside_client, state, events);
        assert forall|k: int| 0 <= k < events.len() && is_focus(whole[k]) implies (k == 0
            && state.phase is Cleaning) || (k > 0 && whole[k - 1] == removal(request, name)) by {
            if k == 1 {
                assert(whole[0] == next);
            } else if k > 1 {
                assert(whole[k - 1] == run(request, inside_client, then, rest)[k - 2]);
            }
        }
    }
}

/// Where the engine creates the session, and the server puts a window into
/// it that is not the wanted one, that window is removed before the terminal
/// is focused: the step in front of the focus is its removal. By then the
/// wanted window stands, for it was either shown in the new session or asked
/// for by the second step.
pub proof fn lemma_placeholder_removed_before_focus(
    request: WorkSpace,
    inside_client: bool,
    events: Seq<Event>,
)
    requires
        events.len() >= 2,
        events[0] matches Event::Completed(first) && first.spec_find_session(
            request.session_name@,
        ) is None,
        events[1] matches Event::Completed(second) && must_clean(
            request,
            placeholder_in(second, request),
        ),
    ensures
        run(request, inside_client, initial(), events)[0] == NextView::Perform(
            OperationView::NewSession { session: session_of(request), directory: request.path@ },
        ),
        events[1]->Completed_0.spec_find_window(
            request.session_name@,
            request.spec_window_name(),
        ) is None ==> run(request, inside_client, initial(), events)[1] == NextView::Perform(
            OperationView::NewWindow {
                session: session_of(request),
                window: window_of(request),
                directory: request.path@,
            },
        ),
        forall|k: int|
            0 <= k < events.len() && is_focus(run(request, inside_client, initial(), events)[k])
                ==> k >= 2 && run(request, inside_client, initial(), events)[k - 1] == removal(
                request,
                placeholder_in(events[1]->Completed_0, request).unwrap(),
            ),
{
    let name = placeholder_in(events[1]->Completed_0, request).unwrap();
    let whole = run(request, inside_client, initial(), events);
    lemma_run_unfolds(request, inside_client, initial(), events);
    let (second_state, first_next) = spec_step(request, inside_client, initial(), events[0]);
    let tail = events.subrange(1, events.len() as int);
    lemma_run_unfolds(request, inside_client, second_state, tail);
    let (third_state, second_next) = spec_step(request, inside_client, second_state, tail[0]);
    let rest = tail.subrange(1, tail.len() as int);
    assert(tail[0] == events[1]);
    assert(holds_leftover(request, third_state, name));
    lemma_leftover_goes_first(request, inside_client, third_state, rest, name);
    lemma_run_unfolds(request, inside_client, third_state, rest);
    assert(whole[1] == second_next);
    assert(third_state.phase is Cleaning ==> second_next == removal(request, name));
    assert forall|k: int| 0 <= k < events.len() && is_focus(whole[k]) implies k >= 2 && whole[k
        - 1] == removal(request, name) by {
        if k >= 2 {
            let from_third = run(request, inside_client, third_state, rest);
            assert(whole[k] == run(request, inside_client, second_state, tail)[k - 1]);
            assert(whole[k] == from_third[k - 2]);
            if k > 2 {
                assert(whole[k - 1] == run(request, inside_client, second_state, tail)[k - 2]);
                assert(whole[k - 1] == from_third[k - 3]);
            }
        }
    }
}

/// The window is grown to the larger of the layout's pane count and the
/// number of commands. While the engine waits for the window or for a split,
/// it asks for one more split exactly when the snapshot shows fewer panes
/// than that, and for the layout otherwise.
pub proof fn lemma_growth_reaches_required_panes(
    request: WorkSpace,
    inside_client: bool,
    state: EngineView,
    snapshot: crate::snapshot::Snapshot,
)
    requires
        state.phase is CreatingWindow || state.phase is Splitting,
    ensures
        request.required_panes() >= request.number_of_panes,
        request.required_panes() >= request.commands@.len(),
        request.required_panes() == request.number_of_panes || request.required_panes()
            == request.commands@.len(),
        pane_count_in(snapshot, request) < request.required_panes() ==> spec_step(
            request,
            inside_client,
            state,
            Event::Completed(snapshot),
        ).1 == NextView::Perform(
            OperationView::SplitWindow {
                target: window_target(request, None),
                directory: request.path@,
            },
        ),
        pane_count_in(snapshot, request) >= request.required_panes() ==> spec_step(
            request,
            inside_client,
            state,
            Event::Completed(snapshot),
        ).1 == NextView::Perform(
            OperationView::SelectLayout {
                target: window_target(request, Some(0usize)),
                layout: request.format_checksum@,
            },
        ),
{
}

/// In whatever state, the layout is asked for only on a snapshot that shows
/// the window with all the panes required, and it is the request's
/// descriptor, unchanged, applied to pane 0.
pub proof fn lemma_layout_needs_all_panes(
    request: WorkSpace,
    inside_client: bool,
    state: EngineView,
    event: Event,
)
    requires
        spec_step(request, inside_client, state, event).1 matches NextView::Perform(operation)
            && operation is SelectLayout,
    ensures
        event matches Event::Completed(snapshot) && pane_count_in(snapshot, request)
            >= request.number_of_panes && pane_count_in(snapshot, request)
            >= request.commands@.len(),
        spec_step(request, inside_client, state, event).1 == NextView::Perform(
            OperationView::SelectLayout {
                target: window_target(request, Some(0usize)),
                layout: request.format_checksum@,
            },
        ),
{
}

/// In whatever state, keys are sent only for a command of the request, to
/// the pane whose index is the command's position in the list, and they are
/// the command's text followed by the enter key. The snapshot at hand shows
/// that pane.
pub proof fn lemma_keys_go_to_the_pane_of_their_position(
    request: WorkSpace,
    inside_client: bool,
    state: EngineView,
    event: Event,
)
    requires
        spec_step(request, inside_client, state, event).1 matches NextView::Perform(operation)
            && operation is SendKeys,
    ensures
        ({
            let (then, next) = spec_step(request, inside_client, state, event);
            &&& then.phase matches Phase::Sending { index }
            &&& index < request.commands@.len()
            &&& next == NextView::Perform(
                OperationView::SendKeys {
                    target: window_target(request, Some(index)),
                    keys: keys_for(request.commands@[index as int]@),
                },
            )
            &&& event matches Event::Completed(snapshot) && pane_present(snapshot, request, index)
            &&& state.phase matches Phase::Sending { index: sent } ==> sent < index
        }),
{
    let snapshot = event->Completed_0;
    assert(request.commands.len() == request.commands@.len());
    match state.phase {
        Phase::ApplyingLayout => {
            lemma_next_dispatch(snapshot, request, 0);
        },
        Phase::Sending { index } => {
            lemma_next_dispatch(snapshot, request, (index + 1) as nat);
        },
        _ => {},
    }
}

/// The position that dispatch picks lies at or behind the one it started
/// from; where it is a command's position, the snapshot shows its pane, and
/// shows none for the positions passed over.
pub proof fn lemma_next_dispatch(snapshot: crate::snapshot::Snapshot, request: WorkSpace, from: nat)
    ensures
        from <= request.commands@.len() ==> from <= crate::engine::next_dispatch(
            snapshot,
            request,
            from,
        ) <= request.commands@.len(),
        crate::engine::next_dispatch(snapshot, request, from) < request.commands@.len()
            ==> pane_present(
            snapshot,
            request,
            crate::engine::next_dispatch(snapshot, request, from) as usize,
        ),
        forall|i: usize|
            from <= i < crate::engine::next_dispatch(snapshot, request, from) ==> !pane_present(
                snapshot,
                request,
                i,
            ),
    decreases request.commands@.len() - from,
{
    if from < request.commands@.len() && !pane_present(snapshot, request, from as usize) {
        lemma_next_dispatch(snapshot, request, from + 1);
    }
}

/// The first command goes to pane 0: once the layout is applied and the
/// snapshot shows pane 0, the next step sends the first command there,
/// whatever the command says.
pub proof fn lemma_first_command_goes_to_pane_zero(
    request: WorkSpace,
    inside_client: bool,
    state: EngineView,
    snapshot: crate::snapshot::Snapshot,
)
    requires
        state.phase is ApplyingLayout,
        request.commands@.len() > 0,
        pane_present(snapshot, request, 0),
    ensures
        spec_step(request, inside_client, state, Event::Completed(snapshot)).1
            == NextView::Perform(
            OperationView::SendKeys {
                target: window_target(request, Some(0usize)),
                keys: keys_for(request.commands@[0]@),
            },
        ),
{
}

/// Asking for one more split of the wanted window.
pub open spec fn split(request: WorkSpace) -> NextView {
    NextView::Perform(
        OperationView::SplitWindow {
            target: window_target(request, None),
            directory: request.path@,
        },
    )
}

/// Asking for the request's layout on pane 0 of the wanted window.
pub open spec fn layout(request: WorkSpace) -> NextView {
    NextView::Perform(
        OperationView::SelectLayout {
            target: window_target(request, Some(0usize)),
            layout: request.format_checksum@,
        },
    )
}

/// Sending the command at `position` to the pane of that index.
pub open spec fn sending(request: WorkSpace, position: int) -> NextView {
    NextView::Perform(
        OperationView::SendKeys {
            target: window_target(request, Some(position as usize)),
            keys: keys_for(request.commands@[position]@),
        },
    )
}

/// On a server where every split adds one pane to the window, the engine
/// splits exactly as often as panes are missing, and then asks for the
/// layout: a window that is `missing` panes short of the required number
/// is split `missing` times, no more and no less.
pub proof fn lemma_splits_exactly_what_is_missing(
    request: WorkSpace,
    inside_client: bool,
    state: EngineView,
    events: Seq<Event>,
    missing: nat,
)
    requires
        state.phase is CreatingWindow || state.phase is Splitting,
        events.len() > missing,
        forall|i: int| 0 <= i <= missing ==> (#[trigger] events[i]) is Completed,
        forall|i: int|
            0 <= i < missing ==> pane_count_in((#[trigger] events[i])->Completed_0, request)
                + missing - i == request.required_panes(),
        pane_count_in(events[missing as int]->Completed_0, request) >= request.required_panes(),
    ensures
        forall|i: int|
            0 <= i < missing ==> #[trigger] run(request, inside_client, state, events)[i] == split(
                request,
            ),
        run(request, inside_client, state, events)[missing as int] == layout(request),
    decreases missing,
{
    lemma_run_unfolds(request, inside_client, state, events);
    let whole = run(request, inside_client, state, events);
    if missing > 0 {
        let then = spec_step(request, inside_client, state, events[0]).0;
        let rest = events.subrange(1, events.len() as int);
        assert(whole[0] == split(request));
        assert forall|i: int| 0 <= i <= missing - 1 implies (#[trigger] rest[i]) is Completed by {
            assert(rest[i] == events[i + 1]);
        }
        assert forall|i: int| 0 <= i < missing - 1 implies pane_count_in(
            (#[trigger] rest[i])->Completed_0,
            request,
        ) + (missing - 1) - i == request.required_panes() by {
            assert(rest[i] == events[i + 1]);
        }
        assert(rest[missing - 1] == events[missing as int]);
        lemma_splits_exactly_what_is_missing(
            request,
            inside_client,
            then,
            rest,
            (missing - 1) as nat,
        );
        let tail = run(request, inside_client, then, rest);
        assert forall|i: int| 0 <= i < missing implies #[trigger] whole[i] == split(request) by {
            if i > 0 {
                assert(whole[i] == tail[i - 1]);
            }
        }
        assert(whole[missing as int] == tail[missing - 1]);
    }
}

/// The position from which the commands are still to be sent in a phase of
/// the dispatch.
pub open spec fn dispatched(phase: Phase) -> nat {
    match phase {
        Phase::Sending { index } => (index + 1) as nat,
        _ => 0,
    }
}

/// On a server whose window shows a pane for every command, each command is
/// sent, in the order of the list, to the pane whose index is its position,
/// and none is skipped. Behind the last one the reconciliation winds up.
pub proof fn lemma_every_command_reaches_its_pane(
    request: WorkSpace,
    inside_client: bool,
    state: EngineView,
    events: Seq<Event>,
)
    requires
        state.phase is ApplyingLayout || state.phase is Sending,
        dispatched(state.phase) <= request.commands@.len(),
        events.len() > request.commands@.len() - dispatched(state.phase),
        forall|i: int|
            0 <= i <= request.commands@.len() - dispatched(state.phase) ==> (
            #[trigger] events[i]) is Completed,
        forall|i: int, position: usize|
            0 <= i <= request.commands@.len() - dispatched(state.phase) && position
                < request.commands@.len() ==> #[trigger] pane_present(
                events[i]->Completed_0,
                request,
                position,
            ),
    ensures
        forall|i: int|
            0 <= i < request.commands@.len() - dispatched(state.phase) ==> #[trigger] run(
                request,
                inside_client,
                state,
                events,
            )[i] == sending(request, dispatched(state.phase) + i),
        run(request, inside_client, state, events)[request.commands@.len() - dispatched(
            state.phase,
        )] == crate::engine::wind_up(request, inside_client, state).1,
    decreases request.commands@.len() - dispatched(state.phase),
{
    let count = request.commands@.len();
    let from = dispatched(state.phase);
    assert(request.commands.len() == count);
    lemma_run_unfolds(request, inside_client, state, events);
    let whole = run(request, inside_client, state, events);
    let snapshot = events[0]->Completed_0;
    assert(events[0] is Completed);
    if from < count {
        assert(pane_present(events[0]->Completed_0, request, from as usize));
        assert(crate::engine::next_dispatch(snapshot, request, from) == from);
        assert(crate::engine::positions(from, from) =~= Seq::<usize>::empty());
        assert(state.skipped + Seq::<usize>::empty() =~= state.skipped);
        let then = spec_step(request, inside_client, state, events[0]).0;
        let rest = events.subrange(1, events.len() as int);
        assert(then.phase == (Phase::Sending { index: from as usize }));
        assert(then.placeholder == state.placeholder);
        assert(then.skipped == state.skipped);
        assert(whole[0] == sending(request, from as int));
        assert forall|i: int| 0 <= i <= count - (from + 1) implies (#[trigger] rest[i])
            is Completed by {
            assert(rest[i] == events[i + 1]);
        }
        assert forall|i: int, position: usize|
            0 <= i <= count - (from + 1) && position < count implies #[trigger] pane_present(
            rest[i]->Completed_0,
            request,
            position,
        ) by {
            assert(rest[i] == events[i + 1]);
            assert(pane_present(events[i + 1]->Completed_0, request, position));
        }
        lemma_every_command_reaches_its_pane(request, inside_client, then, rest);
        let tail = run(request, inside_client, then, rest);
        assert forall|i: int| 0 <= i < count - from implies #[trigger] whole[i] == sending(
            request,
            from + i,
        ) by {
            if i > 0 {
                assert(whole[i] == tail[i - 1]);
            }
        }
        assert(whole[count - from] == tail[count - from - 1]);
        assert(crate::engine::wind_up(request, inside_client, then).1 == crate::engine::wind_up(
            request,
            inside_client,
            state,
        ).1);
    } else {
        assert(crate::engine::next_dispatch(snapshot, request, from) == count);
        assert(crate::engine::positions(from, count) =~= Seq::<usize>::empty());
        assert(state.skipped + Seq::<usize>::empty() =~= state.skipped);
    }
}

/// The state of the engine after the first `k` of the events.
pub open spec fn state_at(
    request: WorkSpace,
    inside_client: bool,
    state: EngineView,
    events: Seq<Event>,
    k: nat,
) -> EngineView
    decreases k,
{
    if k == 0 {
        state
    } else {
        spec_step(
            request,
            inside_client,
            state_at(request, inside_client, state, events, (k - 1) as nat),
            events[k - 1],
        ).0
    }
}

proof fn lemma_state_at_shift(
    request: WorkSpace,
    inside_client: bool,
    state: EngineView,
    events: Seq<Event>,
    k: nat,
)
    requires
        1 <= k <= events.len(),
    ensures
        state_at(request, inside_client, state, events, k) == state_at(
            request,
            inside_client,
            spec_step(request, inside_client, state, events[0]).0,
            events.subrange(1, events.len() as int),
            (k - 1) as nat,
        ),
    decreases k,
{
    let then = spec_step(request, inside_client, state, events[0]).0;
    let rest = events.subrange(1, events.len() as int);
    if k > 1 {
        lemma_state_at_shift(request, inside_client, state, events, (k - 1) as nat);
        assert(rest[k - 2] == events[k - 1]);
        assert(state_at(request, inside_client, then, rest, (k - 1) as nat) == spec_step(
            request,
            inside_client,
            state_at(request, inside_client, then, rest, (k - 2) as nat),
            rest[k - 2],
        ).0);
    } else {
        assert(state_at(request, inside_client, state, events, 0) == state);
        assert(state_at(request, inside_client, then, rest, 0) == then);
    }
}

/// Each entry of a run is what the step answers in the state that the events
/// before it have led to.
pub proof fn lemma_run_at(
    request: WorkSpace,
    inside_client: bool,
    state: EngineView,
    events: Seq<Event>,
    k: int,
)
    requires
        0 <= k < events.len(),
    ensures
        run(request, inside_client, state, events)[k] == spec_step(
            request,
            inside_client,
            state_at(request, inside_client, state, events, k as nat),
            events[k],
        ).1,
    decreases k,
{
    lemma_run_unfolds(request, inside_client, state, events);
    if k > 0 {
        let then = spec_step(request, inside_client, state, events[0]).0;
        let rest = events.subrange(1, events.len() as int);
        lemma_run_at(request, inside_client, then, rest, k - 1);
        lemma_state_at_shift(request, inside_client, state, events, k as nat);
        assert(rest[k - 1] == events[k]);
    }
}

/// The number of splits that a window needs which starts with one pane.
pub open spec fn splits_needed(request: WorkSpace) -> nat {
    if request.required_panes() > 1 {
        (request.required_panes() - 1) as nat
    } else {
        0
    }
}

/// The events that a server reports which runs no session of the wanted
/// name and does as it is asked: the new session comes with one window,
/// `leftover`, which is not the wanted one; the new window comes with one
/// pane; every split adds a pane; and once the layout is applied there is a
/// pane for every command.
pub open spec fn obliging(request: WorkSpace, events: Seq<Event>, leftover: Seq<char>) -> bool {
    let splits = splits_needed(request);
    let count = request.commands@.len();
    &&& events.len() == splits + count + 6
    &&& forall|k: int| 0 <= k < events.len() ==> (#[trigger] events[k]) is Completed
    &&& events[0]->Completed_0.spec_find_session(request.session_name@) is None
    &&& placeholder_in(events[1]->Completed_0, request) == Some(leftover)
    &&& must_clean(request, Some(leftover))
    &&& events[1]->Completed_0.spec_find_window(
        request.session_name@,
        request.spec_window_name(),
    ) is None
    &&& forall|k: int|
        2 <= k <= 2 + splits ==> pane_count_in((#[trigger] events[k])->Completed_0, request) == k
            - 1
    &&& forall|k: int, position: usize|
        3 + splits <= k <= 3 + splits + count && position < count ==> #[trigger] pane_present(
            events[k]->Completed_0,
            request,
            position,
        )
}

/// What the engine asks for at step `k` on an obliging server: the session,
/// the window, the splits, the layout, the commands in their order, the
/// removal of the leftover window, the focus, and then nothing more.
pub open spec fn expected(
    request: WorkSpace,
    inside_client: bool,
    leftover: Seq<char>,
    k: int,
) -> NextView {
    let splits = splits_needed(request);
    let count = request.commands@.len();
    if k == 0 {
        NextView::Perform(
            OperationView::NewSession { session: session_of(request), directory: request.path@ },
        )
    } else if k == 1 {
        NextView::Perform(
            OperationView::NewWindow {
                session: session_of(request),
                window: window_of(request),
                directory: request.path@,
            },
        )
    } else if k < 2 + splits {
        split(request)
    } else if k == 2 + splits {
        layout(request)
    } else if k < 3 + splits + count {
        sending(request, k - (3 + splits))
    } else if k == 3 + splits + count {
        removal(request, leftover)
    } else if k == 4 + splits + count {
        NextView::Perform(focus_operation(inside_client, window_target(request, Some(0usize))))
    } else {
        NextView::Done
    }
}

/// The state in which the engine takes step `k` on an obliging server.
pub open spec fn expected_state(request: WorkSpace, leftover: Seq<char>, k: int) -> EngineView {
    let splits = splits_needed(request);
    let count = request.commands@.len();
    let none = Seq::<usize>::empty();
    if k == 0 {
        initial()
    } else if k == 1 {
        EngineView { phase: Phase::CreatingSession, placeholder: None, skipped: none }
    } else if k == 2 {
        EngineView { phase: Phase::CreatingWindow, placeholder: Some(leftover), skipped: none }
    } else if k < 3 + splits {
        EngineView { phase: Phase::Splitting, placeholder: Some(leftover), skipped: none }
    } else if k == 3 + splits {
        EngineView { phase: Phase::ApplyingLayout, placeholder: Some(leftover), skipped: none }
    } else if k < 4 + splits + count {
        EngineView {
            phase: Phase::Sending { index: (k - (4 + splits)) as usize },
            placeholder: Some(leftover),
            skipped: none,
        }
    } else if k == 4 + splits + count {
        EngineView { phase: Phase::Cleaning, placeholder: Some(leftover), skipped: none }
    } else if k == 5 + splits + count {
        EngineView { phase: Phase::Attaching, placeholder: None, skipped: none }
    } else {
        EngineView { phase: Phase::Finished, placeholder: None, skipped: none }
    }
}

proof fn lemma_obliging_step(
    request: WorkSpace,
    inside_client: bool,
    events: Seq<Event>,
    leftover: Seq<char>,
    k: int,
)
    requires
        obliging(request, events, leftover),
        0 <= k < events.len(),
    ensures
        spec_step(request, inside_client, expected_state(request, leftover, k), events[k])
            == (expected_state(request, leftover, k + 1), expected(request, inside_client, leftover, k)),
{
    let splits = splits_needed(request);
    let count = request.commands@.len();
    let state = expected_state(request, leftover, k);
    let snapshot = events[k]->Completed_0;
    let none = Seq::<usize>::empty();
    assert(events[k] is Completed);
    assert(request.commands.len() == count);
    if 2 <= k <= 2 + splits {
        assert(pane_count_in(events[k]->Completed_0, request) == k - 1);
    } else if 3 + splits <= k <= 3 + splits + count {
        let from = (k - (3 + splits)) as nat;
        assert(crate::engine::positions(from, from) =~= none);
        assert(none + none =~= none);
        if from < count {
            assert(pane_present(events[k]->Completed_0, request, from as usize));
            assert(crate::engine::next_dispatch(snapshot, request, from) == from);
        } else {
            assert(crate::engine::next_dispatch(snapshot, request, from) == count);
        }
        assert(crate::engine::dispatch(request, inside_client, state, snapshot, from) == (
            expected_state(request, leftover, k + 1),
            expected(request, inside_client, leftover, k),
        ));
    }
}

proof fn lemma_obliging_states(
    request: WorkSpace,
    inside_client: bool,
    events: Seq<Event>,
    leftover: Seq<char>,
    k: nat,
)
    requires
        obliging(request, events, leftover),
        k <= events.len(),
    ensures
        state_at(request, inside_client, initial(), events, k) == expected_state(
            request,
            leftover,
            k as int,
        ),
    decreases k,
{
    if k > 0 {
        lemma_obliging_states(request, inside_client, events, leftover, (k - 1) as nat);
        lemma_obliging_step(request, inside_client, events, leftover, k - 1);
    }
}

/// On a server that runs no session of the wanted name and does as it is
/// asked, the whole run is: the session is created, then the window; the
/// window is split until it has the required panes; the layout is applied;
/// each command is sent, in order, to the pane of its position; the window
/// that came with the session is removed; the terminal is focused; and the
/// run ends. No command is skipped.
pub proof fn lemma_run_on_an_obliging_server(
    request: WorkSpace,
    inside_client: bool,
    events: Seq<Event>,
    leftover: Seq<char>,
)
    requires
        obliging(request, events, leftover),
    ensures
        run(request, inside_client, initial(), events).len() == splits_needed(request)
            + request.commands@.len() + 6,
        forall|k: int|
            0 <= k < events.len() ==> #[trigger] run(request, inside_client, initial(), events)[k]
                == expected(request, inside_client, leftover, k),
        state_at(request, inside_client, initial(), events, events.len()) == (EngineView {
            phase: Phase::Finished,
            placeholder: None,
            skipped: Seq::empty(),
        }),
{
    lemma_run_unfolds(request, inside_client, initial(), events);
    assert forall|k: int| 0 <= k < events.len() implies #[trigger] run(
        request,
        inside_client,
        initial(),
        events,
    )[k] == expected(request, inside_client, leftover, k) by {
        lemma_run_at(request, inside_client, initial(), events, k);
        lemma_obliging_states(request, inside_client, events, leftover, k as nat);
        lemma_obliging_step(request, inside_client, events, leftover, k);
    }
    lemma_obliging_states(request, inside_client, events, leftover, events.len());
}

/// A failure ends the run. The step that was under way is named together
/// with the cause as it was reported, and whatever comes later, no further
/// operation is asked for: nothing is retried and nothing is undone.
pub proof fn lemma_failure_stops_the_run(
    request: WorkSpace,
    inside_client: bool,
    state: EngineView,
    events: Seq<Event>,
)
    requires
        events.len() > 0,
        events[0] is Failed,
        !(state.phase is Finished),
    ensures
        run(request, inside_client, state, events)[0] == (NextView::Abort {
            step: state.phase.step(),
            cause: events[0]->Failed_0@,
        }),
        forall|k: int|
            1 <= k < events.len() ==> !(run(request, inside_client, state, events)[k] is Perform),
{
    lemma_run_unfolds(request, inside_client, state, events);
    let then = spec_step(request, inside_client, state, events[0]).0;
    lemma_nothing_after_focus(request, inside_client, then, events.subrange(1, events.len() as int));
}

/// What the engine creates it finds again. The session and the window are
/// created under their normalized names; a snapshot that shows a window of
/// that name, in the first session of that name, answers the lookup by the
/// names as the request gives them with that window.
pub proof fn lemma_created_names_are_found(
    request: WorkSpace,
    snapshot: crate::snapshot::Snapshot,
    k: int,
    w: int,
)
    requires
        0 <= k < snapshot.sessions@.len(),
        snapshot.sessions@[k].name@ == session_of(request),
        forall|j: int| 0 <= j < k ==> snapshot.sessions@[j].name@ != session_of(request),
        0 <= w < snapshot.sessions@[k].windows@.len(),
        snapshot.sessions@[k].windows@[w].name@ == window_of(request),
    ensures
        snapshot.spec_find_session(request.session_name@) == Some(snapshot.sessions@[k]),
        snapshot.spec_find_window(request.session_name@, request.spec_window_name()) matches Some(
            found,
        ) && found.name@ == window_of(request),
        pane_count_in(snapshot, request) == snapshot.spec_find_window(
            request.session_name@,
            request.spec_window_name(),
        ).unwrap().panes@.len(),
{
    let names = crate::snapshot::session_names(snapshot.sessions@);
    assert(crate::snapshot::is_first(names, session_of(request), k));
    crate::snapshot::lemma_first_index_found(names, session_of(request), k);
    lemma_created_session_is_found(snapshot, request.session_name@, k);
    lemma_created_window_is_found(snapshot.sessions@[k], request.spec_window_name(), w);
}

} // verus!
