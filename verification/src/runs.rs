//! What holds over rows of steps: of polling, of the dispatcher, and of a chat that serves one
//! request.
use crate::dispatcher::{
    after_registration, has_session, is_first_with_message, is_place, left, legacy_target,
    lemma_place, message_target, place_of, polling_ended, polling_ensured, polling_let_go,
    session_of, session_parts, sessions_wf, short_id, update_dispatch, with_message_id,
    DispatcherView, OutcomeView, PollingView, SessionAction, SessionEventView, SessionView,
};
use crate::integration::{
    act, entered, listener_noted, listener_shown, message_event, press_action, IntegrationView,
    ListenerView,
};
use crate::laws::sessions_do_not_cross;
use crate::mcp_handler::{mcp_step, McpStepView, ResponseView};
use crate::selection::{
    lemma_without, selection_wf, toggle_flips_one, toggle_keeps_selection, toggled, without,
};
use crate::telegram_core::{CallbackActionView, EventView};
use crate::update::{offset_after_batch, CallbackQuery, Message, MessageRef, UpdateKind};
use vstd::prelude::*;

verus! {

/// Whether the numbers of updates grow from each to the next.
pub open spec fn ascending(ids: Seq<u32>) -> bool {
    forall|i: int, j: int| 0 <= i < j < ids.len() ==> #[trigger] ids[i] < #[trigger] ids[j]
}

/// Whether Telegram may answer with this batch when it is asked for updates from `offset` on: the
/// numbers grow, none is below `offset`, and each fits in 31 bits with another after it.
pub open spec fn is_reply(offset: int, batch: Option<Seq<u32>>) -> bool {
    batch matches Some(ids) ==> ascending(ids) && forall|i: int|
        0 <= i < ids.len() ==> offset <= #[trigger] ids[i] < 0x7fff_ffff
}

/// The number to ask for after a row of batches.
pub open spec fn offset_after_batches(offset: int, batches: Seq<Option<Seq<u32>>>) -> int
    decreases batches.len(),
{
    if batches.len() == 0 {
        offset
    } else {
        offset_after_batch(offset_after_batches(offset, batches.drop_last()), batches.last())
    }
}

/// The numbers of all updates of a row of batches.
pub open spec fn all_taken(batches: Seq<Option<Seq<u32>>>) -> Seq<u32>
    decreases batches.len(),
{
    if batches.len() == 0 {
        Seq::empty()
    } else {
        all_taken(batches.drop_last()) + match batches.last() {
            Some(ids) => ids,
            None => Seq::empty(),
        }
    }
}

/// Polling takes each update at most once and in the order of their numbers, none from before it
/// began, whatever batches are empty or fail between: it always asks from the number after the last
/// update on, and from where it began while there was none.
pub proof fn each_update_is_taken_once(offset: int, batches: Seq<Option<Seq<u32>>>)
    requires
        forall|k: int|
            0 <= k < batches.len() ==> is_reply(
                offset_after_batches(offset, batches.take(k)),
                #[trigger] batches[k],
            ),
    ensures
        ascending(all_taken(batches)),
        all_taken(batches).no_duplicates(),
        forall|i: int| 0 <= i < all_taken(batches).len() ==> offset <= #[trigger] all_taken(batches)[i],
        offset_after_batches(offset, batches) == if all_taken(batches).len() == 0 {
            offset
        } else {
            all_taken(batches).last() + 1
        },
    decreases batches.len(),
{
    if batches.len() > 0 {
        let init = batches.drop_last();
        let n = init.len() as int;
        assert forall|k: int| 0 <= k < init.len() implies is_reply(
            offset_after_batches(offset, init.take(k)),
            #[trigger] init[k],
        ) by {
            assert(init.take(k) == batches.take(k));
            assert(init[k] == batches[k]);
        }
        each_update_is_taken_once(offset, init);
        assert(batches.take(n) == init);
        assert(batches[n] == batches.last());
        let before = all_taken(init);
        if before.len() > 0 {
            assert(offset <= before[before.len() - 1]);
        }
        match batches.last() {
            Some(ids) => {
                let all = before + ids;
                assert forall|i: int, j: int| 0 <= i < j < all.len() implies #[trigger] all[i]
                    < #[trigger] all[j] by {
                    if i < before.len() && j >= before.len() {
                        assert(before[i] <= before.last());
                        assert(all[j] == ids[j - before.len()]);
                    }
                }
                if ids.len() == 0 {
                    assert(all == before);
                } else {
                    assert(all.last() == ids.last());
                    assert(ids[ids.len() - 1] < 0x7fff_ffff);
                }
            },
            None => {
                assert(all_taken(batches) == before);
            },
        }
    }
}

/// The polling tasks of a dispatcher and what it knows of them.
pub struct PollingWorld {
    pub known: PollingView,
    /// How many tasks have been started; they are numbered from 0 on.
    pub started: nat,
    /// The task that a stop would stop.
    pub held: Option<nat>,
    /// The tasks whose loops run.
    pub running: Set<nat>,
}

/// Something that happens to the polling of a dispatcher.
pub enum PollingStep {
    /// Polling is ensured.
    Ensure,
    /// Polling is stopped; the loop of the held task, where it runs, ends and tells so.
    Stop,
    /// The loop of a task ends by itself and tells so, or ends without telling.
    End { task: nat, told: bool },
}

/// No task has been started.
pub open spec fn no_polling() -> PollingWorld {
    PollingWorld {
        known: PollingView { active: false, held: false },
        started: 0,
        held: None,
        running: Set::empty(),
    }
}

/// The world after a step.
pub open spec fn polling_step(world: PollingWorld, step: PollingStep) -> PollingWorld {
    match step {
        PollingStep::Ensure => {
            let finished = world.held matches Some(task) && !world.running.contains(task);
            let (known, start) = polling_ensured(world.known, finished);
            if start {
                PollingWorld {
                    known,
                    started: world.started + 1,
                    held: Some(world.started),
                    running: world.running.insert(world.started),
                }
            } else {
                PollingWorld { known, ..world }
            }
        },
        PollingStep::Stop => match world.held {
            Some(task) => PollingWorld {
                known: if world.running.contains(task) {
                    polling_ended(polling_let_go(world.known))
                } else {
                    polling_let_go(world.known)
                },
                held: None,
                running: world.running.remove(task),
                ..world
            },
            None => PollingWorld { known: polling_let_go(world.known), ..world },
        },
        PollingStep::End { task, told } => if world.running.contains(task) {
            PollingWorld {
                known: if told {
                    polling_ended(world.known)
                } else {
                    world.known
                },
                running: world.running.remove(task),
                ..world
            }
        } else {
            world
        },
    }
}

/// The world after a row of steps.
pub open spec fn polling_run(world: PollingWorld, steps: Seq<PollingStep>) -> PollingWorld
    decreases steps.len(),
{
    if steps.len() == 0 {
        world
    } else {
        polling_step(polling_run(world, steps.drop_last()), steps.last())
    }
}

/// Whether no loop but that of the held task runs, and what is known of polling agrees with it.
pub open spec fn polling_wf(world: PollingWorld) -> bool {
    &&& world.known.held == world.held is Some
    &&& world.held matches Some(task) ==> task < world.started
    &&& forall|task: nat| #[trigger]
        world.running.contains(task) ==> world.known.active && world.held == Some(task)
}

/// Over any row of starts, stops and ends, at most one loop runs, and it is the one that the next
/// stop would stop.
pub proof fn at_most_one_loop_runs(steps: Seq<PollingStep>)
    ensures
        polling_wf(polling_run(no_polling(), steps)),
    decreases steps.len(),
{
    if steps.len() > 0 {
        at_most_one_loop_runs(steps.drop_last());
    }
}

/// After a start, whatever happened before, exactly one loop runs, and it is the one that the next
/// stop would stop. No loop is started where one runs, and the one that runs goes on.
pub proof fn one_loop_runs_after_a_start(steps: Seq<PollingStep>)
    ensures
        ({
            let before = polling_run(no_polling(), steps);
            let after = polling_run(no_polling(), steps.push(PollingStep::Ensure));
            &&& after.held is Some
            &&& after.running == Set::empty().insert(after.held->0)
            &&& (exists|task: nat| before.running.contains(task)) ==> after == before
            &&& (forall|task: nat| !before.running.contains(task)) ==> after.started
                == before.started + 1 && after.held == Some(before.started)
        }),
{
    at_most_one_loop_runs(steps);
    let all = steps.push(PollingStep::Ensure);
    assert(all.drop_last() == steps);
    at_most_one_loop_runs(all);
    let before = polling_run(no_polling(), steps);
    let after = polling_run(no_polling(), all);
    assert(after == polling_step(before, PollingStep::Ensure));
    assert(after.running =~= Set::empty().insert(after.held->0));
}

/// After a stop, whatever happened before, no loop runs.
pub proof fn no_loop_runs_after_a_stop(steps: Seq<PollingStep>)
    ensures
        polling_run(no_polling(), steps.push(PollingStep::Stop)).running == Set::<nat>::empty(),
{
    at_most_one_loop_runs(steps);
    let all = steps.push(PollingStep::Stop);
    assert(all.drop_last() == steps);
    let before = polling_run(no_polling(), steps);
    assert(polling_run(no_polling(), all) == polling_step(before, PollingStep::Stop));
    assert(polling_run(no_polling(), all).running =~= Set::empty());
}

/// Something that happens to a dispatcher.
pub enum DispatcherStep {
    /// A request is registered.
    Register { request_id: Seq<char>, options: Seq<Seq<char>>, continue_reply_enabled: bool },
    /// The message of a session is noted.
    Note { id: Seq<char>, message_id: i32 },
    /// A session is dropped.
    Leave { id: Seq<char> },
    /// An update is routed.
    Update { kind: UpdateKind },
}

/// A dispatcher after a step.
pub open spec fn dispatcher_step(
    dispatcher: DispatcherView,
    step: DispatcherStep,
) -> DispatcherView {
    match step {
        DispatcherStep::Register { request_id, options, continue_reply_enabled } => {
            after_registration(
                dispatcher,
                short_id(dispatcher.sessions, request_id)->0,
                options,
                continue_reply_enabled,
            )
        },
        DispatcherStep::Note { id, message_id } => DispatcherView {
            sessions: with_message_id(dispatcher.sessions, id, message_id),
            ..dispatcher
        },
        DispatcherStep::Leave { id } => DispatcherView {
            sessions: left(dispatcher.sessions, id),
            ..dispatcher
        },
        DispatcherStep::Update { kind } => DispatcherView {
            sessions: update_dispatch(dispatcher.sessions, dispatcher.core.chat_id, kind).0,
            ..dispatcher
        },
    }
}

/// A dispatcher after a row of steps.
pub open spec fn dispatcher_run(
    dispatcher: DispatcherView,
    steps: Seq<DispatcherStep>,
) -> DispatcherView
    decreases steps.len(),
{
    if steps.len() == 0 {
        dispatcher
    } else {
        dispatcher_step(dispatcher_run(dispatcher, steps.drop_last()), steps.last())
    }
}

/// How many requests a row of steps registers.
pub open spec fn registrations(steps: Seq<DispatcherStep>) -> nat
    decreases steps.len(),
{
    if steps.len() == 0 {
        0
    } else {
        registrations(steps.drop_last()) + if steps.last() is Register {
            1nat
        } else {
            0nat
        }
    }
}

/// The next number of a dispatcher that began with 1 counts the registrations.
proof fn lemma_next_number(dispatcher: DispatcherView, steps: Seq<DispatcherStep>)
    requires
        dispatcher.next_number == 1,
        registrations(steps) < u32::MAX,
    ensures
        dispatcher_run(dispatcher, steps).next_number == registrations(steps) + 1,
    decreases steps.len(),
{
    if steps.len() > 0 {
        lemma_next_number(dispatcher, steps.drop_last());
    }
}

/// The n-th request that a new dispatcher registers has the number n, whatever was dropped, noted
/// or routed before: when the step after `steps` registers a request, its number is one more than
/// the number of registrations among `steps`.
pub proof fn the_nth_request_has_number_n(
    dispatcher: DispatcherView,
    steps: Seq<DispatcherStep>,
    n: nat,
)
    requires
        dispatcher.next_number == 1,
        registrations(steps) + 1 == n,
        n <= u32::MAX,
    ensures
        dispatcher_run(dispatcher, steps).next_number == n,
{
    lemma_next_number(dispatcher, steps);
}

/// A session waits until it is dropped: no other step takes it away.
pub proof fn a_session_waits_until_it_is_dropped(
    dispatcher: DispatcherView,
    step: DispatcherStep,
    id: Seq<char>,
)
    requires
        sessions_wf(dispatcher.sessions),
        has_session(dispatcher.sessions, id),
        step != (DispatcherStep::Leave { id }),
    ensures
        has_session(dispatcher_step(dispatcher, step).sessions, id),
{
    let sessions = dispatcher.sessions;
    let after = dispatcher_step(dispatcher, step).sessions;
    let i = place_of(sessions, id);
    assert(is_place(sessions, id, i));
    match step {
        DispatcherStep::Register { .. } => {
            assert(is_place(after, id, i));
        },
        DispatcherStep::Note { id: other, .. } => {
            if has_session(sessions, other) {
                assert(is_place(sessions, other, place_of(sessions, other)));
            }
            assert(is_place(after, id, i));
        },
        DispatcherStep::Leave { id: other } => {
            if has_session(sessions, other) {
                let k = place_of(sessions, other);
                assert(is_place(sessions, other, k));
                if i < k {
                    assert(is_place(after, id, i));
                } else {
                    assert(is_place(after, id, i - 1));
                }
            }
        },
        DispatcherStep::Update { kind } => {
            sessions_do_not_cross(sessions, dispatcher.core.chat_id, kind, i);
            assert(is_place(after, id, i));
        },
    }
}

/// An update that a listener takes in.
pub enum ChatStep {
    /// A press, and whether it could be answered.
    Press { query: CallbackQuery, answered: bool },
    /// A message.
    Receive { message: Message },
}

/// A chat that serves one request, what listens to it, and what the popup has been told so far.
pub struct ChatWorld {
    pub state: IntegrationView,
    pub listener: ListenerView,
    pub events: Seq<EventView>,
}

/// The chat after an update.
pub open spec fn chat_step(world: ChatWorld, step: ChatStep) -> ChatWorld {
    match step {
        ChatStep::Press { query, answered } => {
            let listener = listener_noted(world.listener, query);
            match press_action(query, world.state.core.chat_id, world.listener.options) {
                Some(action) if answered => {
                    let (state, event) = act(world.state, action);
                    ChatWorld { state, listener, events: world.events.push(event) }
                },
                _ => ChatWorld { listener, ..world },
            }
        },
        ChatStep::Receive { message } => {
            let event = message_event(message, world.state.core.chat_id);
            ChatWorld {
                state: entered(world.state, event),
                listener: listener_shown(world.listener, message),
                events: match event {
                    Some(e) => world.events.push(e),
                    None => world.events,
                },
            }
        },
    }
}

/// The chat after a row of updates.
pub open spec fn chat_run(world: ChatWorld, steps: Seq<ChatStep>) -> ChatWorld
    decreases steps.len(),
{
    if steps.len() == 0 {
        world
    } else {
        chat_step(chat_run(world, steps.drop_last()), steps.last())
    }
}

/// Whether an event tells that `option` was toggled.
pub open spec fn is_toggle_of(event: EventView, option: Seq<char>) -> bool {
    event matches EventView::OptionToggled { option: o, .. } && o == option
}

/// How often events tell that `option` was toggled.
pub open spec fn toggles(events: Seq<EventView>, option: Seq<char>) -> nat
    decreases events.len(),
{
    if events.len() == 0 {
        0
    } else {
        toggles(events.drop_last(), option) + if is_toggle_of(events.last(), option) {
            1nat
        } else {
            0nat
        }
    }
}

/// The place of the last event that tells that `option` was toggled, or -1.
pub open spec fn last_toggle(events: Seq<EventView>, option: Seq<char>) -> int
    decreases events.len(),
{
    if events.len() == 0 {
        -1
    } else if is_toggle_of(events.last(), option) {
        events.len() - 1
    } else {
        last_toggle(events.drop_last(), option)
    }
}

/// The last text that events tell of, or `before` where there is none.
pub open spec fn last_text(events: Seq<EventView>, before: Seq<char>) -> Seq<char>
    decreases events.len(),
{
    if events.len() == 0 {
        before
    } else {
        match events.last() {
            EventView::TextUpdated { text } => text,
            _ => last_text(events.drop_last(), before),
        }
    }
}

/// Whether the last event about `option`, where there is one, tells what holds now.
pub open spec fn told_of(events: Seq<EventView>, option: Seq<char>, selected: bool) -> bool {
    let i = last_toggle(events, option);
    if i < 0 {
        !selected
    } else {
        events[i] == (EventView::OptionToggled { option, selected })
    }
}

/// Whether what is selected stands in the order in which it was selected.
pub open spec fn in_order(selected: Seq<Seq<char>>, events: Seq<EventView>) -> bool {
    forall|i: int, j: int|
        0 <= i < j < selected.len() ==> last_toggle(events, #[trigger] selected[i]) < last_toggle(
            events,
            #[trigger] selected[j],
        )
}

/// Whether a chat that offers `options` and began with nothing selected and the text `text` agrees
/// with what the popup was told.
pub open spec fn chat_agrees(
    world: ChatWorld,
    options: Seq<Seq<char>>,
    text: Seq<char>,
) -> bool {
    &&& world.state.options == options
    &&& world.listener.options == options
    &&& selection_wf(options, world.state.selected)
    &&& forall|option: Seq<char>| #[trigger]
        world.state.selected.contains(option) == (toggles(world.events, option) % 2 == 1)
    &&& forall|option: Seq<char>|
        told_of(world.events, option, #[trigger] world.state.selected.contains(option))
    &&& in_order(world.state.selected, world.events)
    &&& world.state.user_input == last_text(world.events, text)
}

proof fn lemma_last_toggle(events: Seq<EventView>, option: Seq<char>)
    ensures
        -1 <= last_toggle(events, option) < events.len(),
        last_toggle(events, option) >= 0 ==> is_toggle_of(
            events[last_toggle(events, option)],
            option,
        ),
    decreases events.len(),
{
    if events.len() > 0 {
        lemma_last_toggle(events.drop_last(), option);
    }
}

/// Leaving an item out keeps the others in order.
proof fn lemma_without_in_order(
    selected: Seq<Seq<char>>,
    item: Seq<char>,
    events: Seq<EventView>,
)
    requires
        in_order(selected, events),
    ensures
        in_order(without(selected, item), events),
    decreases selected.len(),
{
    reveal(Seq::filter);
    if selected.len() > 0 {
        let init = selected.drop_last();
        lemma_without_in_order(init, item, events);
        lemma_without(init, item);
        let kept = without(init, item);
        if selected.last() != item {
            let after = without(selected, item);
            assert(after == kept.push(selected.last()));
            assert forall|i: int, j: int| 0 <= i < j < after.len() implies last_toggle(
                events,
                #[trigger] after[i],
            ) < last_toggle(events, #[trigger] after[j]) by {
                if j == kept.len() {
                    assert(kept.contains(kept[i]));
                    let a = choose|a: int| 0 <= a < init.len() && init[a] == kept[i];
                    assert(selected[a] == kept[i]);
                    assert(selected[selected.len() - 1] == after[j]);
                } else {
                    assert(kept[i] == after[i]);
                    assert(kept[j] == after[j]);
                }
            }
        } else {
            assert(without(selected, item) == kept);
        }
    }
}

/// What one more event changes in what the events tell of `option`.
proof fn lemma_one_more(events: Seq<EventView>, event: EventView, option: Seq<char>)
    ensures
        toggles(events.push(event), option) == toggles(events, option) + if is_toggle_of(
            event,
            option,
        ) {
            1nat
        } else {
            0nat
        },
        last_toggle(events.push(event), option) == if is_toggle_of(event, option) {
            events.len() as int
        } else {
            last_toggle(events, option)
        },
{
    assert(events.push(event).drop_last() == events);
}

/// An event that toggles nothing changes nothing in what the events tell of the selection.
proof fn lemma_other_event(
    selected: Seq<Seq<char>>,
    events: Seq<EventView>,
    event: EventView,
)
    requires
        !(event is OptionToggled),
        in_order(selected, events),
        forall|option: Seq<char>| #[trigger]
            selected.contains(option) == (toggles(events, option) % 2 == 1),
        forall|option: Seq<char>| told_of(events, option, #[trigger] selected.contains(option)),
    ensures
        in_order(selected, events.push(event)),
        forall|option: Seq<char>| #[trigger]
            selected.contains(option) == (toggles(events.push(event), option) % 2 == 1),
        forall|option: Seq<char>|
            told_of(events.push(event), option, #[trigger] selected.contains(option)),
{
    let more = events.push(event);
    assert forall|option: Seq<char>| #[trigger] selected.contains(option) == (toggles(more, option)
        % 2 == 1) by {
        lemma_one_more(events, event, option);
    }
    assert forall|option: Seq<char>|
        told_of(more, option, #[trigger] selected.contains(option)) by {
        lemma_one_more(events, event, option);
        lemma_last_toggle(events, option);
        assert(told_of(events, option, selected.contains(option)));
    }
    assert forall|i: int, j: int| 0 <= i < j < selected.len() implies last_toggle(
        more,
        #[trigger] selected[i],
    ) < last_toggle(more, #[trigger] selected[j]) by {
        lemma_one_more(events, event, selected[i]);
        lemma_one_more(events, event, selected[j]);
    }
}

/// Toggling an option and telling so keeps the selection and the events in agreement.
proof fn lemma_toggle_event(
    selected: Seq<Seq<char>>,
    events: Seq<EventView>,
    option: Seq<char>,
)
    requires
        in_order(selected, events),
        forall|o: Seq<char>| #[trigger] selected.contains(o) == (toggles(events, o) % 2 == 1),
        forall|o: Seq<char>| told_of(events, o, #[trigger] selected.contains(o)),
    ensures
        ({
            let after = toggled(selected, option);
            let more = events.push(
                EventView::OptionToggled { option, selected: !selected.contains(option) },
            );
            &&& in_order(after, more)
            &&& forall|o: Seq<char>| #[trigger]
                after.contains(o) == (toggles(more, o) % 2 == 1)
            &&& forall|o: Seq<char>| told_of(more, o, #[trigger] after.contains(o))
        }),
{
    let event = EventView::OptionToggled { option, selected: !selected.contains(option) };
    let after = toggled(selected, option);
    let more = events.push(event);
    assert forall|o: Seq<char>| #[trigger] after.contains(o) == (toggles(more, o) % 2 == 1) by {
        toggle_flips_one(selected, option, o);
        lemma_one_more(events, event, o);
        assert(selected.contains(o) == (toggles(events, o) % 2 == 1));
    }
    assert forall|o: Seq<char>| told_of(more, o, #[trigger] after.contains(o)) by {
        toggle_flips_one(selected, option, o);
        lemma_one_more(events, event, o);
        lemma_last_toggle(events, o);
        assert(told_of(events, o, selected.contains(o)));
    }
    lemma_without(selected, option);
    lemma_without_in_order(selected, option, events);
    assert forall|i: int, j: int| 0 <= i < j < after.len() implies last_toggle(
        more,
        #[trigger] after[i],
    ) < last_toggle(more, #[trigger] after[j]) by {
        lemma_one_more(events, event, after[i]);
        lemma_one_more(events, event, after[j]);
        lemma_last_toggle(events, after[i]);
        if selected.contains(option) {
            assert(after == without(selected, option));
            assert(after.contains(after[i]));
            assert(after.contains(after[j]));
        } else {
            assert(after[i] == selected[i]);
            assert(selected.contains(selected[i]));
            if j < selected.len() {
                assert(after[j] == selected[j]);
                assert(selected.contains(selected[j]));
            }
        }
    }
}

/// Over any row of updates, from a request on that was just taken up: only options that are on
/// offer are selected, and none twice; an option is selected where it was toggled an odd number of
/// times, and the last event about it tells so; what is selected stands in the order in which it
/// was selected; and the text is the last one that was told.
pub proof fn a_chat_agrees_with_its_events(world: ChatWorld, steps: Seq<ChatStep>)
    requires
        world.events.len() == 0,
        world.state.selected.len() == 0,
        world.listener.options == world.state.options,
    ensures
        chat_agrees(chat_run(world, steps), world.state.options, world.state.user_input),
    decreases steps.len(),
{
    if steps.len() > 0 {
        let before = chat_run(world, steps.drop_last());
        a_chat_agrees_with_its_events(world, steps.drop_last());
        lemma_chat_step(before, steps.last(), world.state.options, world.state.user_input);
    }
}

/// Only an option that is on offer can be asked for.
proof fn lemma_asked_option_is_offered(
    query: CallbackQuery,
    chat_id: i64,
    options: Seq<Seq<char>>,
)
    ensures
        press_action(query, chat_id, options) matches Some(
            CallbackActionView::OptionToggled(option),
        ) ==> options.contains(option),
{
}

/// An update keeps a chat in agreement with what the popup was told.
proof fn lemma_chat_step(
    world: ChatWorld,
    step: ChatStep,
    options: Seq<Seq<char>>,
    text: Seq<char>,
)
    requires
        chat_agrees(world, options, text),
    ensures
        chat_agrees(chat_step(world, step), options, text),
{
    let selected = world.state.selected;
    let after = chat_step(world, step);
    if after.events.len() > world.events.len() {
        let event = after.events.last();
        assert(after.events == world.events.push(event));
        assert(after.events.drop_last() == world.events);
        match event {
            EventView::OptionToggled { option, .. } => {
                match step {
                    ChatStep::Press { query, .. } => {
                        lemma_asked_option_is_offered(query, world.state.core.chat_id, options);
                    },
                    ChatStep::Receive { .. } => {},
                }
                lemma_toggle_event(selected, world.events, option);
                toggle_keeps_selection(options, selected, option);
            },
            _ => {
                lemma_other_event(selected, world.events, event);
            },
        }
    }
}

/// An action that a press asks for keeps the selection well-formed, while the listener offers what
/// the chat offers.
pub proof fn a_press_keeps_the_selection(
    state: IntegrationView,
    listener: ListenerView,
    query: CallbackQuery,
)
    requires
        listener.options == state.options,
        selection_wf(state.options, state.selected),
    ensures
        press_action(query, state.core.chat_id, listener.options) matches Some(action)
            ==> selection_wf(act(state, action).0.options, act(state, action).0.selected),
{
    lemma_asked_option_is_offered(query, state.core.chat_id, state.options);
    match press_action(query, state.core.chat_id, listener.options) {
        Some(CallbackActionView::OptionToggled(option)) => {
            toggle_keeps_selection(state.options, state.selected, option);
        },
        _ => {},
    }
}

/// The Telegram event that an outcome tells the session `id`.
pub open spec fn told_to(outcome: OutcomeView, id: Seq<char>) -> Option<EventView> {
    match outcome.delivery {
        Some(delivery) if delivery.id == id => match delivery.event {
            SessionEventView::Telegram(event) => Some(event),
            SessionEventView::Action(_) => None,
        },
        _ => None,
    }
}

/// The sessions after a row of updates.
pub open spec fn routed(
    sessions: Seq<SessionView>,
    chat_id: i64,
    updates: Seq<UpdateKind>,
) -> Seq<SessionView>
    decreases updates.len(),
{
    if updates.len() == 0 {
        sessions
    } else {
        update_dispatch(
            routed(sessions, chat_id, updates.drop_last()),
            chat_id,
            updates.last(),
        ).0
    }
}

/// The Telegram events that a row of updates tells the session `id`.
pub open spec fn told(
    sessions: Seq<SessionView>,
    chat_id: i64,
    id: Seq<char>,
    updates: Seq<UpdateKind>,
) -> Seq<EventView>
    decreases updates.len(),
{
    if updates.len() == 0 {
        Seq::empty()
    } else {
        let before = told(sessions, chat_id, id, updates.drop_last());
        match told_to(
            update_dispatch(
                routed(sessions, chat_id, updates.drop_last()),
                chat_id,
                updates.last(),
            ).1,
            id,
        ) {
            Some(event) => before.push(event),
            None => before,
        }
    }
}

/// A session changes as it is told, and only so: a toggle changes the selection by that option and
/// leaves the text, a text is the text from then on and leaves the selection, and nothing else
/// changes either.
pub proof fn a_session_changes_as_it_is_told(
    sessions: Seq<SessionView>,
    chat_id: i64,
    kind: UpdateKind,
    i: int,
)
    requires
        sessions_wf(sessions),
        0 <= i < sessions.len(),
    ensures
        ({
            let (after, outcome) = update_dispatch(sessions, chat_id, kind);
            match told_to(outcome, sessions[i].id) {
                Some(EventView::OptionToggled { option, selected }) => {
                    &&& sessions[i].options.contains(option)
                    &&& selected == !sessions[i].selected.contains(option)
                    &&& after[i].selected == toggled(sessions[i].selected, option)
                    &&& after[i].user_input == sessions[i].user_input
                },
                Some(EventView::TextUpdated { text }) => {
                    &&& after[i].selected == sessions[i].selected
                    &&& after[i].user_input == text
                },
                Some(_) => false,
                None => {
                    &&& after[i].selected == sessions[i].selected
                    &&& after[i].user_input == sessions[i].user_input
                },
            }
        }),
{
    sessions_do_not_cross(sessions, chat_id, kind, i);
    let (after, outcome) = update_dispatch(sessions, chat_id, kind);
    if outcome.delivery is Some && outcome.delivery->0.id == sessions[i].id {
        match kind {
            UpdateKind::CallbackQuery(query) => {
                match session_parts(query.data->0@) {
                    Some((_, id, _)) => {
                        assert(has_session(sessions, id));
                        assert(is_place(sessions, id, place_of(sessions, id)));
                        lemma_place(sessions, sessions[i].id, i);
                    },
                    None => {
                        lemma_old_target(sessions, query.message);
                        let k = legacy_target(sessions, query.message)->0;
                        lemma_place(sessions, sessions[k].id, k);
                        lemma_place(sessions, sessions[i].id, i);
                        assert(k == i);
                    },
                }
            },
            UpdateKind::Message(message) => {
                lemma_text_target(sessions, message.reply_to);
                let k = message_target(sessions, message.reply_to)->0;
                lemma_place(sessions, sessions[k].id, k);
                lemma_place(sessions, sessions[i].id, i);
                assert(k == i);
            },
            UpdateKind::Other => {},
        }
    }
}

proof fn lemma_old_target(sessions: Seq<SessionView>, message: Option<MessageRef>)
    ensures
        legacy_target(sessions, message) matches Some(k) ==> 0 <= k < sessions.len(),
{
    match message {
        Some(m) => {
            if exists|i: int| is_first_with_message(sessions, Some(m.message_id), i) {
                assert(is_first_with_message(
                    sessions,
                    Some(m.message_id),
                    choose|i: int| is_first_with_message(sessions, Some(m.message_id), i),
                ));
            }
        },
        None => {},
    }
}

proof fn lemma_text_target(sessions: Seq<SessionView>, reply_to: Option<i32>)
    ensures
        message_target(sessions, reply_to) matches Some(k) ==> 0 <= k < sessions.len(),
{
    if exists|i: int| is_first_with_message(sessions, reply_to, i) {
        assert(is_first_with_message(
            sessions,
            reply_to,
            choose|i: int| is_first_with_message(sessions, reply_to, i),
        ));
    }
}

/// An update keeps the ids of the sessions apart and their selections well-formed.
pub proof fn an_update_keeps_the_sessions_apart(
    sessions: Seq<SessionView>,
    chat_id: i64,
    kind: UpdateKind,
)
    requires
        sessions_wf(sessions),
    ensures
        update_dispatch(sessions, chat_id, kind).0.len() == sessions.len(),
        sessions_wf(update_dispatch(sessions, chat_id, kind).0),
{
    let (after, outcome) = update_dispatch(sessions, chat_id, kind);
    if sessions.len() > 0 {
        sessions_do_not_cross(sessions, chat_id, kind, 0);
    } else {
        match kind {
            UpdateKind::CallbackQuery(query) => {
                lemma_old_target(sessions, query.message);
                if query.data is Some && session_parts(query.data->0@) is Some {
                    let (_, id, _) = session_parts(query.data->0@)->0;
                    if has_session(sessions, id) {
                        assert(is_place(sessions, id, place_of(sessions, id)));
                    }
                }
            },
            _ => {},
        }
    }
    assert forall|a: int, b: int| 0 <= a < b < after.len() implies (#[trigger] after[a]).id != (
    #[trigger] after[b]).id by {
        sessions_do_not_cross(sessions, chat_id, kind, a);
        sessions_do_not_cross(sessions, chat_id, kind, b);
        assert(sessions[a].id != sessions[b].id);
    }
    assert forall|a: int| 0 <= a < after.len() implies selection_wf(
        (#[trigger] after[a]).options,
        after[a].selected,
    ) by {
        sessions_do_not_cross(sessions, chat_id, kind, a);
        a_session_changes_as_it_is_told(sessions, chat_id, kind, a);
        assert(selection_wf(sessions[a].options, sessions[a].selected));
        match told_to(outcome, sessions[a].id) {
            Some(EventView::OptionToggled { option, .. }) => {
                toggle_keeps_selection(sessions[a].options, sessions[a].selected, option);
            },
            _ => {},
        }
    }
}

/// Over any row of updates, in whichever order presses and texts come: an option is selected in a
/// session where the session was told of an odd number of toggles of it, the selection stands in
/// the order in which it was made, and the text is the last one that the session was told.
pub proof fn a_session_agrees_with_what_it_was_told(
    sessions: Seq<SessionView>,
    chat_id: i64,
    updates: Seq<UpdateKind>,
    i: int,
)
    requires
        sessions_wf(sessions),
        0 <= i < sessions.len(),
        sessions[i].selected.len() == 0,
    ensures
        ({
            let all = routed(sessions, chat_id, updates);
            let events = told(sessions, chat_id, sessions[i].id, updates);
            &&& sessions_wf(all)
            &&& all.len() == sessions.len()
            &&& all[i].id == sessions[i].id
            &&& all[i].options == sessions[i].options
            &&& forall|option: Seq<char>| #[trigger]
                all[i].selected.contains(option) == (toggles(events, option) % 2 == 1)
            &&& forall|option: Seq<char>|
                told_of(events, option, #[trigger] all[i].selected.contains(option))
            &&& in_order(all[i].selected, events)
            &&& all[i].user_input == last_text(events, sessions[i].user_input)
        }),
    decreases updates.len(),
{
    if updates.len() > 0 {
        let init = updates.drop_last();
        a_session_agrees_with_what_it_was_told(sessions, chat_id, init, i);
        let before = routed(sessions, chat_id, init);
        let events = told(sessions, chat_id, sessions[i].id, init);
        let (after, outcome) = update_dispatch(before, chat_id, updates.last());
        an_update_keeps_the_sessions_apart(before, chat_id, updates.last());
        sessions_do_not_cross(before, chat_id, updates.last(), i);
        a_session_changes_as_it_is_told(before, chat_id, updates.last(), i);
        match told_to(outcome, sessions[i].id) {
            Some(event) => {
                assert(events.push(event).drop_last() == events);
                match event {
                    EventView::OptionToggled { option, .. } => {
                        lemma_toggle_event(before[i].selected, events, option);
                    },
                    _ => {
                        lemma_other_event(before[i].selected, events, event);
                    },
                }
            },
            None => {},
        }
    }
}

/// The answer to a request is all that the user selected and entered, in whichever order presses
/// and texts came: it holds the options that were toggled an odd number of times, in the order in
/// which they were selected, and the last text.
pub proof fn an_answer_is_all_that_was_told(
    sessions: Seq<SessionView>,
    chat_id: i64,
    updates: Seq<UpdateKind>,
    i: int,
    request_id: Seq<char>,
    prompt: Option<Seq<char>>,
    option: Seq<char>,
)
    requires
        sessions_wf(sessions),
        0 <= i < sessions.len(),
        sessions[i].selected.len() == 0,
        sessions[i].user_input.len() == 0,
    ensures
        ({
            let session = session_of(routed(sessions, chat_id, updates), sessions[i].id)->0;
            let events = told(sessions, chat_id, sessions[i].id, updates);
            let text = last_text(events, Seq::empty());
            match mcp_step(
                SessionEventView::Action(SessionAction::Send),
                session.selected,
                session.user_input,
                request_id,
                prompt,
            ) {
                McpStepView::Finish {
                    response: ResponseView::Send { user_input, selected, request_id: id, .. },
                    ..
                } => {
                    &&& id == request_id
                    &&& selected.contains(option) == (toggles(events, option) % 2 == 1)
                    &&& selected.no_duplicates()
                    &&& in_order(selected, events)
                    &&& text.len() > 0 ==> user_input == Some(text)
                    &&& text.len() == 0 ==> user_input is None
                },
                _ => false,
            }
        }),
{
    a_session_agrees_with_what_it_was_told(sessions, chat_id, updates, i);
    let all = routed(sessions, chat_id, updates);
    lemma_place(all, sessions[i].id, i);
    assert(sessions[i].user_input == Seq::<char>::empty());
    assert(selection_wf(all[i].options, all[i].selected));
}

} // verus!
