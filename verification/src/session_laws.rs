//! What each update does to the sessions, field by field, and what registering, noting and dropping
//! do to them.
use crate::dispatcher::{
    a_fresh_id_is_new, after_put, after_registration, callback_dispatch, fresh_id, has_session,
    held_finished, is_first_with_message, is_place, left, lemma_longest_id, lemma_place,
    longest_id, message_dispatch, must_start, opt_config, place_of, polling_ended,
    polling_ensured, polling_let_go, put_outcome, put_result, request_message, request_text,
    session_keyboard, session_of, session_parts, sessions_wf, short_id, short_id_from,
    update_dispatch, with_message, with_message_id, DispatcherConfig, DispatcherView, OutcomeView,
    PollingView, RequestFailure, SessionAction, SessionEventView, SessionView,
};
use crate::error::ErrorView;
use crate::keyboard_laws::a_session_keyboard_sends_its_id;
use crate::laws::lemma_ascii_cut;
use crate::selection::{toggle_flips_one, toggled};
use crate::telegram_core::{
    arrived_after_all, callback_action, command_of, ActionEvent, CallbackActionView, EventView,
};
use crate::text::{byte_prefix, decimal, split_is_unique, usize_value};
use crate::update::{CallbackQuery, Message, MessageRef, TextFormat, UpdateKind};
use vstd::prelude::*;
use vstd::utf8::{encode_utf8, is_ascii_chars, is_char_boundary};

verus! {

/// Whether nothing comes of an update, but that a press is answered where `answer` says so.
pub open spec fn comes_to_nothing(outcome: OutcomeView, answer: bool) -> bool {
    outcome.answer == answer && outcome.delivery is None && outcome.edit is None && outcome.hint
        is None
}

/// Whether a session still stands for the same request: its id and what it offers.
pub open spec fn same_request(a: SessionView, b: SessionView) -> bool {
    a.id == b.id && a.options == b.options && a.continue_reply_enabled == b.continue_reply_enabled
}

/// Whether every session but the one at `i` is as it was.
pub open spec fn others_stay(before: Seq<SessionView>, after: Seq<SessionView>, i: int) -> bool {
    after.len() == before.len() && forall|j: int|
        0 <= j < before.len() && j != i ==> #[trigger] after[j] == before[j]
}

/// Whether a session knows its message after a press: the one that it knew, else the one that the
/// press came from, where that is told.
pub open spec fn message_is_noted(
    before: Option<i32>,
    message: Option<MessageRef>,
    after: Option<i32>,
) -> bool {
    &&& before is Some ==> after == before
    &&& before is None && message is Some ==> after == Some(message->0.message_id)
    &&& before is None && message is None ==> after is None
}

/// Whether the message of a press, where it is told, stands in the chat.
pub open spec fn pressed_in(query: CallbackQuery, chat_id: i64) -> bool {
    query.message is None || query.message->0.chat_id == chat_id
}

/// Whether the data of a press is `kind`, the id of a session and `payload`, with colons between.
pub open spec fn names_session(
    query: CallbackQuery,
    kind: Seq<char>,
    id: Seq<char>,
    payload: Seq<char>,
) -> bool {
    &&& query.data is Some
    &&& query.data->0@ == kind + seq![':'] + id + seq![':'] + payload
    &&& !kind.contains(':')
    &&& !id.contains(':')
    &&& kind != "toggle"@
}

proof fn lemma_names_session(
    query: CallbackQuery,
    kind: Seq<char>,
    id: Seq<char>,
    payload: Seq<char>,
)
    requires
        names_session(query, kind, id, payload),
    ensures
        session_parts(query.data->0@) == Some((kind, id, payload)),
{
    let data = query.data->0@;
    split_is_unique(data, kind, id, payload);
    reveal_strlit("toggle:");
    reveal_strlit("toggle");
    if "toggle:"@.is_prefix_of(data) {
        let n = kind.len() as int;
        assert(data[n] == ':');
        assert(data[6] == "toggle:"@[6]);
        if n < 6 {
            assert(data[n] == "toggle:"@[n]);
        } else if n > 6 {
            assert(kind[6] == data[6]);
        } else {
            assert forall|k: int| 0 <= k < 6 implies kind[k] == "toggle"@[k] by {
                assert(kind[k] == data[k]);
                assert(data[k] == "toggle:"@[k]);
            }
            assert(kind == "toggle"@);
        }
    }
}

/// A press on the button of an option toggles that option in its session and tells the session so.
/// The text that the user entered stays, and so does everything else but the message, which is
/// noted. The keyboard is drawn anew under the message where that is known. No other session
/// changes.
pub proof fn an_option_press_toggles_and_keeps_the_text(
    sessions: Seq<SessionView>,
    chat_id: i64,
    query: CallbackQuery,
    i: int,
    payload: Seq<char>,
    index: usize,
    other: Seq<char>,
)
    requires
        sessions_wf(sessions),
        0 <= i < sessions.len(),
        pressed_in(query, chat_id),
        names_session(query, "t"@, sessions[i].id, payload),
        usize_value(payload) == Some(index),
        index < sessions[i].options.len(),
    ensures
        ({
            let (after, outcome) = callback_dispatch(sessions, chat_id, query);
            let option = sessions[i].options[index as int];
            &&& others_stay(sessions, after, i)
            &&& same_request(sessions[i], after[i])
            &&& after[i].user_input == sessions[i].user_input
            &&& message_is_noted(sessions[i].message_id, query.message, after[i].message_id)
            &&& after[i].selected == toggled(sessions[i].selected, option)
            &&& after[i].selected.contains(option) == !sessions[i].selected.contains(option)
            &&& other != option ==> after[i].selected.contains(other)
                == sessions[i].selected.contains(other)
            &&& outcome.answer
            &&& outcome.hint is None
            &&& outcome.delivery is Some
            &&& outcome.delivery->0.id == sessions[i].id
            &&& outcome.delivery->0.event == SessionEventView::Telegram(
                EventView::OptionToggled {
                    option,
                    selected: after[i].selected.contains(option),
                },
            )
            &&& outcome.edit is Some <==> after[i].message_id is Some
            &&& outcome.edit is Some ==> {
                &&& outcome.edit->0.chat_id == chat_id
                &&& outcome.edit->0.message_id == after[i].message_id->0
                &&& outcome.edit->0.keyboard == session_keyboard(
                    sessions[i].id,
                    sessions[i].options,
                    after[i].selected,
                    sessions[i].continue_reply_enabled,
                )
            }
        }),
{
    lemma_names_session(query, "t"@, sessions[i].id, payload);
    lemma_place(sessions, sessions[i].id, i);
    let option = sessions[i].options[index as int];
    toggle_flips_one(sessions[i].selected, option, option);
    toggle_flips_one(sessions[i].selected, option, other);
    reveal_strlit("t");
    reveal_strlit("a");
    assert("t"@[0] != "a"@[0]);
}

/// A press on an action button tells its session of the action, send for `s` and continue for `c`.
/// What is selected and entered stays.
pub proof fn an_action_press_keeps_what_was_entered(
    sessions: Seq<SessionView>,
    chat_id: i64,
    query: CallbackQuery,
    i: int,
    payload: Seq<char>,
)
    requires
        sessions_wf(sessions),
        0 <= i < sessions.len(),
        pressed_in(query, chat_id),
        names_session(query, "a"@, sessions[i].id, payload),
    ensures
        ({
            let (after, outcome) = callback_dispatch(sessions, chat_id, query);
            &&& others_stay(sessions, after, i)
            &&& same_request(sessions[i], after[i])
            &&& after[i].user_input == sessions[i].user_input
            &&& after[i].selected == sessions[i].selected
            &&& message_is_noted(sessions[i].message_id, query.message, after[i].message_id)
            &&& outcome.answer
            &&& outcome.edit is None
            &&& outcome.hint is None
            &&& payload == "s"@ ==> outcome.delivery is Some && outcome.delivery->0.id
                == sessions[i].id && outcome.delivery->0.event == SessionEventView::Action(
                SessionAction::Send,
            )
            &&& payload == "c"@ ==> outcome.delivery is Some && outcome.delivery->0.id
                == sessions[i].id && outcome.delivery->0.event == SessionEventView::Action(
                SessionAction::Continue,
            )
            &&& payload != "s"@ && payload != "c"@ ==> outcome.delivery is None
        }),
{
    lemma_names_session(query, "a"@, sessions[i].id, payload);
    lemma_place(sessions, sessions[i].id, i);
    reveal_strlit("s");
    reveal_strlit("c");
    assert("s"@[0] != "c"@[0]);
}

/// A press that names a session but neither an action nor an option that it offers is answered,
/// and the session only learns of its message.
pub proof fn an_idle_press_changes_nothing_entered(
    sessions: Seq<SessionView>,
    chat_id: i64,
    query: CallbackQuery,
    i: int,
    kind: Seq<char>,
    payload: Seq<char>,
)
    requires
        sessions_wf(sessions),
        0 <= i < sessions.len(),
        pressed_in(query, chat_id),
        names_session(query, kind, sessions[i].id, payload),
        kind != "a"@,
        kind == "t"@ ==> usize_value(payload) is None || usize_value(payload)->0
            >= sessions[i].options.len(),
    ensures
        ({
            let (after, outcome) = callback_dispatch(sessions, chat_id, query);
            &&& others_stay(sessions, after, i)
            &&& same_request(sessions[i], after[i])
            &&& after[i].user_input == sessions[i].user_input
            &&& after[i].selected == sessions[i].selected
            &&& message_is_noted(sessions[i].message_id, query.message, after[i].message_id)
            &&& comes_to_nothing(outcome, true)
        }),
{
    lemma_names_session(query, kind, sessions[i].id, payload);
    lemma_place(sessions, sessions[i].id, i);
}

/// A press that names no session that waits, one without data, and one in another chat change
/// nothing; only the last is not answered.
pub proof fn a_press_for_nobody_changes_nothing(
    sessions: Seq<SessionView>,
    chat_id: i64,
    query: CallbackQuery,
    kind: Seq<char>,
    id: Seq<char>,
    payload: Seq<char>,
)
    ensures
        ({
            let (after, outcome) = callback_dispatch(sessions, chat_id, query);
            &&& pressed_in(query, chat_id) && names_session(query, kind, id, payload) && (forall|
                j: int,
            |
                0 <= j < sessions.len() ==> (#[trigger] sessions[j]).id != id) ==> after
                == sessions && comes_to_nothing(outcome, true)
            &&& pressed_in(query, chat_id) && query.data is None ==> after == sessions
                && comes_to_nothing(outcome, true)
            &&& !pressed_in(query, chat_id) ==> after == sessions && comes_to_nothing(
                outcome,
                false,
            )
        }),
{
    if pressed_in(query, chat_id) && names_session(query, kind, id, payload) && (forall|j: int|
        0 <= j < sessions.len() ==> (#[trigger] sessions[j]).id != id) {
        lemma_names_session(query, kind, id, payload);
        if has_session(sessions, id) {
            assert(is_place(sessions, id, place_of(sessions, id)));
        }
    }
}

/// Whether the data of a press names no session: it names an option by its text, or it holds fewer
/// than two colons.
pub open spec fn names_nobody(query: CallbackQuery) -> bool {
    &&& query.data is Some
    &&& "toggle:"@.is_prefix_of(query.data->0@) || forall|x: int, y: int|
        0 <= x < y < query.data->0@.len() ==> !(#[trigger] query.data->0@[x] == ':'
            && #[trigger] query.data->0@[y] == ':')
}

proof fn lemma_names_nobody(query: CallbackQuery)
    requires
        names_nobody(query),
    ensures
        session_parts(query.data->0@) is None,
{
    let data = query.data->0@;
    crate::text_laws::two_colons_part_a_text(data, 0, 0);
    if session_parts(data) is Some {
        let (x, y) = choose|x: int, y: int|
            0 <= x < y < data.len() && #[trigger] data[x] == ':' && #[trigger] data[y] == ':';
        assert(false);
    }
}

/// Whether a press without a session id is meant for the session at `i`: it is the only one, or the
/// first whose message is the one that the button stands under.
pub open spec fn meant_by_message(
    sessions: Seq<SessionView>,
    message: Option<i32>,
    i: int,
) -> bool {
    &&& 0 <= i < sessions.len()
    &&& sessions.len() == 1 || (message is Some && sessions[i].message_id == message && forall|
        j: int,
    |
        0 <= j < i ==> (#[trigger] sessions[j]).message_id != message)
}

/// The message of a press, where it is told.
pub open spec fn message_of(query: CallbackQuery) -> Option<i32> {
    match query.message {
        Some(m) => Some(m.message_id),
        None => None,
    }
}

proof fn lemma_meant(sessions: Seq<SessionView>, message: Option<i32>, i: int)
    requires
        sessions.len() != 1,
        message is Some,
    ensures
        meant_by_message(sessions, message, i) ==> with_message(sessions, message) == Some(i),
        with_message(sessions, message) is Some ==> meant_by_message(
            sessions,
            message,
            with_message(sessions, message)->0,
        ),
{
    if meant_by_message(sessions, message, i) {
        assert(is_first_with_message(sessions, message, i));
        let j = with_message(sessions, message)->0;
        assert(is_first_with_message(sessions, message, j));
        if i < j {
            assert(sessions[i].message_id != message);
        } else if j < i {
            assert(sessions[j].message_id != message);
        }
    }
}

/// A press without a session id does what its data asks for to the session that it is meant for:
/// it toggles an option that is on offer, or delivers an action, or is only answered. The text and
/// the message stay.
pub proof fn an_old_press_does_what_it_asks_for(
    sessions: Seq<SessionView>,
    chat_id: i64,
    query: CallbackQuery,
    i: int,
    other: Seq<char>,
)
    requires
        pressed_in(query, chat_id),
        names_nobody(query),
        meant_by_message(sessions, message_of(query), i),
    ensures
        ({
            let (after, outcome) = callback_dispatch(sessions, chat_id, query);
            let asked = callback_action(query.data->0@, sessions[i].options);
            &&& others_stay(sessions, after, i)
            &&& same_request(sessions[i], after[i])
            &&& after[i].user_input == sessions[i].user_input
            &&& after[i].message_id == sessions[i].message_id
            &&& outcome.answer && outcome.edit is None && outcome.hint is None
            &&& outcome.delivery is Some <==> asked is Some
            &&& outcome.delivery is Some ==> outcome.delivery->0.id == sessions[i].id
            &&& match asked {
                Some(CallbackActionView::OptionToggled(option)) => {
                    &&& after[i].selected == toggled(sessions[i].selected, option)
                    &&& after[i].selected.contains(option) == !sessions[i].selected.contains(option)
                    &&& other != option ==> after[i].selected.contains(other)
                        == sessions[i].selected.contains(other)
                    &&& outcome.delivery->0.event == SessionEventView::Telegram(
                        EventView::OptionToggled {
                            option,
                            selected: after[i].selected.contains(option),
                        },
                    )
                },
                Some(CallbackActionView::ActionEvent(ActionEvent::Send)) => after[i].selected
                    == sessions[i].selected && outcome.delivery->0.event
                    == SessionEventView::Action(SessionAction::Send),
                Some(CallbackActionView::ActionEvent(ActionEvent::Continue)) => after[i].selected
                    == sessions[i].selected && outcome.delivery->0.event
                    == SessionEventView::Action(SessionAction::Continue),
                None => after[i].selected == sessions[i].selected,
            }
        }),
{
    lemma_names_nobody(query);
    if sessions.len() != 1 {
        lemma_meant(sessions, message_of(query), i);
    }
    match callback_action(query.data->0@, sessions[i].options) {
        Some(CallbackActionView::OptionToggled(option)) => {
            toggle_flips_one(sessions[i].selected, option, option);
            toggle_flips_one(sessions[i].selected, option, other);
        },
        _ => {},
    }
}

/// A press without a session id that is meant for nobody is only answered.
pub proof fn an_old_press_for_nobody_is_answered(
    sessions: Seq<SessionView>,
    chat_id: i64,
    query: CallbackQuery,
)
    requires
        pressed_in(query, chat_id),
        names_nobody(query),
        forall|i: int| !(#[trigger] meant_by_message(sessions, message_of(query), i)),
    ensures
        ({
            let (after, outcome) = callback_dispatch(sessions, chat_id, query);
            after == sessions && comes_to_nothing(outcome, true)
        }),
{
    lemma_names_nobody(query);
    assert(!meant_by_message(sessions, message_of(query), 0));
    if message_of(query) is Some {
        lemma_meant(sessions, message_of(query), 0);
    }
}

/// A text that is meant for a session is told to it: a command as its action, with everything kept;
/// any other text as a text, which the session then holds, with everything else kept. A text is
/// meant for the only session, or for the first one whose message it replies to.
pub proof fn a_text_is_told_to_its_session(
    sessions: Seq<SessionView>,
    chat_id: i64,
    message: Message,
    i: int,
)
    requires
        message.chat_id == chat_id,
        message.text is Some,
        meant_by_message(sessions, message.reply_to, i),
    ensures
        ({
            let (after, outcome) = message_dispatch(sessions, chat_id, message);
            let text = message.text->0@;
            &&& others_stay(sessions, after, i)
            &&& same_request(sessions[i], after[i])
            &&& after[i].selected == sessions[i].selected
            &&& after[i].message_id == sessions[i].message_id
            &&& !outcome.answer && outcome.edit is None && outcome.hint is None
            &&& outcome.delivery is Some && outcome.delivery->0.id == sessions[i].id
            &&& match command_of(text) {
                None => after[i].user_input == text && outcome.delivery->0.event
                    == SessionEventView::Telegram(EventView::TextUpdated { text }),
                Some(ActionEvent::Send) => after[i].user_input == sessions[i].user_input
                    && outcome.delivery->0.event == SessionEventView::Action(SessionAction::Send),
                Some(ActionEvent::Continue) => after[i].user_input == sessions[i].user_input
                    && outcome.delivery->0.event == SessionEventView::Action(
                    SessionAction::Continue,
                ),
            }
        }),
{
    if sessions.len() != 1 {
        lemma_meant(sessions, message.reply_to, i);
    }
}

/// A message that is meant for no session changes nothing. Where several wait and it has a text
/// that is not empty, the user is told how many wait and asked to reply to one; else nothing comes
/// of it.
pub proof fn a_text_for_nobody_changes_nothing(
    sessions: Seq<SessionView>,
    chat_id: i64,
    message: Message,
)
    requires
        message.chat_id != chat_id || message.text is None || forall|i: int|
            !(#[trigger] meant_by_message(sessions, message.reply_to, i)),
    ensures
        ({
            let (after, outcome) = message_dispatch(sessions, chat_id, message);
            let asked = message.chat_id == chat_id && sessions.len() > 1 && message.text is Some
                && message.text->0@.len() > 0;
            &&& after == sessions
            &&& !asked ==> comes_to_nothing(outcome, false)
            &&& asked ==> {
                &&& !outcome.answer && outcome.delivery is None && outcome.edit is None
                &&& outcome.hint is Some
                &&& outcome.hint->0.chat_id == chat_id
                &&& outcome.hint->0.format == TextFormat::Plain
                &&& outcome.hint->0.keyboard is None
                &&& outcome.hint->0.text == "当前有 "@ + decimal(sessions.len())
                    + " 个活跃请求，请使用引用回复(reply)指定目标请求。"@
            }
        }),
{
    if message.chat_id == chat_id && message.text is Some {
        assert(!meant_by_message(sessions, message.reply_to, 0));
        if message.reply_to is Some {
            lemma_meant(sessions, message.reply_to, 0);
        }
    }
}

/// Presses are routed as presses and messages as messages; nothing comes of any other update.
pub proof fn an_update_is_routed_by_its_kind(
    sessions: Seq<SessionView>,
    chat_id: i64,
    query: CallbackQuery,
    message: Message,
)
    ensures
        update_dispatch(sessions, chat_id, UpdateKind::CallbackQuery(query)) == callback_dispatch(
            sessions,
            chat_id,
            query,
        ),
        update_dispatch(sessions, chat_id, UpdateKind::Message(message)) == message_dispatch(
            sessions,
            chat_id,
            message,
        ),
        update_dispatch(sessions, chat_id, UpdateKind::Other).0 == sessions,
        comes_to_nothing(update_dispatch(sessions, chat_id, UpdateKind::Other).1, false),
{
}

/// A request joins behind the sessions that wait, which stay as they are: under its id, with its
/// options, with nothing selected, entered or noted. The bot stays, and the number moves on by one,
/// back to 0 after the largest.
pub proof fn a_request_joins_with_nothing_entered(
    dispatcher: DispatcherView,
    id: Seq<char>,
    options: Seq<Seq<char>>,
    continue_reply_enabled: bool,
    i: int,
)
    ensures
        ({
            let after = after_registration(dispatcher, id, options, continue_reply_enabled);
            let n = dispatcher.sessions.len() as int;
            &&& after.core == dispatcher.core
            &&& after.sessions.len() == n + 1
            &&& 0 <= i < n ==> after.sessions[i] == dispatcher.sessions[i]
            &&& after.sessions[n].id == id
            &&& after.sessions[n].options == options
            &&& after.sessions[n].continue_reply_enabled == continue_reply_enabled
            &&& after.sessions[n].message_id is None
            &&& after.sessions[n].selected.len() == 0
            &&& after.sessions[n].user_input.len() == 0
            &&& dispatcher.next_number < u32::MAX ==> after.next_number == dispatcher.next_number
                + 1
            &&& dispatcher.next_number == u32::MAX ==> after.next_number == 0
        }),
{
}

/// Noting a message changes the message of the session with that id, and nothing else; dropping a
/// session takes the one with that id out, and leaves the others in their order.
pub proof fn noting_and_dropping_touch_one_session(
    sessions: Seq<SessionView>,
    i: int,
    message_id: i32,
    gone: Seq<char>,
)
    requires
        sessions_wf(sessions),
        0 <= i < sessions.len(),
        forall|j: int| 0 <= j < sessions.len() ==> (#[trigger] sessions[j]).id != gone,
    ensures
        ({
            let after = with_message_id(sessions, sessions[i].id, message_id);
            &&& others_stay(sessions, after, i)
            &&& same_request(sessions[i], after[i])
            &&& after[i].selected == sessions[i].selected
            &&& after[i].user_input == sessions[i].user_input
            &&& after[i].message_id == Some(message_id)
        }),
        left(sessions, sessions[i].id) == sessions.take(i) + sessions.skip(i + 1),
        with_message_id(sessions, gone, message_id) == sessions,
        left(sessions, gone) == sessions,
{
    lemma_place(sessions, sessions[i].id, i);
    assert(sessions.remove(i) == sessions.take(i) + sessions.skip(i + 1));
    if has_session(sessions, gone) {
        assert(is_place(sessions, gone, place_of(sessions, gone)));
    }
}

/// A session is found under its id, and nothing is found under an id that none goes by.
pub proof fn a_session_is_found_under_its_id(
    sessions: Seq<SessionView>,
    i: int,
    gone: Seq<char>,
)
    requires
        sessions_wf(sessions),
    ensures
        0 <= i < sessions.len() ==> session_of(sessions, sessions[i].id) == Some(sessions[i]),
        (forall|j: int| 0 <= j < sessions.len() ==> (#[trigger] sessions[j]).id != gone)
            ==> session_of(sessions, gone) is None,
        has_session(sessions, gone) == session_of(sessions, gone) is Some,
{
    if 0 <= i < sessions.len() {
        lemma_place(sessions, sessions[i].id, i);
    }
    if has_session(sessions, gone) {
        assert(is_place(sessions, gone, place_of(sessions, gone)));
    }
}

/// A request is put with its client above its message, and with its number before both where
/// another request waits too.
pub proof fn a_request_is_put_with_its_number(
    count: nat,
    number: u32,
    name: Seq<char>,
    message: Seq<char>,
)
    ensures
        count <= 1 ==> request_text(count, number, None, message) == message,
        count <= 1 && name.len() > 0 ==> request_text(count, number, Some(name), message) == "["@
            + name + "]\n\n"@ + message,
        count > 1 ==> request_text(count, number, None, message) == "[#"@ + decimal(number as nat)
            + "] "@ + message,
        count > 1 && name.len() > 0 ==> request_text(count, number, Some(name), message) == "[#"@
            + decimal(number as nat) + "] "@ + ("["@ + name + "]\n\n"@ + message),
        request_text(count, number, Some(Seq::empty()), message) == request_text(
            count,
            number,
            None,
            message,
        ),
{
}

/// The message that puts a request goes to the chat of the dispatcher, is converted where it is
/// Markdown, and shows every option without a tick.
pub proof fn a_request_goes_out_as_given(
    dispatcher: DispatcherView,
    id: Seq<char>,
    number: u32,
    client_name: Option<Seq<char>>,
    message: Seq<char>,
    options: Seq<Seq<char>>,
    continue_reply_enabled: bool,
    index: int,
)
    ensures
        ({
            let plain = request_message(
                dispatcher,
                id,
                number,
                client_name,
                message,
                options,
                false,
                continue_reply_enabled,
            );
            let marked = request_message(
                dispatcher,
                id,
                number,
                client_name,
                message,
                options,
                true,
                continue_reply_enabled,
            );
            &&& plain.chat_id == dispatcher.core.chat_id && marked.chat_id == plain.chat_id
            &&& plain.text == request_text(
                dispatcher.sessions.len(),
                number,
                client_name,
                message,
            )
            &&& marked.text == plain.text
            &&& plain.format == TextFormat::Plain
            &&& marked.format == TextFormat::ConvertedMarkdown
            &&& marked.keyboard == plain.keyboard
            &&& plain.keyboard == Some(
                session_keyboard(id, options, Seq::empty(), continue_reply_enabled),
            )
            &&& 0 <= index < options.len() ==> plain.keyboard->0[index / 2][index % 2].text
                == options[index]
        }),
{
    a_session_keyboard_sends_its_id(id, options, Seq::empty(), continue_reply_enabled, index);
}

/// A request that was put knows its message and waits. One whose send failed is dropped and
/// reported with the words of the error, and polling is over where none is left. One whose send
/// seemed to fail but arrived waits, with its message unknown.
pub proof fn a_put_request_waits_or_is_dropped(
    sessions: Seq<SessionView>,
    id: Seq<char>,
    message_id: i32,
    words: Seq<char>,
    outcome: Result<i32, String>,
    result: Result<i32, RequestFailure>,
)
    ensures
        after_put(sessions, id, Ok(message_id)) == (
            with_message_id(sessions, id, message_id),
            Ok::<i32, (ErrorView, bool)>(message_id),
        ),
        arrived_after_all(words) ==> after_put(sessions, id, Err(words)) == (
            sessions,
            Ok::<i32, (ErrorView, bool)>(0),
        ),
        !arrived_after_all(words) ==> after_put(sessions, id, Err(words)) == (
            left(sessions, id),
            Err::<i32, (ErrorView, bool)>(
                (ErrorView::SendOptionsFailed(words), left(sessions, id).len() == 0),
            ),
        ),
        outcome matches Ok(n) ==> put_outcome(outcome) == Ok::<i32, Seq<char>>(n),
        outcome matches Err(e) ==> put_outcome(outcome) == Err::<i32, Seq<char>>(e@),
        result matches Ok(n) ==> put_result(result) == Ok::<i32, (ErrorView, bool)>(n),
        result matches Err(f) ==> put_result(result) == Err::<i32, (ErrorView, bool)>(
            (f.error@, f.stop_polling),
        ),
{
}

/// A fresh id is the shortest free one: every shorter one, with fewer plus signs, is taken.
pub proof fn a_fresh_id_is_the_shortest(sessions: Seq<SessionView>, id: Seq<char>, m: int)
    requires
        id.len() <= m < fresh_id(sessions, id).len(),
    ensures
        has_session(sessions, fresh_id(sessions, id).take(m)),
    decreases longest_id(sessions) + 1 - id.len(),
{
    if has_session(sessions, id) {
        lemma_longest_id(sessions, place_of(sessions, id));
        let next = id.push('+');
        a_fresh_id_is_new(sessions, next);
        if m == id.len() {
            assert(fresh_id(sessions, id).take(m) == id);
        } else {
            a_fresh_id_is_the_shortest(sessions, next, m);
        }
    }
}

/// Whether `n` is a length, in bytes, at which a request id may be cut: six or the whole where that
/// is shorter, and then two more each time while that is short of the whole.
pub open spec fn is_cut(request_id: Seq<char>, n: int) -> bool {
    let length = encode_utf8(request_id).len();
    if length <= 6 {
        n == length
    } else {
        6 <= n < length && n % 2 == 0
    }
}

/// Whether a request id can be cut after `n` bytes, and a session goes by what that leaves.
pub open spec fn cut_is_taken(sessions: Seq<SessionView>, request_id: Seq<char>, n: int) -> bool {
    is_char_boundary(encode_utf8(request_id), n) && has_session(
        sessions,
        byte_prefix(request_id, n),
    )
}

/// A request is known by the first cut of its id that no session goes by; there is no short id
/// where a cut before that parts a character; and where every cut is taken, the request is known by
/// its whole id, made fresh where that is taken too.
pub proof fn a_short_id_is_the_first_free_cut(
    sessions: Seq<SessionView>,
    request_id: Seq<char>,
    n: int,
)
    ensures
        is_cut(request_id, n) && (forall|m: int|
            is_cut(request_id, m) && m < n ==> #[trigger] cut_is_taken(sessions, request_id, m))
            ==> {
            let free = is_char_boundary(encode_utf8(request_id), n);
            &&& free && !has_session(sessions, byte_prefix(request_id, n)) ==> short_id(
                sessions,
                request_id,
            ) == Some(byte_prefix(request_id, n))
            &&& !free ==> short_id(sessions, request_id) is None
        },
        (forall|m: int|
            is_cut(request_id, m) ==> #[trigger] cut_is_taken(sessions, request_id, m))
            ==> short_id(sessions, request_id) == Some(fresh_id(sessions, request_id)),
{
    let length = encode_utf8(request_id).len() as int;
    if is_cut(request_id, n) && (forall|m: int|
        is_cut(request_id, m) && m < n ==> #[trigger] cut_is_taken(sessions, request_id, m)) {
        if length > 6 {
            lemma_climb_cuts(sessions, request_id, 6, n);
        }
    }
    if forall|m: int|
        is_cut(request_id, m) ==> #[trigger] cut_is_taken(sessions, request_id, m) {
        if length <= 6 {
            assert(cut_is_taken(sessions, request_id, length));
        } else {
            let last = if length % 2 == 0 { length - 2 } else { length - 1 };
            assert(is_cut(request_id, last));
            assert(cut_is_taken(sessions, request_id, last));
            lemma_climb_cuts(sessions, request_id, 6, last);
        }
    }
}

proof fn lemma_climb_cuts(
    sessions: Seq<SessionView>,
    request_id: Seq<char>,
    m: int,
    n: int,
)
    requires
        is_cut(request_id, m),
        is_cut(request_id, n),
        6 <= m <= n,
        forall|k: int|
            is_cut(request_id, k) && m <= k < n ==> #[trigger] cut_is_taken(
                sessions,
                request_id,
                k,
            ),
    ensures
        short_id_from(sessions, request_id, m) == short_id_from(sessions, request_id, n),
    decreases n - m,
{
    if m < n {
        assert(cut_is_taken(sessions, request_id, m));
        lemma_climb_cuts(sessions, request_id, m + 2, n);
    }
}

/// The short id of an ASCII request id is its shortest free beginning of six, eight, ten and so on
/// characters.
pub proof fn a_short_id_is_the_shortest_free_cut(
    sessions: Seq<SessionView>,
    id: Seq<char>,
    n: int,
)
    requires
        is_ascii_chars(id),
        6 <= n < id.len() || n == 6 == id.len(),
        n % 2 == 0,
        !has_session(sessions, id.take(n)),
        forall|m: int|
            6 <= m < n && m % 2 == 0 ==> has_session(sessions, #[trigger] id.take(m)),
    ensures
        short_id(sessions, id) == Some(id.take(n)),
{
    lemma_ascii_cut(id, 6);
    lemma_climb(sessions, id, 6, n);
}

proof fn lemma_climb(sessions: Seq<SessionView>, id: Seq<char>, m: int, n: int)
    requires
        is_ascii_chars(id),
        6 <= m <= n <= id.len(),
        n < id.len() || m == n,
        m % 2 == 0 && n % 2 == 0,
        forall|k: int| m <= k < n && k % 2 == 0 ==> has_session(sessions, #[trigger] id.take(k)),
    ensures
        short_id_from(sessions, id, m) == short_id_from(sessions, id, n),
        !has_session(sessions, id.take(n)) ==> short_id_from(sessions, id, n) == Some(id.take(n)),
    decreases n - m,
{
    lemma_ascii_cut(id, m);
    lemma_ascii_cut(id, n);
    if m < n {
        assert(has_session(sessions, id.take(m)));
        lemma_climb(sessions, id, m + 2, n);
    }
}

/// Where every such beginning of an ASCII request id is taken, the request is known by its whole
/// id, or by a fresh one where that is taken too; a request id of fewer than six characters is
/// known by itself, or by a fresh one.
pub proof fn a_whole_id_comes_last(sessions: Seq<SessionView>, id: Seq<char>)
    requires
        is_ascii_chars(id),
        forall|m: int|
            6 <= m < id.len() && m % 2 == 0 ==> has_session(sessions, #[trigger] id.take(m)),
    ensures
        short_id(sessions, id) == Some(fresh_id(sessions, id)),
        !has_session(sessions, id) ==> short_id(sessions, id) == Some(id),
{
    let length = id.len() as int;
    lemma_ascii_cut(id, length);
    assert(id.take(length) == id);
    if length > 6 {
        let n = if length % 2 == 0 { length - 2 } else { length - 1 };
        assert(has_session(sessions, id.take(n)));
        lemma_ascii_cut(id, n);
        lemma_climb(sessions, id, 6, n);
    }
}

/// A dispatcher is kept only for the configuration that it was made for.
pub proof fn a_configuration_is_taken_for_what_it_is(config: &DispatcherConfig)
    ensures
        opt_config(None) is None,
        opt_config(Some(config)) == Some(config@),
{
}

/// Polling is started unless it is active and the held task still runs; a started task is active
/// and held. Letting a task go and the end of a task change one thing each.
pub proof fn polling_is_started_unless_it_runs(polling: PollingView, finished: bool)
    ensures
        ({
            let (after, start) = polling_ensured(polling, finished);
            &&& start == !(polling.active && polling.held && !finished)
            &&& start ==> after.active && after.held
            &&& !start ==> after == polling
        }),
        must_start(true, Some(false)) == false,
        must_start(true, Some(true)) && must_start(true, None) && must_start(false, None),
        must_start(false, Some(true)) && must_start(false, Some(false)),
        polling_let_go(polling).held == false,
        polling_let_go(polling).active == polling.active,
        polling_ended(polling).active == false,
        polling_ended(polling).held == polling.held,
        held_finished(polling, finished) == if polling.held { Some(finished) } else { None },
{
}

} // verus!
