//! What holds of the library as a whole. Each function states one law and proves it.
use crate::commands::{chat_of, first_message, search, ChatMessage, StepView, MAX_TIMEOUT_COUNT};
use crate::dispatcher::{
    a_fresh_id_is_new, a_short_id_is_new, after_registration, answered, answered_with,
    callback_dispatch, config_change, first_cut, has_session, ignored, is_first_with_message,
    is_place, left, lemma_place, message_dispatch, new_session, noted, place_of, reply_hint,
    session_keyboard, session_of, session_parts, sessions_wf, short_id, short_id_from,
    text_session, toggle_event, update_dispatch, with_message, with_message_id, with_toggled,
    ConfigView, DeliveryView, DispatcherChange, DispatcherView, OutcomeView, SessionAction,
    SessionEventView, SessionView,
};
use crate::error::ErrorView;
use crate::integration::{act, IntegrationView};
use crate::keyboard::option_button_place;
use crate::mcp_handler::{mcp_step, McpStepView, ResponseView};
use crate::outside::is_random_uuid;
use crate::popup_windows::{
    after_take, labels_tell_requests_apart, owned_request, popup_label, response_of,
    PopupErrorView, RequestView,
};
use crate::selection::toggle_flips_one;
use crate::telegram_core::{
    callback_action, command_of, in_chat, new_core, plain_keyboard, text_request, ActionEvent,
    CallbackActionView, CoreView, EventView,
};
use crate::text::{
    byte_prefix, colon_free, decimal, decimal_reads_back, is_digit, is_split, opt_text,
    signed_decimal, signed_decimal_reads_back, split_is_unique,
};
use crate::update::{CallbackQuery, EditView, Message, UpdateKind};
use vstd::arithmetic::power::{lemma_pow1, pow};
use vstd::prelude::*;
use vstd::utf8::{
    decode_utf8_split, encode_utf8, encode_utf8_decode_utf8, encode_utf8_valid_utf8,
    is_ascii_chars, is_ascii_chars_encode_utf8, is_char_boundary,
    is_char_boundary_iff_not_is_continuation_byte, is_char_boundary_start_end_of_seq,
};

verus! {

/// Data of the kind `t` or `a` names a session.
proof fn lemma_session_data(data: Seq<char>, kind: Seq<char>, id: Seq<char>, payload: Seq<char>)
    requires
        is_split(data, kind, id, payload),
        kind == "t"@ || kind == "a"@,
    ensures
        session_parts(data) == Some((kind, id, payload)),
{
    split_is_unique(data, kind, id, payload);
    reveal_strlit("t");
    reveal_strlit("a");
    reveal_strlit("toggle:");
    assert(data[1] == ':');
    assert("toggle:"@[1] != ':');
}

/// The data that the option button `index` of a session sends back is parted into the kind `t`,
/// the id of the session and the index.
proof fn lemma_option_data(id: Seq<char>, index: nat)
    requires
        colon_free(id),
    ensures
        session_parts("t:"@ + id + ":"@ + decimal(index)) == Some(("t"@, id, decimal(index))),
{
    reveal_strlit("t:");
    reveal_strlit("t");
    reveal_strlit(":");
    assert("t:"@ + id + ":"@ + decimal(index) == "t"@ + seq![':'] + id + seq![':'] + decimal(index));
    lemma_session_data("t:"@ + id + ":"@ + decimal(index), "t"@, id, decimal(index));
}

/// The data of an action button of a session is parted into the kind `a`, the id of the session
/// and the action.
proof fn lemma_action_data(id: Seq<char>)
    requires
        colon_free(id),
    ensures
        session_parts("a:"@ + id + ":s"@) == Some(("a"@, id, "s"@)),
        session_parts("a:"@ + id + ":c"@) == Some(("a"@, id, "c"@)),
        "s"@ != "c"@,
{
    reveal_strlit("a:");
    reveal_strlit("a");
    reveal_strlit(":s");
    reveal_strlit("s");
    reveal_strlit(":c");
    reveal_strlit("c");
    assert("a:"@ + id + ":s"@ == "a"@ + seq![':'] + id + seq![':'] + "s"@);
    assert("a:"@ + id + ":c"@ == "a"@ + seq![':'] + id + seq![':'] + "c"@);
    lemma_session_data("a:"@ + id + ":s"@, "a"@, id, "s"@);
    lemma_session_data("a:"@ + id + ":c"@, "a"@, id, "c"@);
    assert("s"@[0] != "c"@[0]);
}

/// A press on the button of an option, on the keyboard that its session shows, toggles that option
/// in that session, tells the session so, shows the new keyboard where the message is known, and
/// leaves every other session as it is.
pub proof fn option_press_reaches_its_option(
    sessions: Seq<SessionView>,
    chat_id: i64,
    query: CallbackQuery,
    i: int,
    index: usize,
)
    requires
        sessions_wf(sessions),
        0 <= i < sessions.len(),
        index < sessions[i].options.len(),
        colon_free(sessions[i].id),
        in_chat(query, chat_id),
        opt_text(query.data) == Some(
            session_keyboard(
                sessions[i].id,
                sessions[i].options,
                sessions[i].selected,
                sessions[i].continue_reply_enabled,
            )[index as int / 2][index as int % 2].data,
        ),
    ensures
        ({
            let (after, outcome) = callback_dispatch(sessions, chat_id, query);
            let before = noted(sessions[i], query.message);
            let option = before.options[index as int];
            let session = with_toggled(before, option);
            &&& after == sessions.update(i, session)
            &&& outcome.answer
            &&& outcome.delivery == Some(
                DeliveryView { id: session.id, event: toggle_event(before, option) },
            )
            &&& outcome.hint is None
            &&& match before.message_id {
                Some(message_id) => outcome.edit == Some(
                    EditView {
                        chat_id,
                        message_id,
                        keyboard: session_keyboard(
                            session.id,
                            session.options,
                            session.selected,
                            session.continue_reply_enabled,
                        ),
                    },
                ),
                None => outcome.edit is None,
            }
        }),
{
    let s = sessions[i];
    option_button_place(
        s.options,
        s.selected,
        s.continue_reply_enabled,
        "t:"@ + s.id + ":"@,
        "a:"@ + s.id + ":c"@,
        "a:"@ + s.id + ":s"@,
        index as int,
    );
    lemma_option_data(s.id, index as nat);
    decimal_reads_back(index as nat);
    lemma_place(sessions, sessions[i].id, i);
    reveal_strlit("t");
    reveal_strlit("a");
    assert("t"@[0] != "a"@[0]);
}

/// A press on an action button of a session's keyboard tells that session of that action, and
/// changes no selection and no text.
pub proof fn action_press_reaches_its_session(
    sessions: Seq<SessionView>,
    chat_id: i64,
    query: CallbackQuery,
    i: int,
    action: SessionAction,
)
    requires
        sessions_wf(sessions),
        0 <= i < sessions.len(),
        colon_free(sessions[i].id),
        in_chat(query, chat_id),
        action == SessionAction::Continue ==> sessions[i].continue_reply_enabled,
        ({
            let row = session_keyboard(
                sessions[i].id,
                sessions[i].options,
                sessions[i].selected,
                sessions[i].continue_reply_enabled,
            ).last();
            opt_text(query.data) == Some(
                match action {
                    SessionAction::Send => row.last().data,
                    SessionAction::Continue => row[0].data,
                },
            )
        }),
    ensures
        callback_dispatch(sessions, chat_id, query) == (
            sessions.update(i, noted(sessions[i], query.message)),
            answered_with(sessions[i].id, SessionEventView::Action(action)),
        ),
{
    lemma_action_data(sessions[i].id);
    lemma_place(sessions, sessions[i].id, i);
}

/// A press on a button of a session that is gone is answered, and nothing else comes of it.
pub proof fn press_on_a_gone_session_is_answered(
    sessions: Seq<SessionView>,
    chat_id: i64,
    query: CallbackQuery,
    kind: Seq<char>,
    id: Seq<char>,
    payload: Seq<char>,
)
    requires
        in_chat(query, chat_id),
        query.data is Some,
        is_split(query.data->0@, kind, id, payload),
        kind == "t"@ || kind == "a"@,
        !has_session(sessions, id),
    ensures
        callback_dispatch(sessions, chat_id, query) == (sessions, answered()),
{
    lemma_session_data(query.data->0@, kind, id, payload);
}

/// Data that names an option by its text, as old buttons send it, toggles that option in the only
/// session where the session offers it, whatever colons the text holds.
pub proof fn an_old_press_reaches_the_only_session(
    sessions: Seq<SessionView>,
    chat_id: i64,
    query: CallbackQuery,
    option: Seq<char>,
)
    requires
        sessions.len() == 1,
        in_chat(query, chat_id),
        opt_text(query.data) == Some("toggle:"@ + option),
        sessions[0].options.contains(option),
    ensures
        callback_dispatch(sessions, chat_id, query) == (
            seq![with_toggled(sessions[0], option)],
            answered_with(sessions[0].id, toggle_event(sessions[0], option)),
        ),
{
    a_named_option_must_be_on_offer(sessions[0].options, option);
    assert("toggle:"@.is_prefix_of("toggle:"@ + option));
    assert(sessions.update(0, with_toggled(sessions[0], option)) == seq![
        with_toggled(sessions[0], option),
    ]);
}

/// While several sessions wait, data that names no session goes by the message that the button
/// stands under: without one, or with one that is no session's, it is only answered.
pub proof fn an_old_press_goes_by_its_message(
    sessions: Seq<SessionView>,
    chat_id: i64,
    query: CallbackQuery,
)
    requires
        sessions.len() > 1,
        in_chat(query, chat_id),
        query.data is Some,
        session_parts(query.data->0@) is None,
        query.message matches Some(m) ==> forall|i: int|
            0 <= i < sessions.len() ==> (#[trigger] sessions[i]).message_id != Some(m.message_id),
    ensures
        callback_dispatch(sessions, chat_id, query) == (sessions, answered()),
{
}

/// Nothing comes of a press or a message in another chat.
pub proof fn other_chats_are_ignored(
    sessions: Seq<SessionView>,
    chat_id: i64,
    kind: UpdateKind,
)
    requires
        match kind {
            UpdateKind::CallbackQuery(query) => !in_chat(query, chat_id),
            UpdateKind::Message(message) => message.chat_id != chat_id,
            UpdateKind::Other => true,
        },
    ensures
        update_dispatch(sessions, chat_id, kind) == (sessions, ignored()),
{
}

/// No update adds, drops or renames a session, changes what it offers, or changes the selection or
/// the text of a session that is not told of it.
pub proof fn sessions_do_not_cross(
    sessions: Seq<SessionView>,
    chat_id: i64,
    kind: UpdateKind,
    i: int,
)
    requires
        sessions_wf(sessions),
        0 <= i < sessions.len(),
    ensures
        ({
            let (after, outcome) = update_dispatch(sessions, chat_id, kind);
            &&& after.len() == sessions.len()
            &&& after[i].id == sessions[i].id
            &&& after[i].options == sessions[i].options
            &&& after[i].continue_reply_enabled == sessions[i].continue_reply_enabled
            &&& (outcome.delivery is None || outcome.delivery->0.id != sessions[i].id) ==> {
                &&& after[i].selected == sessions[i].selected
                &&& after[i].user_input == sessions[i].user_input
            }
        }),
{
    match kind {
        UpdateKind::CallbackQuery(query) => {
            if in_chat(query, chat_id) && query.data is Some {
                match session_parts(query.data->0@) {
                    Some((_, id, _)) => {
                        if has_session(sessions, id) {
                            assert(is_place(sessions, id, place_of(sessions, id)));
                        }
                    },
                    None => {
                        match query.message {
                            Some(m) => lemma_with_message(sessions, Some(m.message_id)),
                            None => {},
                        }
                    },
                }
            }
        },
        UpdateKind::Message(message) => {
            lemma_with_message(sessions, message.reply_to);
        },
        UpdateKind::Other => {},
    }
}

proof fn lemma_with_message(sessions: Seq<SessionView>, message_id: Option<i32>)
    ensures
        with_message(sessions, message_id) matches Some(i) ==> is_first_with_message(
            sessions,
            message_id,
            i,
        ),
{
}

/// While one session waits, every text in the chat is meant for it.
pub proof fn a_lone_session_gets_every_text(
    sessions: Seq<SessionView>,
    chat_id: i64,
    message: Message,
)
    requires
        sessions.len() == 1,
        message.chat_id == chat_id,
        message.text is Some,
    ensures
        ({
            let (session, event) = text_session(sessions[0], message.text->0@);
            message_dispatch(sessions, chat_id, message) == (
                seq![session],
                OutcomeView {
                    delivery: Some(DeliveryView { id: sessions[0].id, event }),
                    ..ignored()
                },
            )
        }),
{
    let (session, event) = text_session(sessions[0], message.text->0@);
    assert(sessions.update(0, session) == seq![session]);
}

/// While several sessions wait, a text that replies to no session's message reaches none of them,
/// and the user is asked to reply to one.
pub proof fn a_stray_text_reaches_no_session(
    sessions: Seq<SessionView>,
    chat_id: i64,
    message: Message,
)
    requires
        sessions.len() > 1,
        message.chat_id == chat_id,
        message.text is Some,
        message.text->0@.len() > 0,
        message.reply_to matches Some(id) ==> forall|i: int|
            0 <= i < sessions.len() ==> (#[trigger] sessions[i]).message_id != Some(id),
    ensures
        message_dispatch(sessions, chat_id, message) == (
            sessions,
            OutcomeView {
                hint: Some(text_request(chat_id, reply_hint(sessions.len()), false)),
                ..ignored()
            },
        ),
{
    lemma_with_message(sessions, message.reply_to);
}

/// While several sessions wait, a text that replies to the message of one session, which no other
/// session shares, reaches that session.
pub proof fn a_reply_reaches_its_session(
    sessions: Seq<SessionView>,
    chat_id: i64,
    message: Message,
    i: int,
)
    requires
        sessions.len() > 1,
        0 <= i < sessions.len(),
        message.chat_id == chat_id,
        message.text is Some,
        message.reply_to is Some,
        sessions[i].message_id == message.reply_to,
        forall|j: int|
            0 <= j < sessions.len() && j != i ==> (#[trigger] sessions[j]).message_id
                != message.reply_to,
    ensures
        ({
            let (session, event) = text_session(sessions[i], message.text->0@);
            message_dispatch(sessions, chat_id, message) == (
                sessions.update(i, session),
                OutcomeView {
                    delivery: Some(DeliveryView { id: sessions[i].id, event }),
                    ..ignored()
                },
            )
        }),
{
    assert(is_first_with_message(sessions, message.reply_to, i));
    lemma_with_message(sessions, message.reply_to);
}

/// A text that is no command is what the session holds as the user's text afterwards.
pub proof fn a_text_is_kept(session: SessionView, text: Seq<char>)
    requires
        command_of(text) is None,
    ensures
        text_session(session, text).0.user_input == text,
        text_session(session, text).1 == SessionEventView::Telegram(EventView::TextUpdated { text }),
{
}

/// A registered session can be found under its id, and every other id finds what it found before.
pub proof fn a_registered_session_is_found(
    sessions: Seq<SessionView>,
    session: SessionView,
    other: Seq<char>,
)
    requires
        sessions_wf(sessions),
        !has_session(sessions, session.id),
    ensures
        session_of(sessions.push(session), session.id) == Some(session),
        other != session.id ==> session_of(sessions.push(session), other) == session_of(
            sessions,
            other,
        ),
{
    let after = sessions.push(session);
    let n = sessions.len() as int;
    assert(is_place(after, session.id, n));
    let j = place_of(after, session.id);
    assert(is_place(after, session.id, j));
    if j != n {
        assert(is_place(sessions, session.id, j));
    }
    if other != session.id {
        if has_session(after, other) {
            let j = place_of(after, other);
            assert(is_place(after, other, j));
            assert(is_place(sessions, other, j));
            lemma_place(sessions, other, j);
        }
        if has_session(sessions, other) {
            let j = place_of(sessions, other);
            assert(is_place(sessions, other, j));
            assert(is_place(after, other, j));
        }
    }
}

/// A request joins the sessions that wait and replaces none of them: under its id there is a new
/// session, and every other id finds what it found before.
pub proof fn a_registration_replaces_nobody(
    dispatcher: DispatcherView,
    request_id: Seq<char>,
    options: Seq<Seq<char>>,
    continue_reply_enabled: bool,
    other: Seq<char>,
)
    requires
        sessions_wf(dispatcher.sessions),
        short_id(dispatcher.sessions, request_id) is Some,
    ensures
        ({
            let id = short_id(dispatcher.sessions, request_id)->0;
            let after = after_registration(
                dispatcher,
                id,
                options,
                continue_reply_enabled,
            ).sessions;
            &&& !has_session(dispatcher.sessions, id)
            &&& after.len() == dispatcher.sessions.len() + 1
            &&& session_of(after, id) == Some(new_session(id, options, continue_reply_enabled))
            &&& other != id ==> session_of(after, other) == session_of(dispatcher.sessions, other)
        }),
{
    let id = short_id(dispatcher.sessions, request_id)->0;
    a_short_id_is_new(dispatcher.sessions, request_id);
    a_registered_session_is_found(
        dispatcher.sessions,
        new_session(id, options, continue_reply_enabled),
        other,
    );
}

/// A session that has been dropped is found no more, and every other id finds what it found before.
pub proof fn a_dropped_session_is_gone(
    sessions: Seq<SessionView>,
    id: Seq<char>,
    other: Seq<char>,
)
    requires
        sessions_wf(sessions),
    ensures
        !has_session(left(sessions, id), id),
        other != id ==> session_of(left(sessions, id), other) == session_of(sessions, other),
{
    let after = left(sessions, id);
    if has_session(sessions, id) {
        let i = place_of(sessions, id);
        assert(is_place(sessions, id, i));
        let was = |j: int| if j < i { j } else { j + 1 };
        assert(forall|j: int| 0 <= j < after.len() ==> #[trigger] after[j] == sessions[was(j)]);
        if has_session(after, id) {
            let j = place_of(after, id);
            assert(is_place(after, id, j));
            assert(is_place(sessions, id, was(j)));
            lemma_place(sessions, sessions[was(j)].id, was(j));
        }
        if other != id {
            if has_session(sessions, other) {
                let k = place_of(sessions, other);
                assert(is_place(sessions, other, k));
                let j = if k < i { k } else { k - 1 };
                assert(after[j] == sessions[was(j)]);
                assert(is_place(after, other, j));
            }
            if has_session(after, other) {
                let j = place_of(after, other);
                assert(is_place(after, other, j));
                assert(after[j] == sessions[was(j)]);
                assert(is_place(sessions, other, was(j)));
                lemma_place(sessions, sessions[was(j)].id, was(j));
            }
        }
    }
}

/// A session knows the message that was noted for it, is otherwise as it was, and no other session
/// learns of it.
pub proof fn a_noted_message_is_known(
    sessions: Seq<SessionView>,
    id: Seq<char>,
    message_id: i32,
    other: Seq<char>,
)
    requires
        sessions_wf(sessions),
        has_session(sessions, id),
    ensures
        session_of(with_message_id(sessions, id, message_id), id) == Some(
            SessionView { message_id: Some(message_id), ..session_of(sessions, id)->0 },
        ),
        other != id ==> session_of(with_message_id(sessions, id, message_id), other) == session_of(
            sessions,
            other,
        ),
{
    let i = place_of(sessions, id);
    assert(is_place(sessions, id, i));
    let after = with_message_id(sessions, id, message_id);
    assert(is_place(after, id, i));
    let j = place_of(after, id);
    assert(is_place(after, id, j));
    lemma_place(sessions, id, j);
    if other != id {
        if has_session(after, other) {
            let k = place_of(after, other);
            assert(is_place(after, other, k));
            assert(is_place(sessions, other, k));
            lemma_place(sessions, other, k);
        }
        if has_session(sessions, other) {
            let k = place_of(sessions, other);
            assert(is_place(sessions, other, k));
            assert(is_place(after, other, k));
        }
    }
}

/// A request that is dropped right after it was registered leaves the sessions as they were: this is what comes of a message that could not be sent.
pub proof fn a_failed_request_leaves_no_trace(sessions: Seq<SessionView>, session: SessionView)
    requires
        sessions_wf(sessions),
        !has_session(sessions, session.id),
    ensures
        left(sessions.push(session), session.id) == sessions,
{
    let after = sessions.push(session);
    let n = sessions.len() as int;
    assert(is_place(after, session.id, n));
    let j = place_of(after, session.id);
    assert(is_place(after, session.id, j));
    if j != n {
        assert(is_place(sessions, session.id, j));
    }
    assert(after.remove(n) == sessions);
}

/// The id under which a request is registered is the beginning of its whole id, unless a session
/// goes by the whole id: then it may be the whole id with plus signs behind it.
pub proof fn a_short_id_is_a_prefix(sessions: Seq<SessionView>, request_id: Seq<char>)
    requires
        short_id(sessions, request_id) is Some,
    ensures
        ({
            let short = short_id(sessions, request_id)->0;
            short.is_prefix_of(request_id) || (has_session(sessions, request_id)
                && request_id.is_prefix_of(short) && forall|i: int|
                request_id.len() <= i < short.len() ==> #[trigger] short[i] == '+')
        }),
{
    lemma_short_id_prefix(sessions, request_id, first_cut(request_id));
}

proof fn lemma_short_id_prefix(sessions: Seq<SessionView>, request_id: Seq<char>, n: int)
    requires
        short_id_from(sessions, request_id, n) is Some,
    ensures
        ({
            let short = short_id_from(sessions, request_id, n)->0;
            short.is_prefix_of(request_id) || (has_session(sessions, request_id)
                && request_id.is_prefix_of(short) && forall|i: int|
                request_id.len() <= i < short.len() ==> #[trigger] short[i] == '+')
        }),
    decreases encode_utf8(request_id).len() - n,
{
    let bytes = encode_utf8(request_id);
    let head = byte_prefix(request_id, n);
    if !has_session(sessions, head) {
        encode_utf8_valid_utf8(request_id);
        encode_utf8_decode_utf8(request_id);
        decode_utf8_split(bytes, n);
    } else if n + 2 < bytes.len() {
        lemma_short_id_prefix(sessions, request_id, n + 2);
    } else {
        a_fresh_id_is_new(sessions, request_id);
    }
}

/// A request whose id is plain ASCII always has a short id, and the first one is six characters
/// long where the id is.
pub proof fn an_ascii_id_has_a_short_id(sessions: Seq<SessionView>, request_id: Seq<char>)
    requires
        is_ascii_chars(request_id),
    ensures
        short_id(sessions, request_id) is Some,
        request_id.len() >= 6 && !has_session(sessions, request_id.take(6)) ==> short_id(
            sessions,
            request_id,
        ) == Some(request_id.take(6)),
{
    is_ascii_chars_encode_utf8(request_id);
    lemma_ascii_short_id(sessions, request_id, first_cut(request_id));
    if request_id.len() >= 6 {
        lemma_ascii_cut(request_id, 6);
    }
}

/// A cut of an ASCII text after `n` bytes parts no character and leaves `n` characters.
pub(crate) proof fn lemma_ascii_cut(text: Seq<char>, n: int)
    requires
        is_ascii_chars(text),
        0 <= n <= text.len(),
    ensures
        encode_utf8(text).len() == text.len(),
        is_char_boundary(encode_utf8(text), n),
        byte_prefix(text, n) == text.take(n),
{
    let bytes = encode_utf8(text);
    is_ascii_chars_encode_utf8(text);
    encode_utf8_valid_utf8(text);
    if n < text.len() {
        assert(bytes[n] == text[n] as u8);
        is_char_boundary_iff_not_is_continuation_byte(bytes, n);
    } else {
        is_char_boundary_start_end_of_seq(bytes);
    }
    let head = text.take(n);
    assert(is_ascii_chars(head));
    is_ascii_chars_encode_utf8(head);
    assert(encode_utf8(head) == bytes.subrange(0, n));
    encode_utf8_decode_utf8(head);
}

proof fn lemma_ascii_short_id(sessions: Seq<SessionView>, request_id: Seq<char>, n: int)
    requires
        is_ascii_chars(request_id),
        0 <= n <= request_id.len(),
    ensures
        short_id_from(sessions, request_id, n) is Some,
    decreases request_id.len() - n,
{
    is_ascii_chars_encode_utf8(request_id);
    lemma_ascii_cut(request_id, n);
    let head = byte_prefix(request_id, n);
    if has_session(sessions, head) && n + 2 < request_id.len() {
        lemma_ascii_short_id(sessions, request_id, n + 2);
    }
}

/// A dispatcher is kept for the configuration that it was made for, and gives way to a new one for
/// every other, once its polling has stopped.
pub proof fn a_changed_config_replaces_the_dispatcher(served: ConfigView, config: ConfigView)
    ensures
        config_change(Some(served), config) == if served.bot_token == config.bot_token
            && served.chat_id == config.chat_id && served.api_url == config.api_url {
            DispatcherChange::Keep
        } else {
            DispatcherChange::Replace { stop_old: true }
        },
        config_change(None, config) == (DispatcherChange::Replace { stop_old: false }),
{
}

/// A press on the button of an option, on the keyboard of a chat that serves one request, asks to
/// toggle that option.
pub proof fn plain_option_press_names_its_option(
    options: Seq<Seq<char>>,
    selected: Seq<Seq<char>>,
    continue_reply_enabled: bool,
    index: usize,
)
    requires
        index < options.len(),
    ensures
        callback_action(
            plain_keyboard(options, selected, continue_reply_enabled)[index as int / 2][index as int
                % 2].data,
            options,
        ) == Some(CallbackActionView::OptionToggled(options[index as int])),
{
    option_button_place(
        options,
        selected,
        continue_reply_enabled,
        "t:"@,
        "action:continue"@,
        "action:send"@,
        index as int,
    );
    let data = "t:"@ + decimal(index as nat);
    decimal_reads_back(index as nat);
    reveal_strlit("t:");
    reveal_strlit("action:send");
    reveal_strlit("action:continue");
    assert(data[0] == 't');
    assert("t:"@.is_prefix_of(data));
    assert(data.skip(2) == decimal(index as nat));
}

/// A press on an action button, on the keyboard of a chat that serves one request, asks for that
/// action.
pub proof fn plain_action_press_names_its_action(
    options: Seq<Seq<char>>,
    selected: Seq<Seq<char>>,
    continue_reply_enabled: bool,
    offered: Seq<Seq<char>>,
)
    ensures
        ({
            let row = plain_keyboard(options, selected, continue_reply_enabled).last();
            &&& callback_action(row.last().data, offered) == Some(
                CallbackActionView::ActionEvent(ActionEvent::Send),
            )
            &&& continue_reply_enabled ==> callback_action(row[0].data, offered) == Some(
                CallbackActionView::ActionEvent(ActionEvent::Continue),
            )
        }),
{
    reveal_strlit("action:send");
    reveal_strlit("action:continue");
    assert("action:send"@.len() != "action:continue"@.len());
}

/// An option that is named by its text is toggled where it is on offer, and only there.
pub proof fn a_named_option_must_be_on_offer(options: Seq<Seq<char>>, option: Seq<char>)
    ensures
        callback_action("toggle:"@ + option, options) == if options.contains(option) {
            Some(CallbackActionView::OptionToggled(option))
        } else {
            None
        },
{
    let data = "toggle:"@ + option;
    reveal_strlit("toggle:");
    reveal_strlit("t:");
    reveal_strlit("action:send");
    reveal_strlit("action:continue");
    assert(data[0] == 't');
    assert(data[1] == 'o');
    assert(!"t:"@.is_prefix_of(data));
    assert("toggle:"@.is_prefix_of(data));
    assert(data.skip(7) == option);
}

/// A number below `10^k` takes at most `k` digits.
proof fn lemma_decimal_length(n: nat, k: nat)
    requires
        k >= 1,
        n < pow(10, k),
    ensures
        1 <= decimal(n).len() <= k,
    decreases k,
{
    lemma_pow1(10);
    if n >= 10 {
        reveal(pow);
        assert(pow(10, k) == 10 * pow(10, (k - 1) as nat));
        assert(n / 10 < pow(10, (k - 1) as nat)) by (nonlinear_arith)
            requires
                n < 10 * pow(10, (k - 1) as nat),
        ;
        lemma_decimal_length(n / 10, (k - 1) as nat);
    }
}

/// An index takes at most twenty digits, and they are ASCII.
proof fn lemma_index_digits(index: nat)
    requires
        index <= usize::MAX,
    ensures
        1 <= decimal(index).len() <= 20,
        is_ascii_chars(decimal(index)),
{
    assert(pow(10, 20) == 100_000_000_000_000_000_000) by {
        reveal_with_fuel(pow, 21);
    }
    lemma_decimal_length(index, 20);
    decimal_reads_back(index);
}

/// What a button of a chat that serves one request sends back takes at most 64 bytes, which is what
/// Telegram allows, however long the options are.
pub proof fn plain_data_is_short(
    options: Seq<Seq<char>>,
    selected: Seq<Seq<char>>,
    continue_reply_enabled: bool,
    row: int,
    place: int,
)
    requires
        options.len() <= usize::MAX,
        0 <= row < plain_keyboard(options, selected, continue_reply_enabled).len(),
        0 <= place < plain_keyboard(options, selected, continue_reply_enabled)[row].len(),
    ensures
        encode_utf8(
            plain_keyboard(options, selected, continue_reply_enabled)[row][place].data,
        ).len() <= 64,
{
    let keyboard = plain_keyboard(options, selected, continue_reply_enabled);
    let data = keyboard[row][place].data;
    reveal_strlit("t:");
    reveal_strlit("action:send");
    reveal_strlit("action:continue");
    if row < keyboard.len() - 1 {
        let index = (2 * row + place) as nat;
        assert(data == "t:"@ + decimal(index));
        lemma_index_digits(index);
        assert(is_ascii_chars(data));
    } else {
        assert(is_ascii_chars("action:send"@));
        assert(is_ascii_chars("action:continue"@));
    }
    is_ascii_chars_encode_utf8(data);
}

/// What a button of a session sends back takes at most 64 bytes where the id of the session is
/// ASCII and has at most 41 characters.
pub proof fn session_data_is_short(
    id: Seq<char>,
    options: Seq<Seq<char>>,
    selected: Seq<Seq<char>>,
    continue_reply_enabled: bool,
    row: int,
    place: int,
)
    requires
        is_ascii_chars(id),
        id.len() <= 41,
        options.len() <= usize::MAX,
        0 <= row < session_keyboard(id, options, selected, continue_reply_enabled).len(),
        0 <= place < session_keyboard(id, options, selected, continue_reply_enabled)[row].len(),
    ensures
        encode_utf8(
            session_keyboard(id, options, selected, continue_reply_enabled)[row][place].data,
        ).len() <= 64,
{
    let keyboard = session_keyboard(id, options, selected, continue_reply_enabled);
    let data = keyboard[row][place].data;
    reveal_strlit("t:");
    reveal_strlit(":");
    reveal_strlit("a:");
    reveal_strlit(":c");
    reveal_strlit(":s");
    if row < keyboard.len() - 1 {
        let index = (2 * row + place) as nat;
        assert(data == "t:"@ + id + ":"@ + decimal(index));
        lemma_index_digits(index);
        assert(is_ascii_chars(data));
    } else {
        assert(is_ascii_chars("a:"@ + id + ":s"@));
        assert(is_ascii_chars("a:"@ + id + ":c"@));
    }
    is_ascii_chars_encode_utf8(data);
}

/// The number of a chat, as the search for a chat reports it, sets up a bot for that chat.
pub proof fn a_found_chat_is_accepted(bot_token: Seq<char>, chat_id: i64)
    ensures
        new_core(bot_token, signed_decimal(chat_id as int), None) == Ok::<CoreView, ErrorView>(
            CoreView { bot_token, api_url: None, chat_id },
        ),
{
    let text = signed_decimal(chat_id as int);
    signed_decimal_reads_back(chat_id as int);
    reveal_strlit("@");
    if chat_id < 0 {
        assert(text[0] == '-');
    } else {
        decimal_reads_back(chat_id as nat);
        assert(is_digit(text[0]));
    }
    assert(!"@"@.is_prefix_of(text)) by {
        if "@"@.is_prefix_of(text) {
            assert(text[0] == "@"@[0]);
        }
    }
}

/// A search that finds nothing is given up at the thirtieth look, and goes on until then.
pub proof fn a_fruitless_search_is_given_up(
    misses: nat,
    looks: Seq<Option<Seq<Option<ChatMessage>>>>,
)
    requires
        misses < MAX_TIMEOUT_COUNT,
        forall|i: int|
            0 <= i < looks.len() && (#[trigger] looks[i]) is Some ==> first_message(looks[i]->0)
                is None,
    ensures
        search(misses, looks) == if misses + looks.len() >= MAX_TIMEOUT_COUNT {
            Some(StepView::TimedOut)
        } else {
            None
        },
    decreases looks.len(),
{
    if looks.len() > 0 && misses + 1 < MAX_TIMEOUT_COUNT {
        let rest = looks.drop_first();
        assert forall|i: int| 0 <= i < rest.len() && (#[trigger] rest[i]) is Some implies
            first_message(rest[i]->0) is None by {
            assert(rest[i] == looks[i + 1]);
        }
        a_fruitless_search_is_given_up(misses + 1, rest);
    }
}

/// A search that has not been given up ends with the first message that a look finds, whatever
/// comes later.
pub proof fn the_first_message_ends_a_search(
    misses: nat,
    looks: Seq<Option<Seq<Option<ChatMessage>>>>,
    k: int,
)
    requires
        0 <= k < looks.len(),
        misses + k < MAX_TIMEOUT_COUNT,
        looks[k] is Some,
        first_message(looks[k]->0) is Some,
        forall|i: int|
            0 <= i < k && (#[trigger] looks[i]) is Some ==> first_message(looks[i]->0) is None,
    ensures
        search(misses, looks) == Some(
            StepView::Detected(chat_of(first_message(looks[k]->0)->0)),
        ),
    decreases k,
{
    if k > 0 {
        let rest = looks.drop_first();
        assert(rest[k - 1] == looks[k]);
        assert forall|i: int| 0 <= i < k - 1 && (#[trigger] rest[i]) is Some implies first_message(
            rest[i]->0,
        ) is None by {
            assert(rest[i] == looks[i + 1]);
        }
        the_first_message_ends_a_search(misses + 1, rest, k - 1);
    }
}

/// A request whose id holds no colon is registered under an id that holds none.
pub proof fn a_short_id_gains_no_colon(sessions: Seq<SessionView>, request_id: Seq<char>)
    requires
        colon_free(request_id),
        short_id(sessions, request_id) is Some,
    ensures
        colon_free(short_id(sessions, request_id)->0),
{
    a_short_id_is_a_prefix(sessions, request_id);
    let short = short_id(sessions, request_id)->0;
    assert forall|i: int| 0 <= i < short.len() implies #[trigger] short[i] != ':' by {
        if i < request_id.len() {
            assert(short[i] == request_id[i]);
        }
    }
}

/// The random id of a request that came without one fits: it has a short id, which holds no colon,
/// and which is short enough for the buttons where no session goes by the whole id.
pub proof fn a_random_id_fits(id: Seq<char>, sessions: Seq<SessionView>)
    requires
        is_random_uuid(id),
    ensures
        short_id(sessions, id) is Some,
        ({
            let short = short_id(sessions, id)->0;
            &&& colon_free(short)
            &&& is_ascii_chars(short)
            &&& !has_session(sessions, id) ==> short.len() <= 36
        }),
{
    assert forall|i: int| 0 <= i < id.len() implies (#[trigger] id[i]) != ':' && (id[i] as u32)
        < 128 by {}
    an_ascii_id_has_a_short_id(sessions, id);
    a_short_id_is_a_prefix(sessions, id);
    a_short_id_gains_no_colon(sessions, id);
    let short = short_id(sessions, id)->0;
    assert forall|i: int| 0 <= i < short.len() implies '\0' <= #[trigger] short[i] <= '\u{7f}' by {
        if i < id.len() {
            assert(short[i] == id[i]);
        }
    }
}

/// What a user selects and enters in the chat is what the request is answered with: after a press on
/// the button of an option and a reply to the request, a send answers with that option and that
/// text.
pub proof fn an_answer_comes_back(
    sessions: Seq<SessionView>,
    chat_id: i64,
    i: int,
    press: CallbackQuery,
    index: usize,
    message: Message,
    request_id: Seq<char>,
    continue_prompt: Option<Seq<char>>,
)
    requires
        sessions_wf(sessions),
        0 <= i < sessions.len(),
        sessions[i].selected.len() == 0,
        sessions[i].message_id is Some,
        forall|j: int|
            0 <= j < sessions.len() && j != i ==> (#[trigger] sessions[j]).message_id
                != sessions[i].message_id,
        colon_free(sessions[i].id),
        index < sessions[i].options.len(),
        in_chat(press, chat_id),
        opt_text(press.data) == Some(
            session_keyboard(
                sessions[i].id,
                sessions[i].options,
                sessions[i].selected,
                sessions[i].continue_reply_enabled,
            )[index as int / 2][index as int % 2].data,
        ),
        message.chat_id == chat_id,
        message.reply_to == sessions[i].message_id,
        message.text is Some,
        message.text->0@.len() > 0,
        command_of(message.text->0@) is None,
    ensures
        ({
            let pressed = callback_dispatch(sessions, chat_id, press).0;
            let after = message_dispatch(pressed, chat_id, message).0;
            let session = session_of(after, sessions[i].id)->0;
            &&& has_session(after, sessions[i].id)
            &&& mcp_step(
                SessionEventView::Action(SessionAction::Send),
                session.selected,
                session.user_input,
                request_id,
                continue_prompt,
            ) matches McpStepView::Finish { response, .. }
            &&& response == ResponseView::Send {
                user_input: Some(message.text->0@),
                selected: seq![sessions[i].options[index as int]],
                request_id,
                source: "telegram"@,
            }
        }),
{
    let s = sessions[i];
    let option = s.options[index as int];
    let text = message.text->0@;
    option_press_reaches_its_option(sessions, chat_id, press, i, index);
    let chosen = with_toggled(s, option);
    let pressed = sessions.update(i, chosen);
    assert(chosen.selected == seq![option]);
    let answered_session = SessionView { user_input: text, ..chosen };
    let after = message_dispatch(pressed, chat_id, message).0;
    if sessions.len() == 1 {
        a_lone_session_gets_every_text(pressed, chat_id, message);
        assert(after == pressed.update(i, answered_session));
    } else {
        a_reply_reaches_its_session(pressed, chat_id, message, i);
    }
    assert(after[i] == answered_session);
    assert(is_place(after, s.id, i));
    let j = place_of(after, s.id);
    assert(is_place(after, s.id, j));
    if i < j {
        assert(sessions[i].id != sessions[j].id);
    } else if j < i {
        assert(sessions[j].id != sessions[i].id);
    }
}

/// A press on the button of an option, in a chat that serves one request, changes whether that
/// option is selected, tells so, and changes no other option.
pub proof fn a_plain_press_toggles_its_option(
    state: IntegrationView,
    index: usize,
    other: Seq<char>,
)
    requires
        index < state.options.len(),
    ensures
        ({
            let option = state.options[index as int];
            let data = plain_keyboard(
                state.options,
                state.selected,
                state.continue_reply_enabled,
            )[index as int / 2][index as int % 2].data;
            let (after, event) = act(state, callback_action(data, state.options)->0);
            &&& after.selected.contains(option) == !state.selected.contains(option)
            &&& event == EventView::OptionToggled {
                option,
                selected: after.selected.contains(option),
            }
            &&& other != option ==> after.selected.contains(other) == state.selected.contains(other)
            &&& after.user_input == state.user_input
        }),
{
    plain_option_press_names_its_option(
        state.options,
        state.selected,
        state.continue_reply_enabled,
        index,
    );
    toggle_flips_one(state.selected, state.options[index as int], state.options[index as int]);
    toggle_flips_one(state.selected, state.options[index as int], other);
}

/// The window that a request is registered for shows it and owns it.
pub proof fn a_registered_request_is_owned(
    requests: Map<Seq<char>, RequestView>,
    request: RequestView,
)
    ensures
        owned_request(
            requests.insert(request.id, request),
            request.id,
            popup_label(request.id),
        ) == Some(request),
{
}

/// A request is finished at most once: once a window has taken it, no window can take it again.
pub proof fn a_request_is_taken_once(
    requests: Map<Seq<char>, RequestView>,
    id: Seq<char>,
    window_label: Seq<char>,
    other_label: Seq<char>,
)
    requires
        owned_request(requests, id, window_label) is Some,
    ensures
        owned_request(after_take(requests, id, window_label), id, other_label) is None,
{
}

/// Of two attempts to finish a request through its window, whether by a response, a cancellation or
/// the closing of the window, the first succeeds and the second is refused.
pub proof fn the_first_to_finish_wins(
    requests: Map<Seq<char>, RequestView>,
    id: Seq<char>,
    first: Seq<char>,
    second: Seq<char>,
)
    requires
        requests.contains_key(id),
    ensures
        response_of(requests, id, popup_label(id), Ok(first)) == Ok::<Seq<char>, PopupErrorView>(first),
        response_of(
            after_take(requests, id, popup_label(id)),
            id,
            popup_label(id),
            Ok(second),
        ) == Err::<Seq<char>, PopupErrorView>(
            PopupErrorView::NotOwned { window_label: popup_label(id), request_id: id },
        ),
        owned_request(after_take(requests, id, popup_label(id)), id, popup_label(id)) is None,
{
}

/// A window cannot take a request that another window shows.
pub proof fn another_window_cannot_take(
    requests: Map<Seq<char>, RequestView>,
    id: Seq<char>,
    other: Seq<char>,
)
    requires
        other != id,
    ensures
        owned_request(requests, id, popup_label(other)) is None,
        after_take(requests, id, popup_label(other)) == requests,
{
    labels_tell_requests_apart(id, other);
}

/// Taking one request leaves every other request where it is.
pub proof fn other_requests_stay(
    requests: Map<Seq<char>, RequestView>,
    id: Seq<char>,
    window_label: Seq<char>,
    other: Seq<char>,
    other_label: Seq<char>,
)
    requires
        other != id,
    ensures
        owned_request(after_take(requests, id, window_label), other, other_label) == owned_request(
            requests,
            other,
            other_label,
        ),
{
}

} // verus!
