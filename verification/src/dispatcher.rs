//! One poller for all requests: each update is routed to the session of the request that it
//! belongs to.
use crate::error::{ErrorView, TelegramError};
use crate::keyboard::{build_keyboard, keyboard_view, ButtonView, InlineKeyboardMarkup};
use crate::selection::{selection_wf, toggle_keeps_selection, toggle_option, toggled};
use crate::telegram_core::{
    arrived_after_all, callback_action, command_of, has_arrived, in_chat, indexed_option,
    name_client, new_core, option_at, option_named, options_format, parse_command, parsed_api_url,
    text_request, toggle_target, with_client, ActionEvent, CallbackActionView, CoreView, EventView,
    TelegramCore, TelegramEvent,
};
use crate::text::{
    byte_prefix, clone_list, decimal, decimal_text, opt_str, opt_text, same_text, split_at_colons,
    split_three, starts_with, take_bytes, texts,
};
use crate::update::{
    opt_edit, CallbackQuery, EditRequest, EditView, Message, MessageRef, SendRequest, SendView,
    TextFormat, UpdateKind,
};
use vstd::prelude::*;
use vstd::utf8::{encode_utf8, is_char_boundary};

verus! {

/// An action that ends a session.
#[derive(Debug, Clone, Copy, PartialEq, Eq, Structural)]
pub enum SessionAction {
    Send,
    Continue,
}

/// What a session is told.
#[derive(Debug, Clone)]
pub enum SessionEvent {
    /// Something that the user did.
    Telegram(TelegramEvent),
    /// The action that the user chose.
    Action(SessionAction),
}

/// A `SessionEvent` by the characters of its texts.
pub enum SessionEventView {
    Telegram(EventView),
    Action(SessionAction),
}

impl View for SessionEvent {
    type V = SessionEventView;

    open spec fn view(&self) -> SessionEventView {
        match self {
            SessionEvent::Telegram(e) => SessionEventView::Telegram(e@),
            SessionEvent::Action(a) => SessionEventView::Action(*a),
        }
    }
}

/// The bot token, the chat and the API address of a dispatcher.
#[derive(Debug)]
pub struct DispatcherConfig {
    pub bot_token: String,
    pub chat_id: String,
    pub api_url: Option<String>,
}

/// A `DispatcherConfig` by the characters of its texts.
pub struct ConfigView {
    pub bot_token: Seq<char>,
    pub chat_id: Seq<char>,
    pub api_url: Option<Seq<char>>,
}

impl View for DispatcherConfig {
    type V = ConfigView;

    open spec fn view(&self) -> ConfigView {
        ConfigView {
            bot_token: self.bot_token@,
            chat_id: self.chat_id@,
            api_url: opt_text(self.api_url),
        }
    }
}

/// A request that waits for its answer.
#[derive(Debug)]
pub struct RequestSession {
    /// The leading part of the request's id by which it is known.
    request_id_short: String,
    /// The message in which the request was put.
    telegram_message_id: Option<i32>,
    predefined_options: Vec<String>,
    continue_reply_enabled: bool,
    /// The options selected so far, in the order of their selection.
    selected_options: Vec<String>,
    /// The text entered last.
    user_input: String,
}

/// A `RequestSession` by the characters of its texts.
pub struct SessionView {
    pub id: Seq<char>,
    pub message_id: Option<i32>,
    pub options: Seq<Seq<char>>,
    pub continue_reply_enabled: bool,
    pub selected: Seq<Seq<char>>,
    pub user_input: Seq<char>,
}

impl View for RequestSession {
    type V = SessionView;

    closed spec fn view(&self) -> SessionView {
        SessionView {
            id: self.request_id_short@,
            message_id: self.telegram_message_id,
            options: texts(self.predefined_options@),
            continue_reply_enabled: self.continue_reply_enabled,
            selected: texts(self.selected_options@),
            user_input: self.user_input@,
        }
    }
}

/// The sessions of a list.
pub open spec fn session_views(sessions: Seq<RequestSession>) -> Seq<SessionView> {
    sessions.map_values(|s: RequestSession| s@)
}

/// Routes the updates of one chat to the requests that wait in it.
#[derive(Debug)]
pub struct TelegramDispatcher {
    core: TelegramCore,
    /// The waiting requests, in the order of their registration.
    sessions: Vec<RequestSession>,
    /// The number of the next request.
    sequence_counter: u32,
}

/// A `TelegramDispatcher` by the characters of its texts.
pub struct DispatcherView {
    pub core: CoreView,
    pub sessions: Seq<SessionView>,
    pub next_number: u32,
}

impl View for TelegramDispatcher {
    type V = DispatcherView;

    closed spec fn view(&self) -> DispatcherView {
        DispatcherView {
            core: self.core@,
            sessions: session_views(self.sessions@),
            next_number: self.sequence_counter,
        }
    }
}

/// Something to tell a session.
#[derive(Debug)]
pub struct Delivery {
    pub request_id_short: String,
    pub event: SessionEvent,
}

/// A `Delivery` by the characters of its texts.
pub struct DeliveryView {
    pub id: Seq<char>,
    pub event: SessionEventView,
}

impl View for Delivery {
    type V = DeliveryView;

    open spec fn view(&self) -> DeliveryView {
        DeliveryView { id: self.request_id_short@, event: self.event@ }
    }
}

/// What is to be done about an update.
#[derive(Debug)]
pub struct DispatchOutcome {
    /// Whether the press is answered.
    pub answer: bool,
    /// What a session is told.
    pub delivery: Option<Delivery>,
    /// A keyboard that has changed.
    pub edit: Option<EditRequest>,
    /// A message that tells the user how to reach a request.
    pub hint: Option<SendRequest>,
}

/// A `DispatchOutcome` by the characters of its texts.
pub struct OutcomeView {
    pub answer: bool,
    pub delivery: Option<DeliveryView>,
    pub edit: Option<EditView>,
    pub hint: Option<SendView>,
}

impl View for DispatchOutcome {
    type V = OutcomeView;

    open spec fn view(&self) -> OutcomeView {
        OutcomeView {
            answer: self.answer,
            delivery: match self.delivery {
                Some(d) => Some(d@),
                None => None,
            },
            edit: opt_edit(self.edit),
            hint: match self.hint {
                Some(r) => Some(r@),
                None => None,
            },
        }
    }
}

/// A request that has been registered, with the message that puts it to the chat.
#[derive(Debug)]
pub struct OpenedRequest {
    pub request_id_short: String,
    pub request: SendRequest,
}

/// A request that could not be put to the chat.
#[derive(Debug)]
pub struct RequestFailure {
    pub error: TelegramError,
    /// Whether polling is over, as no session is left.
    pub stop_polling: bool,
}

/// Whether `i` is the place of the session `id`.
pub open spec fn is_place(sessions: Seq<SessionView>, id: Seq<char>, i: int) -> bool {
    0 <= i < sessions.len() && sessions[i].id == id
}

/// Whether a session goes by `id`.
pub open spec fn has_session(sessions: Seq<SessionView>, id: Seq<char>) -> bool {
    exists|i: int| is_place(sessions, id, i)
}

/// The place of the session `id`.
pub open spec fn place_of(sessions: Seq<SessionView>, id: Seq<char>) -> int {
    choose|i: int| is_place(sessions, id, i)
}

/// The session that goes by `id`.
pub open spec fn session_of(sessions: Seq<SessionView>, id: Seq<char>) -> Option<SessionView> {
    if has_session(sessions, id) {
        Some(sessions[place_of(sessions, id)])
    } else {
        None
    }
}

/// Whether no two sessions go by the same id, and each has a well-formed selection.
pub open spec fn sessions_wf(sessions: Seq<SessionView>) -> bool {
    &&& forall|i: int, j: int|
        0 <= i < j < sessions.len() ==> (#[trigger] sessions[i]).id != (#[trigger] sessions[j]).id
    &&& forall|i: int|
        0 <= i < sessions.len() ==> selection_wf(
            (#[trigger] sessions[i]).options,
            sessions[i].selected,
        )
}

/// Whether `i` is the first session whose message is `message_id`.
pub open spec fn is_first_with_message(
    sessions: Seq<SessionView>,
    message_id: Option<i32>,
    i: int,
) -> bool {
    &&& 0 <= i < sessions.len()
    &&& sessions[i].message_id == message_id
    &&& forall|j: int| 0 <= j < i ==> (#[trigger] sessions[j]).message_id != message_id
}

/// The first session whose message is `message_id`.
pub open spec fn with_message(sessions: Seq<SessionView>, message_id: Option<i32>) -> Option<int> {
    if exists|i: int| is_first_with_message(sessions, message_id, i) {
        Some(choose|i: int| is_first_with_message(sessions, message_id, i))
    } else {
        None
    }
}

/// The length of the longest id that a session goes by.
pub open spec fn longest_id(sessions: Seq<SessionView>) -> nat
    decreases sessions.len(),
{
    if sessions.len() == 0 {
        0
    } else {
        let rest = longest_id(sessions.drop_last());
        if sessions.last().id.len() > rest {
            sessions.last().id.len()
        } else {
            rest
        }
    }
}

/// An id that no session goes by: `id`, with as many plus signs behind it as that takes.
pub open spec fn fresh_id(sessions: Seq<SessionView>, id: Seq<char>) -> Seq<char>
    decreases longest_id(sessions) + 1 - id.len(),
{
    if has_session(sessions, id) {
        proof {
            lemma_longest_id(sessions, place_of(sessions, id));
        }
        fresh_id(sessions, id.push('+'))
    } else {
        id
    }
}

/// The short id of a request: its first `n` bytes where no session goes by them yet, else two
/// bytes more and so on, and at last the whole id, made fresh where a session goes by it. `None`
/// where such a cut would part a character.
pub open spec fn short_id_from(
    sessions: Seq<SessionView>,
    request_id: Seq<char>,
    n: int,
) -> Option<Seq<char>>
    decreases encode_utf8(request_id).len() - n,
{
    let head = byte_prefix(request_id, n);
    if !is_char_boundary(encode_utf8(request_id), n) {
        None
    } else if !has_session(sessions, head) {
        Some(head)
    } else if n + 2 >= encode_utf8(request_id).len() {
        Some(fresh_id(sessions, request_id))
    } else {
        short_id_from(sessions, request_id, n + 2)
    }
}

/// The length in bytes that a short id has at first.
pub open spec fn first_cut(request_id: Seq<char>) -> int {
    if encode_utf8(request_id).len() < 6 {
        encode_utf8(request_id).len() as int
    } else {
        6
    }
}

/// The short id under which a request is registered.
pub open spec fn short_id(sessions: Seq<SessionView>, request_id: Seq<char>) -> Option<Seq<char>> {
    short_id_from(sessions, request_id, first_cut(request_id))
}

/// A session that has just been registered.
pub open spec fn new_session(
    id: Seq<char>,
    options: Seq<Seq<char>>,
    continue_reply_enabled: bool,
) -> SessionView {
    SessionView {
        id,
        message_id: None,
        options,
        continue_reply_enabled,
        selected: Seq::empty(),
        user_input: Seq::empty(),
    }
}

/// The sessions once the one with `id` has left.
pub open spec fn left(sessions: Seq<SessionView>, id: Seq<char>) -> Seq<SessionView> {
    if has_session(sessions, id) {
        sessions.remove(place_of(sessions, id))
    } else {
        sessions
    }
}

/// The sessions once the one with `id` knows its message.
pub open spec fn with_message_id(
    sessions: Seq<SessionView>,
    id: Seq<char>,
    message_id: i32,
) -> Seq<SessionView> {
    if has_session(sessions, id) {
        let i = place_of(sessions, id);
        sessions.update(i, SessionView { message_id: Some(message_id), ..sessions[i] })
    } else {
        sessions
    }
}

/// The number that follows `n`, from 0 again after the largest.
pub open spec fn number_after(n: u32) -> u32 {
    if n == u32::MAX {
        0
    } else {
        (n + 1) as u32
    }
}

/// A dispatcher once a request has been registered under the id `id`.
pub open spec fn after_registration(
    dispatcher: DispatcherView,
    id: Seq<char>,
    options: Seq<Seq<char>>,
    continue_reply_enabled: bool,
) -> DispatcherView {
    DispatcherView {
        sessions: dispatcher.sessions.push(new_session(id, options, continue_reply_enabled)),
        next_number: number_after(dispatcher.next_number),
        ..dispatcher
    }
}

/// The text of a request: with its number where other requests wait too, and with the name of its
/// client.
pub open spec fn request_text(
    session_count: nat,
    sequence_number: u32,
    client_name: Option<Seq<char>>,
    message: Seq<char>,
) -> Seq<char> {
    if session_count > 1 {
        "[#"@ + decimal(sequence_number as nat) + "] "@ + with_client(client_name, message)
    } else {
        with_client(client_name, message)
    }
}

/// The keyboard of the session `id`.
pub open spec fn session_keyboard(
    id: Seq<char>,
    options: Seq<Seq<char>>,
    selected: Seq<Seq<char>>,
    continue_reply_enabled: bool,
) -> Seq<Seq<ButtonView>> {
    keyboard_view(
        options,
        selected,
        continue_reply_enabled,
        "t:"@ + id + ":"@,
        "a:"@ + id + ":c"@,
        "a:"@ + id + ":s"@,
    )
}

/// The message that puts a request to the chat, with a keyboard under it on which nothing is
/// selected.
pub open spec fn request_message(
    dispatcher: DispatcherView,
    id: Seq<char>,
    number: u32,
    client_name: Option<Seq<char>>,
    message: Seq<char>,
    options: Seq<Seq<char>>,
    is_markdown: bool,
    continue_reply_enabled: bool,
) -> SendView {
    SendView {
        chat_id: dispatcher.core.chat_id,
        text: request_text(dispatcher.sessions.len(), number, client_name, message),
        format: options_format(is_markdown),
        keyboard: Some(session_keyboard(id, options, Seq::empty(), continue_reply_enabled)),
    }
}

/// What became of putting a request to the chat, by characters: the number of its message, or the
/// words of the send error.
pub open spec fn put_outcome(outcome: Result<i32, String>) -> Result<i32, Seq<char>> {
    match outcome {
        Ok(id) => Ok(id),
        Err(e) => Err(e@),
    }
}

/// What became of putting a request to the chat, by characters: the number of its message, or the
/// error and whether polling is over.
pub open spec fn put_result(result: Result<i32, RequestFailure>) -> Result<i32, (ErrorView, bool)> {
    match result {
        Ok(id) => Ok(id),
        Err(failure) => Err((failure.error@, failure.stop_polling)),
    }
}

/// The sessions once it is known what became of putting the request `id` to the chat, and what is
/// reported of it.
pub open spec fn after_put(
    sessions: Seq<SessionView>,
    id: Seq<char>,
    outcome: Result<i32, Seq<char>>,
) -> (Seq<SessionView>, Result<i32, (ErrorView, bool)>) {
    match outcome {
        Ok(message_id) => (with_message_id(sessions, id, message_id), Ok(message_id)),
        Err(words) => if arrived_after_all(words) {
            (sessions, Ok(0))
        } else {
            (
                left(sessions, id),
                Err((ErrorView::SendOptionsFailed(words), left(sessions, id).len() == 0)),
            )
        },
    }
}

/// The outcome of an update that concerns nobody.
pub open spec fn ignored() -> OutcomeView {
    OutcomeView { answer: false, delivery: None, edit: None, hint: None }
}

/// The outcome of a press that is answered and changes nothing.
pub open spec fn answered() -> OutcomeView {
    OutcomeView { answer: true, delivery: None, edit: None, hint: None }
}

/// An answered press of which the session `id` is told.
pub open spec fn answered_with(id: Seq<char>, event: SessionEventView) -> OutcomeView {
    OutcomeView { delivery: Some(DeliveryView { id, event }), ..answered() }
}

/// A session that knows its message: the one that a press came from, unless it knew one before.
pub open spec fn noted(session: SessionView, message: Option<MessageRef>) -> SessionView {
    match message {
        Some(m) if session.message_id is None => SessionView {
            message_id: Some(m.message_id),
            ..session
        },
        _ => session,
    }
}

/// A session once `option` has been toggled.
pub open spec fn with_toggled(session: SessionView, option: Seq<char>) -> SessionView {
    SessionView { selected: toggled(session.selected, option), ..session }
}

/// What a session is told of a toggled option.
pub open spec fn toggle_event(session: SessionView, option: Seq<char>) -> SessionEventView {
    SessionEventView::Telegram(
        EventView::OptionToggled { option, selected: !session.selected.contains(option) },
    )
}

/// What the session of a pressed button becomes, and what comes of the press. The button belongs
/// to the kind `kind` (`a` for actions, `t` for options) and carries `payload`.
pub open spec fn press_session(
    session: SessionView,
    chat_id: i64,
    kind: Seq<char>,
    payload: Seq<char>,
) -> (SessionView, OutcomeView) {
    if kind == "a"@ {
        if payload == "s"@ {
            (session, answered_with(session.id, SessionEventView::Action(SessionAction::Send)))
        } else if payload == "c"@ {
            (session, answered_with(session.id, SessionEventView::Action(SessionAction::Continue)))
        } else {
            (session, answered())
        }
    } else if kind == "t"@ {
        match indexed_option(payload, session.options) {
            Some(option) => {
                let after = with_toggled(session, option);
                (
                    after,
                    OutcomeView {
                        edit: match session.message_id {
                            Some(message_id) => Some(
                                EditView {
                                    chat_id,
                                    message_id,
                                    keyboard: session_keyboard(
                                        after.id,
                                        after.options,
                                        after.selected,
                                        after.continue_reply_enabled,
                                    ),
                                },
                            ),
                            None => None,
                        },
                        ..answered_with(session.id, toggle_event(session, option))
                    },
                )
            },
            None => (session, answered()),
        }
    } else {
        (session, answered())
    }
}

/// The session that a press without a session id is meant for: the only one, or the one whose
/// message the button stands under.
pub open spec fn legacy_target(
    sessions: Seq<SessionView>,
    message: Option<MessageRef>,
) -> Option<int> {
    if sessions.len() == 1 {
        Some(0)
    } else {
        match message {
            Some(m) => with_message(sessions, Some(m.message_id)),
            None => None,
        }
    }
}

/// What a session becomes by a press without a session id, and what comes of the press.
pub open spec fn legacy_press_session(
    session: SessionView,
    data: Seq<char>,
) -> (SessionView, OutcomeView) {
    match callback_action(data, session.options) {
        Some(CallbackActionView::OptionToggled(option)) => (
            with_toggled(session, option),
            answered_with(session.id, toggle_event(session, option)),
        ),
        Some(CallbackActionView::ActionEvent(ActionEvent::Send)) => (
            session,
            answered_with(session.id, SessionEventView::Action(SessionAction::Send)),
        ),
        Some(CallbackActionView::ActionEvent(ActionEvent::Continue)) => (
            session,
            answered_with(session.id, SessionEventView::Action(SessionAction::Continue)),
        ),
        None => (session, answered()),
    }
}

/// What the sessions become by a press without a session id, and what comes of the press.
pub open spec fn legacy_press(
    sessions: Seq<SessionView>,
    message: Option<MessageRef>,
    data: Seq<char>,
) -> (Seq<SessionView>, OutcomeView) {
    match legacy_target(sessions, message) {
        Some(i) => {
            let (session, outcome) = legacy_press_session(sessions[i], data);
            (sessions.update(i, session), outcome)
        },
        None => (sessions, answered()),
    }
}

/// What the sessions become by a press whose data names the session `id`, and what comes of it.
pub open spec fn scoped_press(
    sessions: Seq<SessionView>,
    chat_id: i64,
    message: Option<MessageRef>,
    kind: Seq<char>,
    id: Seq<char>,
    payload: Seq<char>,
) -> (Seq<SessionView>, OutcomeView) {
    if has_session(sessions, id) {
        let i = place_of(sessions, id);
        let (session, outcome) = press_session(
            noted(sessions[i], message),
            chat_id,
            kind,
            payload,
        );
        (sessions.update(i, session), outcome)
    } else {
        (sessions, answered())
    }
}

/// The three parts of data that names a session. Data that names an option by its text names no
/// session, whatever colons the text holds.
pub open spec fn session_parts(data: Seq<char>) -> Option<(Seq<char>, Seq<char>, Seq<char>)> {
    if "toggle:"@.is_prefix_of(data) {
        None
    } else {
        split_at_colons(data)
    }
}

/// What the sessions become by a press in their chat, and what comes of it.
pub open spec fn press(
    sessions: Seq<SessionView>,
    chat_id: i64,
    message: Option<MessageRef>,
    data: Option<Seq<char>>,
) -> (Seq<SessionView>, OutcomeView) {
    match data {
        Some(data) => match session_parts(data) {
            Some((kind, id, payload)) => scoped_press(
                sessions,
                chat_id,
                message,
                kind,
                id,
                payload,
            ),
            None => legacy_press(sessions, message, data),
        },
        None => (sessions, answered()),
    }
}

/// What the sessions become by a press, and what comes of it.
pub open spec fn callback_dispatch(
    sessions: Seq<SessionView>,
    chat_id: i64,
    query: CallbackQuery,
) -> (Seq<SessionView>, OutcomeView) {
    if in_chat(query, chat_id) {
        press(sessions, chat_id, query.message, opt_text(query.data))
    } else {
        (sessions, ignored())
    }
}

/// The session that a message is meant for: the only one, or the one whose message it replies to.
pub open spec fn message_target(
    sessions: Seq<SessionView>,
    reply_to: Option<i32>,
) -> Option<int> {
    if sessions.len() == 1 {
        Some(0)
    } else if reply_to is Some {
        with_message(sessions, reply_to)
    } else {
        None
    }
}

/// What a session becomes by a text, and what it is told.
pub open spec fn text_session(
    session: SessionView,
    text: Seq<char>,
) -> (SessionView, SessionEventView) {
    match command_of(text) {
        Some(ActionEvent::Continue) => (session, SessionEventView::Action(SessionAction::Continue)),
        Some(ActionEvent::Send) => (session, SessionEventView::Action(SessionAction::Send)),
        None => (
            SessionView { user_input: text, ..session },
            SessionEventView::Telegram(EventView::TextUpdated { text }),
        ),
    }
}

/// The message that asks the user to reply to the request that a text is meant for.
pub open spec fn reply_hint(session_count: nat) -> Seq<char> {
    "当前有 "@ + decimal(session_count) + " 个活跃请求，请使用引用回复(reply)指定目标请求。"@
}

/// What the sessions become by a message, and what comes of it.
pub open spec fn message_dispatch(
    sessions: Seq<SessionView>,
    chat_id: i64,
    message: Message,
) -> (Seq<SessionView>, OutcomeView) {
    if message.chat_id != chat_id || sessions.len() == 0 {
        (sessions, ignored())
    } else {
        match (message_target(sessions, message.reply_to), opt_text(message.text)) {
            (Some(i), Some(text)) => {
                let (session, event) = text_session(sessions[i], text);
                (
                    sessions.update(i, session),
                    OutcomeView {
                        delivery: Some(DeliveryView { id: session.id, event }),
                        ..ignored()
                    },
                )
            },
            (None, Some(text)) if text.len() > 0 => (
                sessions,
                OutcomeView {
                    hint: Some(text_request(chat_id, reply_hint(sessions.len()), false)),
                    ..ignored()
                },
            ),
            _ => (sessions, ignored()),
        }
    }
}

/// What the sessions become by an update, and what comes of it.
pub open spec fn update_dispatch(
    sessions: Seq<SessionView>,
    chat_id: i64,
    kind: UpdateKind,
) -> (Seq<SessionView>, OutcomeView) {
    match kind {
        UpdateKind::CallbackQuery(query) => callback_dispatch(sessions, chat_id, query),
        UpdateKind::Message(message) => message_dispatch(sessions, chat_id, message),
        UpdateKind::Other => (sessions, ignored()),
    }
}

/// Whether polling has to be started: unless it is marked as active and its task, where
/// `task_finished` tells of one, still runs.
pub open spec fn must_start(active: bool, task_finished: Option<bool>) -> bool {
    !(active && task_finished == Some(false))
}

/// What is to be done so that a dispatcher serves `config`, where the one that is there serves
/// `current`.
pub open spec fn config_change(
    current: Option<ConfigView>,
    config: ConfigView,
) -> DispatcherChange {
    if current == Some(config) {
        DispatcherChange::Keep
    } else {
        DispatcherChange::Replace { stop_old: current is Some }
    }
}

/// An id is no longer than the longest one.
pub proof fn lemma_longest_id(sessions: Seq<SessionView>, i: int)
    ensures
        0 <= i < sessions.len() ==> sessions[i].id.len() <= longest_id(sessions),
    decreases sessions.len(),
{
    if 0 <= i < sessions.len() - 1 {
        lemma_longest_id(sessions.drop_last(), i);
    }
}

/// A fresh id is one that no session goes by: the id that it was made from, and plus signs.
pub proof fn a_fresh_id_is_new(sessions: Seq<SessionView>, id: Seq<char>)
    ensures
        !has_session(sessions, fresh_id(sessions, id)),
        id.is_prefix_of(fresh_id(sessions, id)),
        forall|i: int|
            id.len() <= i < fresh_id(sessions, id).len() ==> #[trigger] fresh_id(sessions, id)[i]
                == '+',
    decreases longest_id(sessions) + 1 - id.len(),
{
    if has_session(sessions, id) {
        lemma_longest_id(sessions, place_of(sessions, id));
        let next = id.push('+');
        a_fresh_id_is_new(sessions, next);
        let fresh = fresh_id(sessions, next);
        assert(fresh[id.len() as int] == next[id.len() as int]);
        assert(id == next.take(id.len() as int));
        assert(id.is_prefix_of(fresh));
    }
}

/// A request is registered under an id that no session goes by.
pub proof fn a_short_id_is_new(sessions: Seq<SessionView>, request_id: Seq<char>)
    requires
        short_id(sessions, request_id) is Some,
    ensures
        !has_session(sessions, short_id(sessions, request_id)->0),
{
    lemma_short_id_new(sessions, request_id, first_cut(request_id));
}

proof fn lemma_short_id_new(sessions: Seq<SessionView>, request_id: Seq<char>, n: int)
    requires
        short_id_from(sessions, request_id, n) is Some,
    ensures
        !has_session(sessions, short_id_from(sessions, request_id, n)->0),
    decreases encode_utf8(request_id).len() - n,
{
    a_fresh_id_is_new(sessions, request_id);
    if has_session(sessions, byte_prefix(request_id, n)) && n + 2 < encode_utf8(request_id).len() {
        lemma_short_id_new(sessions, request_id, n + 2);
    }
}

/// Ids are unique, so a session's place is the only one.
pub(crate) proof fn lemma_place(sessions: Seq<SessionView>, id: Seq<char>, i: int)
    requires
        sessions_wf(sessions),
        is_place(sessions, id, i),
    ensures
        has_session(sessions, id),
        place_of(sessions, id) == i,
{
    let j = place_of(sessions, id);
    assert(is_place(sessions, id, j));
    if i < j {
        assert(sessions[i].id != sessions[j].id);
    } else if j < i {
        assert(sessions[j].id != sessions[i].id);
    }
}

/// A session may be replaced by another with the same id and a well-formed selection.
proof fn lemma_update_wf(sessions: Seq<SessionView>, i: int, session: SessionView)
    requires
        sessions_wf(sessions),
        0 <= i < sessions.len(),
        session.id == sessions[i].id,
        selection_wf(session.options, session.selected),
    ensures
        sessions_wf(sessions.update(i, session)),
{
    let after = sessions.update(i, session);
    assert forall|a: int, b: int| 0 <= a < b < after.len() implies (#[trigger] after[a]).id != (
    #[trigger] after[b]).id by {
        assert(sessions[a].id != sessions[b].id);
    }
}

/// The first session with a message is the only first one.
proof fn lemma_first_with_message(sessions: Seq<SessionView>, message_id: Option<i32>, i: int)
    requires
        is_first_with_message(sessions, message_id, i),
    ensures
        with_message(sessions, message_id) == Some(i),
{
    let j = with_message(sessions, message_id).unwrap();
    assert(is_first_with_message(sessions, message_id, j));
    if i < j {
        assert(sessions[i].message_id != message_id);
    } else if j < i {
        assert(sessions[j].message_id != message_id);
    }
}

/// An option named by the data of a button is on offer.
proof fn lemma_named_option_offered(data: Seq<char>, options: Seq<Seq<char>>)
    ensures
        toggle_target(data, options) matches Some(o) ==> options.contains(o),
{
}

/// Changing one session of a list changes its view at that place only.
proof fn lemma_views_update(sessions: Seq<RequestSession>, i: int, session: RequestSession)
    requires
        0 <= i < sessions.len(),
    ensures
        session_views(sessions.update(i, session)) == session_views(sessions).update(i, session@),
{
    assert(session_views(sessions.update(i, session)) =~= session_views(sessions).update(
        i,
        session@,
    ));
}

/// The keyboard of the session `request_id_short`.
pub fn create_inline_keyboard_with_id(
    request_id_short: &str,
    predefined_options: &[String],
    selected_options: &[String],
    continue_reply_enabled: bool,
) -> (keyboard: InlineKeyboardMarkup)
    ensures
        keyboard@ == session_keyboard(
            request_id_short@,
            texts(predefined_options@),
            texts(selected_options@),
            continue_reply_enabled,
        ),
{
    let prefix = "t:".to_owned().concat(request_id_short).concat(":");
    let continue_data = "a:".to_owned().concat(request_id_short).concat(":c");
    let send_data = "a:".to_owned().concat(request_id_short).concat(":s");
    build_keyboard(
        predefined_options,
        selected_options,
        continue_reply_enabled,
        prefix.as_str(),
        continue_data.as_str(),
        send_data.as_str(),
    )
}

impl RequestSession {
    /// Toggles an option that is on offer and tells what to say of it.
    fn toggle(&mut self, option: String) -> (delivery: Delivery)
        requires
            selection_wf(old(self)@.options, old(self)@.selected),
            old(self)@.options.contains(option@),
        ensures
            final(self)@ == with_toggled(old(self)@, option@),
            selection_wf(final(self)@.options, final(self)@.selected),
            delivery@.id == old(self)@.id,
            delivery@.event == toggle_event(old(self)@, option@),
    {
        proof {
            toggle_keeps_selection(self@.options, self@.selected, option@);
        }
        let selected: bool = toggle_option(&mut self.selected_options, option.as_str());
        Delivery {
            request_id_short: self.request_id_short.clone(),
            event: SessionEvent::Telegram(TelegramEvent::OptionToggled { option, selected }),
        }
    }

    /// Tells this session of an action.
    fn act(&self, action: SessionAction) -> (delivery: Delivery)
        ensures
            delivery@.id == self@.id,
            delivery@.event == SessionEventView::Action(action),
    {
        Delivery {
            request_id_short: self.request_id_short.clone(),
            event: SessionEvent::Action(action),
        }
    }

    /// A press on a button of this session.
    fn press(&mut self, chat_id: i64, kind: &str, payload: &str) -> (outcome: DispatchOutcome)
        requires
            selection_wf(old(self)@.options, old(self)@.selected),
        ensures
            (final(self)@, outcome@) == press_session(old(self)@, chat_id, kind@, payload@),
            final(self)@.id == old(self)@.id,
            selection_wf(final(self)@.options, final(self)@.selected),
    {
        if same_text(kind, "a") {
            let delivery = if same_text(payload, "s") {
                Some(self.act(SessionAction::Send))
            } else if same_text(payload, "c") {
                Some(self.act(SessionAction::Continue))
            } else {
                None
            };
            DispatchOutcome { answer: true, delivery, edit: None, hint: None }
        } else if same_text(kind, "t") {
            match option_at(payload, self.predefined_options.as_slice()) {
                Some(option) => {
                    let delivery = self.toggle(option);
                    let edit = match self.telegram_message_id {
                        Some(message_id) => Some(
                            EditRequest {
                                chat_id,
                                message_id,
                                keyboard: create_inline_keyboard_with_id(
                                    self.request_id_short.as_str(),
                                    self.predefined_options.as_slice(),
                                    self.selected_options.as_slice(),
                                    self.continue_reply_enabled,
                                ),
                            },
                        ),
                        None => None,
                    };
                    DispatchOutcome { answer: true, delivery: Some(delivery), edit, hint: None }
                },
                None => DispatchOutcome { answer: true, delivery: None, edit: None, hint: None },
            }
        } else {
            DispatchOutcome { answer: true, delivery: None, edit: None, hint: None }
        }
    }

    /// A press whose data names no session.
    fn legacy_press(&mut self, data: &str) -> (outcome: DispatchOutcome)
        requires
            selection_wf(old(self)@.options, old(self)@.selected),
        ensures
            (final(self)@, outcome@) == legacy_press_session(old(self)@, data@),
            final(self)@.id == old(self)@.id,
            selection_wf(final(self)@.options, final(self)@.selected),
    {
        let delivery = if same_text(data, "action:send") {
            Some(self.act(SessionAction::Send))
        } else if same_text(data, "action:continue") {
            Some(self.act(SessionAction::Continue))
        } else {
            match option_named(data, self.predefined_options.as_slice()) {
                Some(option) => {
                    proof {
                        lemma_named_option_offered(data@, self@.options);
                    }
                    Some(self.toggle(option))
                },
                None => None,
            }
        };
        DispatchOutcome { answer: true, delivery, edit: None, hint: None }
    }

    /// A text meant for this session.
    fn receive(&mut self, text: &str) -> (delivery: Delivery)
        ensures
            (final(self)@, delivery@.event) == text_session(old(self)@, text@),
            delivery@.id == old(self)@.id,
            final(self)@.id == old(self)@.id,
            final(self)@.options == old(self)@.options,
            final(self)@.selected == old(self)@.selected,
    {
        let event = match parse_command(text) {
            Some(ActionEvent::Continue) => SessionEvent::Action(SessionAction::Continue),
            Some(ActionEvent::Send) => SessionEvent::Action(SessionAction::Send),
            None => {
                self.user_input = text.to_owned();
                SessionEvent::Telegram(TelegramEvent::TextUpdated { text: text.to_owned() })
            },
        };
        Delivery { request_id_short: self.request_id_short.clone(), event }
    }
}

impl TelegramDispatcher {
    /// Whether no two sessions go by the same id, and each has a well-formed selection.
    pub open spec fn wf(self) -> bool {
        sessions_wf(self@.sessions)
    }

    /// The place of the session `id`.
    fn find(&self, id: &str) -> (place: Option<usize>)
        requires
            self.wf(),
        ensures
            match place {
                Some(i) => i < self.sessions@.len() && has_session(self@.sessions, id@) && place_of(
                    self@.sessions,
                    id@,
                ) == i,
                None => !has_session(self@.sessions, id@),
            },
    {
        let mut i: usize = 0;
        while i < self.sessions.len()
            invariant
                self.wf(),
                i <= self.sessions@.len(),
                forall|j: int| 0 <= j < i ==> (#[trigger] self@.sessions[j]).id != id@,
            decreases self.sessions@.len() - i,
        {
            if same_text(self.sessions[i].request_id_short.as_str(), id) {
                proof {
                    assert(is_place(self@.sessions, id@, i as int));
                    lemma_place(self@.sessions, id@, i as int);
                }
                return Some(i);
            }
            assert(self@.sessions[i as int].id == self.sessions@[i as int].request_id_short@);
            i += 1;
        }
        None
    }

    /// The first session whose message is `message_id`.
    fn find_message(&self, message_id: Option<i32>) -> (place: Option<usize>)
        ensures
            match place {
                Some(i) => i < self.sessions@.len() && with_message(self@.sessions, message_id)
                    == Some(i as int),
                None => with_message(self@.sessions, message_id) is None,
            },
    {
        let mut i: usize = 0;
        while i < self.sessions.len()
            invariant
                i <= self.sessions@.len(),
                forall|j: int|
                    0 <= j < i ==> (#[trigger] self@.sessions[j]).message_id != message_id,
            decreases self.sessions@.len() - i,
        {
            assert(self@.sessions[i as int].message_id
                == self.sessions@[i as int].telegram_message_id);
            if self.sessions[i].telegram_message_id == message_id {
                proof {
                    lemma_first_with_message(self@.sessions, message_id, i as int);
                }
                return Some(i);
            }
            i += 1;
        }
        None
    }

    /// A dispatcher for a configuration, with no session yet.
    pub fn new(config: DispatcherConfig) -> (dispatcher: Result<Self, TelegramError>)
        ensures
            new_dispatcher(dispatcher, config@.bot_token, config@.chat_id, parsed_api_url(config@.api_url)),
    {
        match TelegramCore::new_with_api_url(config.bot_token, config.chat_id, config.api_url) {
            Ok(core) => Ok(Self::from_core(core)),
            Err(e) => Err(e),
        }
    }

    /// A dispatcher for a bot, with no session yet.
    pub fn from_core(core: TelegramCore) -> (dispatcher: Self)
        ensures
            dispatcher.wf(),
            dispatcher@ == (DispatcherView {
                core: core@,
                sessions: Seq::empty(),
                next_number: 1,
            }),
    {
        let dispatcher = TelegramDispatcher { core, sessions: Vec::new(), sequence_counter: 1 };
        assert(dispatcher@.sessions == Seq::<SessionView>::empty());
        dispatcher
    }

    /// The bot of this dispatcher.
    pub fn telegram_core(&self) -> (core: &TelegramCore)
        ensures
            core@ == self@.core,
    {
        &self.core
    }

    /// An id that no session goes by: `id`, with as many plus signs behind it as that takes.
    fn fresh_id_for(&self, id: &str) -> (fresh: String)
        requires
            self.wf(),
        ensures
            fresh@ == fresh_id(self@.sessions, id@),
    {
        let mut fresh = id.to_owned();
        while self.find(fresh.as_str()).is_some()
            invariant
                self.wf(),
                fresh_id(self@.sessions, fresh@) == fresh_id(self@.sessions, id@),
            decreases longest_id(self@.sessions) + 1 - fresh@.len(),
        {
            proof {
                reveal_strlit("+");
                lemma_longest_id(self@.sessions, place_of(self@.sessions, fresh@));
                assert(fresh@ + "+"@ == fresh@.push('+'));
            }
            fresh.append("+");
        }
        fresh
    }

    /// The short id under which a request would be registered now: six bytes of its id, or as many
    /// more as it takes to meet no session, up to the whole id, which is made fresh where a session
    /// goes by it. `None` where a cut would part a character.
    pub fn short_id_for(&self, request_id: &str) -> (id: Option<String>)
        requires
            self.wf(),
        ensures
            opt_text(id) == short_id(self@.sessions, request_id@),
    {
        let length: usize = request_id.as_bytes().len();
        let mut n: usize = if length < 6 {
            length
        } else {
            6
        };
        loop
            invariant
                self.wf(),
                length == encode_utf8(request_id@).len(),
                n <= length,
                short_id(self@.sessions, request_id@) == short_id_from(
                    self@.sessions,
                    request_id@,
                    n as int,
                ),
            decreases length - n,
        {
            let candidate = match take_bytes(request_id, n) {
                Some(head) => head,
                None => {
                    return None;
                },
            };
            if self.find(candidate).is_none() {
                return Some(candidate.to_owned());
            }
            if length - n <= 2 {
                return Some(self.fresh_id_for(request_id));
            }
            n += 2;
        }
    }

    /// Registers a request under an id that no session goes by, and tells that id and the number of
    /// the request.
    pub fn register_session(
        &mut self,
        request_id: String,
        predefined_options: Vec<String>,
        continue_reply_enabled: bool,
    ) -> (registered: (String, u32))
        requires
            old(self).wf(),
            short_id(old(self)@.sessions, request_id@) is Some,
        ensures
            final(self).wf(),
            Some(registered.0@) == short_id(old(self)@.sessions, request_id@),
            !has_session(old(self)@.sessions, registered.0@),
            registered.1 == old(self)@.next_number,
            final(self)@ == after_registration(
                old(self)@,
                registered.0@,
                texts(predefined_options@),
                continue_reply_enabled,
            ),
    {
        let short = match self.short_id_for(request_id.as_str()) {
            Some(id) => id,
            None => request_id,
        };
        let number: u32 = self.sequence_counter;
        self.sequence_counter = number.wrapping_add(1);
        let session = RequestSession {
            request_id_short: short.clone(),
            telegram_message_id: None,
            predefined_options,
            continue_reply_enabled,
            selected_options: Vec::new(),
            user_input: String::new(),
        };
        let ghost view = session@;
        let ghost before = self.sessions@;
        proof {
            assert(view.selected == Seq::<Seq<char>>::empty());
            assert(view == new_session(
                short@,
                texts(predefined_options@),
                continue_reply_enabled,
            ));
        }
        self.sessions.push(session);
        proof {
            let after = session_views(before).push(view);
            assert(self@.sessions == after);
            a_short_id_is_new(session_views(before), request_id@);
            assert forall|a: int, b: int| 0 <= a < b < after.len() implies (#[trigger] after[a]).id
                != (#[trigger] after[b]).id by {
                if b == before.len() {
                    assert(!is_place(session_views(before), short@, a));
                }
            }
        }
        (short, number)
    }

    /// Notes the message in which a request was put.
    pub fn set_session_message_id(&mut self, request_id_short: &str, message_id: i32)
        requires
            old(self).wf(),
        ensures
            final(self).wf(),
            final(self)@ == (DispatcherView {
                sessions: with_message_id(old(self)@.sessions, request_id_short@, message_id),
                ..old(self)@
            }),
    {
        let ghost before = self.sessions@;
        match self.find(request_id_short) {
            Some(i) => {
                self.sessions[i].telegram_message_id = Some(message_id);
                proof {
                    lemma_views_update(before, i as int, self.sessions@[i as int]);
                    lemma_update_wf(
                        session_views(before),
                        i as int,
                        self.sessions@[i as int]@,
                    );
                    assert(self.sessions@ == before.update(i as int, self.sessions@[i as int]));
                }
            },
            None => {},
        }
    }

    /// Drops the session of a request and tells whether polling is over, as no session is left.
    pub fn unregister_session(&mut self, request_id_short: &str) -> (stop_polling: bool)
        requires
            old(self).wf(),
        ensures
            final(self).wf(),
            final(self)@ == (DispatcherView {
                sessions: left(old(self)@.sessions, request_id_short@),
                ..old(self)@
            }),
            stop_polling == (final(self)@.sessions.len() == 0),
    {
        let ghost before = self.sessions@;
        match self.find(request_id_short) {
            Some(i) => {
                let _session = self.sessions.remove(i);
                proof {
                    let views = session_views(before);
                    let after = views.remove(i as int);
                    assert(self@.sessions == after);
                    assert forall|a: int, b: int| 0 <= a < b < after.len() implies (
                    #[trigger] after[a]).id != (#[trigger] after[b]).id by {
                        let a0 = if a < i { a } else { a + 1 };
                        let b0 = if b < i { b } else { b + 1 };
                        assert(views[a0].id != views[b0].id);
                    }
                }
            },
            None => {},
        }
        self.sessions.len() == 0
    }

    /// How many sessions wait.
    pub fn active_session_count(&self) -> (count: usize)
        ensures
            count == self@.sessions.len(),
    {
        self.sessions.len()
    }

    /// The message that puts a request to the chat.
    pub fn send_options_message(
        &self,
        request_id_short: &str,
        sequence_number: u32,
        message: &str,
        predefined_options: &[String],
        is_markdown: bool,
        client_name: Option<&str>,
        continue_reply_enabled: bool,
    ) -> (request: SendRequest)
        ensures
            request@ == request_message(
                self@,
                request_id_short@,
                sequence_number,
                opt_str(client_name),
                message@,
                texts(predefined_options@),
                is_markdown,
                continue_reply_enabled,
            ),
            request@ == (SendView {
                chat_id: self@.core.chat_id,
                text: request_text(
                    self@.sessions.len(),
                    sequence_number,
                    opt_str(client_name),
                    message@,
                ),
                format: options_format(is_markdown),
                keyboard: Some(
                    session_keyboard(
                        request_id_short@,
                        texts(predefined_options@),
                        Seq::empty(),
                        continue_reply_enabled,
                    ),
                ),
            }),
    {
        let body = name_client(client_name, message);
        let text = if self.active_session_count() > 1 {
            let label = "[#".to_owned().concat(decimal_text(sequence_number as u64).as_str());
            label.concat("] ").concat(body.as_str())
        } else {
            body
        };
        let none: Vec<String> = Vec::new();
        let keyboard = create_inline_keyboard_with_id(
            request_id_short,
            predefined_options,
            none.as_slice(),
            continue_reply_enabled,
        );
        assert(texts(none@) == Seq::<Seq<char>>::empty());
        let format = if is_markdown {
            TextFormat::ConvertedMarkdown
        } else {
            TextFormat::Plain
        };
        SendRequest { chat_id: self.core.chat_id, text, format, keyboard: Some(keyboard) }
    }

    /// What became of the message that puts a request to the chat: its number, or the words of the
    /// send error. The session learns the number. An error whose words tell that the message
    /// arrived is none; the number is then not known, and 0 stands for it.
    pub fn options_message_sent(
        &mut self,
        request_id_short: &str,
        outcome: Result<i32, String>,
    ) -> (result: Result<i32, TelegramError>)
        requires
            old(self).wf(),
        ensures
            final(self).wf(),
            match outcome {
                Ok(id) => result == Ok::<i32, TelegramError>(id) && final(self)@ == (
                DispatcherView {
                    sessions: with_message_id(old(self)@.sessions, request_id_short@, id),
                    ..old(self)@
                }),
                Err(e) => final(self)@ == old(self)@ && if arrived_after_all(e@) {
                    result == Ok::<i32, TelegramError>(0)
                } else {
                    result is Err && result->Err_0@ == ErrorView::SendOptionsFailed(e@)
                },
            },
    {
        match outcome {
            Ok(id) => {
                self.set_session_message_id(request_id_short, id);
                Ok(id)
            },
            Err(e) => if has_arrived(e.as_str()) {
                Ok(0)
            } else {
                Err(TelegramError::SendOptionsFailed(e))
            },
        }
    }

    /// Takes up a request: registers it and makes the message that puts it to the chat.
    pub fn open_request(
        &mut self,
        request_id: String,
        message: &str,
        predefined_options: Vec<String>,
        is_markdown: bool,
        client_name: Option<&str>,
        continue_reply_enabled: bool,
    ) -> (opened: OpenedRequest)
        requires
            old(self).wf(),
            short_id(old(self)@.sessions, request_id@) is Some,
        ensures
            final(self).wf(),
            Some(opened.request_id_short@) == short_id(old(self)@.sessions, request_id@),
            !has_session(old(self)@.sessions, opened.request_id_short@),
            final(self)@ == after_registration(
                old(self)@,
                opened.request_id_short@,
                texts(predefined_options@),
                continue_reply_enabled,
            ),
            opened.request@ == request_message(
                final(self)@,
                opened.request_id_short@,
                old(self)@.next_number,
                opt_str(client_name),
                message@,
                texts(predefined_options@),
                is_markdown,
                continue_reply_enabled,
            ),
            opened.request@ == (SendView {
                chat_id: old(self)@.core.chat_id,
                text: request_text(
                    final(self)@.sessions.len(),
                    old(self)@.next_number,
                    opt_str(client_name),
                    message@,
                ),
                format: options_format(is_markdown),
                keyboard: Some(
                    session_keyboard(
                        opened.request_id_short@,
                        texts(predefined_options@),
                        Seq::empty(),
                        continue_reply_enabled,
                    ),
                ),
            }),
    {
        let options = clone_list(predefined_options.as_slice());
        let (request_id_short, number) = self.register_session(
            request_id,
            predefined_options,
            continue_reply_enabled,
        );
        let request = self.send_options_message(
            request_id_short.as_str(),
            number,
            message,
            options.as_slice(),
            is_markdown,
            client_name,
            continue_reply_enabled,
        );
        OpenedRequest { request_id_short, request }
    }

    /// What became of the message that puts a request to the chat. Where it was not sent, the
    /// session is dropped again, and the outcome tells whether polling is over.
    pub fn request_put(
        &mut self,
        request_id_short: &str,
        outcome: Result<i32, String>,
    ) -> (result: Result<i32, RequestFailure>)
        requires
            old(self).wf(),
        ensures
            final(self).wf(),
            match outcome {
                Ok(id) => result is Ok && result->Ok_0 == id && final(self)@ == (DispatcherView {
                    sessions: with_message_id(old(self)@.sessions, request_id_short@, id),
                    ..old(self)@
                }),
                Err(e) => if arrived_after_all(e@) {
                    result is Ok && result->Ok_0 == 0 && final(self)@ == old(self)@
                } else {
                    &&& result is Err
                    &&& result->Err_0.error@ == ErrorView::SendOptionsFailed(e@)
                    &&& result->Err_0.stop_polling == (final(self)@.sessions.len() == 0)
                    &&& final(self)@ == (DispatcherView {
                        sessions: left(old(self)@.sessions, request_id_short@),
                        ..old(self)@
                    })
                },
            },
            final(self)@.core == old(self)@.core,
            final(self)@.next_number == old(self)@.next_number,
            (final(self)@.sessions, put_result(result)) == after_put(
                old(self)@.sessions,
                request_id_short@,
                put_outcome(outcome),
            ),
    {
        match self.options_message_sent(request_id_short, outcome) {
            Ok(id) => Ok(id),
            Err(error) => {
                let stop_polling: bool = self.unregister_session(request_id_short);
                Err(RequestFailure { error, stop_polling })
            },
        }
    }

    /// Routes a press.
    pub fn handle_callback_dispatch(&mut self, callback_query: &CallbackQuery) -> (outcome:
        DispatchOutcome)
        requires
            old(self).wf(),
        ensures
            final(self).wf(),
            final(self)@.core == old(self)@.core,
            final(self)@.next_number == old(self)@.next_number,
            (final(self)@.sessions, outcome@) == callback_dispatch(
                old(self)@.sessions,
                old(self)@.core.chat_id,
                *callback_query,
            ),
    {
        match callback_query.message {
            Some(message) => {
                if message.chat_id != self.core.chat_id {
                    return DispatchOutcome {
                        answer: false,
                        delivery: None,
                        edit: None,
                        hint: None,
                    };
                }
            },
            None => {},
        }
        let data = match &callback_query.data {
            Some(data) => data,
            None => {
                return DispatchOutcome { answer: true, delivery: None, edit: None, hint: None };
            },
        };
        let parts = if starts_with(data.as_str(), "toggle:") {
            None
        } else {
            split_three(data.as_str())
        };
        let (kind, id, payload) = match parts {
            Some(parts) => parts,
            None => {
                return self.handle_legacy_callback(callback_query.message, data.as_str());
            },
        };
        let ghost before = self.sessions@;
        match self.find(id) {
            Some(i) => {
                if self.sessions[i].telegram_message_id.is_none() {
                    match callback_query.message {
                        Some(message) => {
                            self.sessions[i].telegram_message_id = Some(message.message_id);
                        },
                        None => {},
                    }
                }
                let ghost noted_session = self.sessions@[i as int];
                assert(noted_session@ == noted(before[i as int]@, callback_query.message));
                let chat_id: i64 = self.core.chat_id;
                let outcome = self.sessions[i].press(chat_id, kind, payload);
                proof {
                    let session = self.sessions@[i as int];
                    assert(self.sessions@ == before.update(i as int, session));
                    lemma_views_update(before, i as int, session);
                    lemma_update_wf(session_views(before), i as int, session@);
                }
                outcome
            },
            None => DispatchOutcome { answer: true, delivery: None, edit: None, hint: None },
        }
    }

    /// Routes a press whose data names no session.
    pub fn handle_legacy_callback(
        &mut self,
        message: Option<MessageRef>,
        data: &str,
    ) -> (outcome: DispatchOutcome)
        requires
            old(self).wf(),
        ensures
            final(self).wf(),
            final(self)@.core == old(self)@.core,
            final(self)@.next_number == old(self)@.next_number,
            (final(self)@.sessions, outcome@) == legacy_press(
                old(self)@.sessions,
                message,
                data@,
            ),
    {
        let ghost before = self.sessions@;
        let target: Option<usize> = if self.sessions.len() == 1 {
            Some(0)
        } else {
            match message {
                Some(m) => self.find_message(Some(m.message_id)),
                None => None,
            }
        };
        match target {
            Some(i) => {
                assert(selection_wf(self@.sessions[i as int].options, self@.sessions[i as int].selected));
                let outcome = self.sessions[i].legacy_press(data);
                proof {
                    let session = self.sessions@[i as int];
                    assert(self.sessions@ == before.update(i as int, session));
                    lemma_views_update(before, i as int, session);
                    lemma_update_wf(session_views(before), i as int, session@);
                }
                outcome
            },
            None => DispatchOutcome { answer: true, delivery: None, edit: None, hint: None },
        }
    }

    /// Routes a message.
    pub fn handle_message_dispatch(&mut self, message: &Message) -> (outcome: DispatchOutcome)
        requires
            old(self).wf(),
        ensures
            final(self).wf(),
            final(self)@.core == old(self)@.core,
            final(self)@.next_number == old(self)@.next_number,
            (final(self)@.sessions, outcome@) == message_dispatch(
                old(self)@.sessions,
                old(self)@.core.chat_id,
                *message,
            ),
    {
        let ghost before = self.sessions@;
        let count: usize = self.sessions.len();
        if message.chat_id != self.core.chat_id || count == 0 {
            return DispatchOutcome { answer: false, delivery: None, edit: None, hint: None };
        }
        let target: Option<usize> = if count == 1 {
            Some(0)
        } else {
            match message.reply_to {
                Some(id) => self.find_message(Some(id)),
                None => None,
            }
        };
        match (target, &message.text) {
            (Some(i), Some(text)) => {
                assert(selection_wf(self@.sessions[i as int].options, self@.sessions[i as int].selected));
                let delivery = self.sessions[i].receive(text.as_str());
                proof {
                    let session = self.sessions@[i as int];
                    assert(self.sessions@ == before.update(i as int, session));
                    lemma_views_update(before, i as int, session);
                    lemma_update_wf(session_views(before), i as int, session@);
                }
                DispatchOutcome {
                    answer: false,
                    delivery: Some(delivery),
                    edit: None,
                    hint: None,
                }
            },
            (None, Some(text)) => {
                let hint = if text.as_str().is_empty() {
                    None
                } else {
                    let words = "当前有 ".to_owned().concat(decimal_text(count as u64).as_str());
                    let words = words.concat(
                        " 个活跃请求，请使用引用回复(reply)指定目标请求。",
                    );
                    Some(self.core.send_message(words.as_str()))
                };
                DispatchOutcome { answer: false, delivery: None, edit: None, hint }
            },
            _ => DispatchOutcome { answer: false, delivery: None, edit: None, hint: None },
        }
    }

    /// Routes an update.
    pub fn dispatch_update(&mut self, kind: &UpdateKind) -> (outcome: DispatchOutcome)
        requires
            old(self).wf(),
        ensures
            final(self).wf(),
            final(self)@.core == old(self)@.core,
            final(self)@.next_number == old(self)@.next_number,
            (final(self)@.sessions, outcome@) == update_dispatch(
                old(self)@.sessions,
                old(self)@.core.chat_id,
                *kind,
            ),
    {
        match kind {
            UpdateKind::CallbackQuery(query) => self.handle_callback_dispatch(query),
            UpdateKind::Message(message) => self.handle_message_dispatch(message),
            UpdateKind::Other => DispatchOutcome {
                answer: false,
                delivery: None,
                edit: None,
                hint: None,
            },
        }
    }

    /// What is selected in a session, and the text entered last.
    pub fn get_session_state(&self, request_id_short: &str) -> (state: Option<
        (Vec<String>, String),
    >)
        requires
            self.wf(),
        ensures
            match (state, session_of(self@.sessions, request_id_short@)) {
                (Some((selected, user_input)), Some(session)) => texts(selected@)
                    == session.selected && user_input@ == session.user_input,
                (None, None) => true,
                _ => false,
            },
    {
        match self.find(request_id_short) {
            Some(i) => {
                let session = &self.sessions[i];
                Some((clone_list(session.selected_options.as_slice()), session.user_input.clone()))
            },
            None => None,
        }
    }

    /// A plain message to the chat.
    pub fn send_message(&self, message: &str) -> (request: SendRequest)
        ensures
            request@ == text_request(self@.core.chat_id, message@, false),
    {
        self.core.send_message(message)
    }
}

/// What is to be done so that a dispatcher serves a configuration.
#[derive(Debug, Clone, Copy, PartialEq, Eq, Structural)]
pub enum DispatcherChange {
    /// The dispatcher that is there serves it.
    Keep,
    /// A new dispatcher is made; the polling of the old one, where there is one, stops first.
    Replace { stop_old: bool },
}

/// Whether two optional texts are the same.
fn same_opt_text(a: &Option<String>, b: &Option<String>) -> (same: bool)
    ensures
        same == (opt_text(*a) == opt_text(*b)),
{
    match (a, b) {
        (Some(x), Some(y)) => same_text(x.as_str(), y.as_str()),
        (None, None) => true,
        _ => false,
    }
}

/// Whether two configurations are the same.
pub fn same_config(a: &DispatcherConfig, b: &DispatcherConfig) -> (same: bool)
    ensures
        same == (a@ == b@),
{
    same_text(a.bot_token.as_str(), b.bot_token.as_str()) && same_text(
        a.chat_id.as_str(),
        b.chat_id.as_str(),
    ) && same_opt_text(&a.api_url, &b.api_url)
}

/// Decides whether the dispatcher that is there, made for the configuration `current`, serves a
/// configuration or gives way to a new one.
pub fn dispatcher_change(
    current: Option<&DispatcherConfig>,
    config: &DispatcherConfig,
) -> (change: DispatcherChange)
    ensures
        change == config_change(opt_config(current), config@),
        change == DispatcherChange::Keep <==> current is Some && current->0@ == config@,
{
    match current {
        Some(served) => if same_config(served, config) {
            DispatcherChange::Keep
        } else {
            DispatcherChange::Replace { stop_old: true }
        },
        None => DispatcherChange::Replace { stop_old: false },
    }
}

/// Decides whether polling has to be started.
pub fn polling_must_start(active: bool, task_finished: Option<bool>) -> (start: bool)
    ensures
        start == must_start(active, task_finished),
{
    match task_finished {
        Some(finished) => !active || finished,
        None => true,
    }
}

/// What a dispatcher knows of its polling.
#[derive(Debug)]
pub struct PollingState {
    /// Set when a task is started, and cleared by the task at its end.
    active: bool,
    /// Whether the task that was started last is held, so that it can be stopped.
    held: bool,
}

/// A `PollingState` in the open.
pub struct PollingView {
    pub active: bool,
    pub held: bool,
}

impl View for PollingState {
    type V = PollingView;

    closed spec fn view(&self) -> PollingView {
        PollingView { active: self.active, held: self.held }
    }
}

/// Whether the held task has finished, where one is held.
pub open spec fn held_finished(polling: PollingView, finished: bool) -> Option<bool> {
    if polling.held {
        Some(finished)
    } else {
        None
    }
}

/// What is known of polling after a start: a task is started where one has to be. `finished` tells
/// whether the held task, where one is held, has finished.
pub open spec fn polling_ensured(polling: PollingView, finished: bool) -> (PollingView, bool) {
    if must_start(polling.active, held_finished(polling, finished)) {
        (PollingView { active: true, held: true }, true)
    } else {
        (polling, false)
    }
}

/// What is known of polling once the held task has been let go.
pub open spec fn polling_let_go(polling: PollingView) -> PollingView {
    PollingView { held: false, ..polling }
}

/// What is known of polling once a task has told its end.
pub open spec fn polling_ended(polling: PollingView) -> PollingView {
    PollingView { active: false, ..polling }
}

impl PollingState {
    /// No task has been started.
    pub fn new() -> (polling: Self)
        ensures
            polling@ == (PollingView { active: false, held: false }),
    {
        PollingState { active: false, held: false }
    }

    /// Decides whether a task is to be started now. `finished` tells whether the held task, where
    /// one is held, has finished. A task that is started is the held one from then on.
    pub fn ensure_polling(&mut self, finished: bool) -> (start: bool)
        ensures
            (final(self)@, start) == polling_ensured(old(self)@, finished),
    {
        let task_finished: Option<bool> = if self.held {
            Some(finished)
        } else {
            None
        };
        let start: bool = polling_must_start(self.active, task_finished);
        if start {
            self.active = true;
            self.held = true;
        }
        start
    }

    /// Lets the held task go and tells whether there is one, which is then to be stopped.
    pub fn stop_polling(&mut self) -> (stop: bool)
        ensures
            final(self)@ == polling_let_go(old(self)@),
            stop == old(self)@.held,
    {
        let stop: bool = self.held;
        self.held = false;
        stop
    }

    /// Takes in the end that a task tells.
    pub fn task_ended(&mut self)
        ensures
            final(self)@ == polling_ended(old(self)@),
    {
        self.active = false;
    }
}

/// The configuration that a dispatcher serves, by characters.
pub open spec fn opt_config(config: Option<&DispatcherConfig>) -> Option<ConfigView> {
    match config {
        Some(c) => Some(c@),
        None => None,
    }
}

/// Whether `dispatcher` is what a configuration yields: the error of its bot, or a dispatcher for
/// that bot with no session, whose first request has the number 1.
pub open spec fn new_dispatcher(
    dispatcher: Result<TelegramDispatcher, TelegramError>,
    bot_token: Seq<char>,
    chat_id: Seq<char>,
    parsed: Option<Result<Seq<char>, Seq<char>>>,
) -> bool {
    match (dispatcher, new_core(bot_token, chat_id, parsed)) {
        (Ok(d), Ok(core)) => d.wf() && d@ == (DispatcherView {
            core,
            sessions: Seq::empty(),
            next_number: 1,
        }),
        (Err(e), Err(error)) => e@ == error,
        _ => false,
    }
}

} // verus!
