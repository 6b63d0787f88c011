//! What the user interface asks of Telegram: sending, testing, finding a chat, and keeping a popup
//! in step with a chat.
use crate::dispatcher::{
    ConfigView, DispatcherConfig, SessionAction, SessionEvent, SessionEventView,
};
use crate::error::{error_words, ErrorView, TelegramError};
use crate::outside::{
    is_random_uuid, json_entries, json_insert_text, json_object, no_entries, parse_url,
    random_uuid_text, JsonEntry,
};
use crate::telegram_core::{
    build_feedback_message, connection_test, event_entries, feedback, good_url, new_core, parsed_api_url,
    test_core, test_result, test_telegram_connection_with_api_url, text_request, url_outcome,
    CoreView, EventView, TelegramCore, TelegramEvent,
};
use crate::text::{
    is_blank, is_blank_text, opt_str, opt_text, same_text, signed_decimal, signed_decimal_text,
    texts,
};
use crate::update::{SendRequest, SendView};
use vstd::prelude::*;

verus! {

/// The configuration of the Telegram modules.
#[derive(Debug)]
pub struct TelegramConfig {
    pub enabled: bool,
    pub bot_token: String,
    pub chat_id: String,
    pub api_base_url: String,
}

/// What a configuration asks for.
#[derive(Debug)]
pub enum SyncPlan {
    /// Telegram is not used.
    Disabled,
    /// The bot token or the chat is blank.
    Incomplete,
    /// Requests go to a dispatcher for this configuration.
    Ready(DispatcherConfig),
}

/// A `SyncPlan` by the characters of its texts.
pub enum PlanView {
    Disabled,
    Incomplete,
    Ready(ConfigView),
}

impl View for SyncPlan {
    type V = PlanView;

    open spec fn view(&self) -> PlanView {
        match self {
            SyncPlan::Disabled => PlanView::Disabled,
            SyncPlan::Incomplete => PlanView::Incomplete,
            SyncPlan::Ready(config) => PlanView::Ready(config@),
        }
    }
}

/// The configured API address, where it is not Telegram's own.
pub open spec fn custom_url(api_base_url: Seq<char>, default_url: Seq<char>) -> Option<Seq<char>> {
    if api_base_url == default_url {
        None
    } else {
        Some(api_base_url)
    }
}

/// What a configuration asks for, where `default_url` is Telegram's own API address.
pub open spec fn sync_plan(config: TelegramConfig, default_url: Seq<char>) -> PlanView {
    if !config.enabled {
        PlanView::Disabled
    } else if is_blank_text(config.bot_token@) || is_blank_text(config.chat_id@) {
        PlanView::Incomplete
    } else {
        PlanView::Ready(
            ConfigView {
                bot_token: config.bot_token@,
                chat_id: config.chat_id@,
                api_url: custom_url(config.api_base_url@, default_url),
            },
        )
    }
}

/// The configured API address, where it is not Telegram's own.
pub fn custom_api_url(api_base_url: &str, default_url: &str) -> (url: Option<String>)
    ensures
        opt_text(url) == custom_url(api_base_url@, default_url@),
{
    if same_text(api_base_url, default_url) {
        None
    } else {
        Some(api_base_url.to_owned())
    }
}

/// Decides what a configuration asks for.
pub fn plan_sync(config: &TelegramConfig, default_url: &str) -> (plan: SyncPlan)
    ensures
        plan@ == sync_plan(*config, default_url@),
{
    if !config.enabled {
        SyncPlan::Disabled
    } else if is_blank(config.bot_token.as_str()) || is_blank(config.chat_id.as_str()) {
        SyncPlan::Incomplete
    } else {
        SyncPlan::Ready(
            DispatcherConfig {
                bot_token: config.bot_token.clone(),
                chat_id: config.chat_id.clone(),
                api_url: custom_api_url(config.api_base_url.as_str(), default_url),
            },
        )
    }
}

/// Prepares a connection test by the configured API address.
pub fn test_telegram_connection_cmd(
    bot_token: &str,
    chat_id: &str,
    api_base_url: &str,
    default_url: &str,
) -> (test: Result<(TelegramCore, SendRequest), TelegramError>)
    ensures
        test_result(test) == connection_test(
            test_core(
                bot_token@,
                chat_id@,
                parsed_api_url(custom_url(api_base_url@, default_url@)),
            ),
        ),
{
    match custom_api_url(api_base_url, default_url) {
        Some(url) => test_telegram_connection_with_api_url(bot_token, chat_id, Some(url.as_str())),
        None => test_telegram_connection_with_api_url(bot_token, chat_id, None),
    }
}

/// The bot of a message with the message that it sends.
pub open spec fn message_request(
    core: Result<CoreView, ErrorView>,
    message: Seq<char>,
    use_markdown: bool,
) -> Result<(CoreView, SendView), ErrorView> {
    match core {
        Ok(c) => Ok((c, text_request(c.chat_id, message, use_markdown))),
        Err(e) => Err(e),
    }
}

/// Prepares a plain message: the bot and the message that it sends.
pub fn send_telegram_message(bot_token: &str, chat_id: &str, message: &str) -> (request: Result<
    (TelegramCore, SendRequest),
    TelegramError,
>)
    ensures
        test_result(request) == message_request(
            new_core(bot_token@, chat_id@, None),
            message@,
            false,
        ),
{
    send_telegram_message_with_markdown(bot_token, chat_id, message, false)
}

/// Prepares a message, read as MarkdownV2 where `use_markdown` says so: the bot and the message
/// that it sends.
pub fn send_telegram_message_with_markdown(
    bot_token: &str,
    chat_id: &str,
    message: &str,
    use_markdown: bool,
) -> (request: Result<(TelegramCore, SendRequest), TelegramError>)
    ensures
        test_result(request) == message_request(
            new_core(bot_token@, chat_id@, None),
            message@,
            use_markdown,
        ),
{
    match TelegramCore::new(bot_token.to_owned(), chat_id.to_owned()) {
        Ok(core) => {
            let request = core.send_message_with_markdown(message, use_markdown);
            Ok((core, request))
        },
        Err(e) => Err(e),
    }
}

/// The API address by which a chat is looked for: the configured one, unless it is Telegram's own
/// or does not parse.
pub fn detection_api_url(api_base_url: &str, default_url: &str) -> (url: Option<String>)
    ensures
        opt_text(url) == good_url(parsed_api_url(custom_url(api_base_url@, default_url@))),
{
    match custom_api_url(api_base_url, default_url) {
        Some(url) => usable_url(Some(parse_url(url.as_str()))),
        None => usable_url(None),
    }
}

/// A parsed API address, where there is one.
pub fn usable_url(parsed: Option<Result<String, String>>) -> (url: Option<String>)
    ensures
        opt_text(url) == good_url(url_outcome(parsed)),
{
    match parsed {
        Some(Ok(url)) => Some(url),
        _ => None,
    }
}

/// A message that arrives while a chat is looked for.
#[derive(Debug)]
pub struct ChatMessage {
    pub chat_id: i64,
    pub title: Option<String>,
    pub username: Option<String>,
    pub text: Option<String>,
}

/// A chat that has been found.
#[derive(Debug)]
pub struct ChatInfo {
    pub chat_id: String,
    pub chat_title: String,
    pub username: String,
    pub message_text: String,
}

/// A `ChatInfo` by the characters of its texts.
pub struct ChatInfoView {
    pub chat_id: Seq<char>,
    pub chat_title: Seq<char>,
    pub username: Seq<char>,
    pub message_text: Seq<char>,
}

impl View for ChatInfo {
    type V = ChatInfoView;

    open spec fn view(&self) -> ChatInfoView {
        ChatInfoView {
            chat_id: self.chat_id@,
            chat_title: self.chat_title@,
            username: self.username@,
            message_text: self.message_text@,
        }
    }
}

/// `text`, or `default` where there is none.
pub open spec fn text_or(text: Option<String>, default: Seq<char>) -> Seq<char> {
    match text {
        Some(t) => t@,
        None => default,
    }
}

/// The chat that a message comes from.
pub open spec fn chat_of(message: ChatMessage) -> ChatInfoView {
    ChatInfoView {
        chat_id: signed_decimal(message.chat_id as int),
        chat_title: text_or(message.title, "私聊"@),
        username: text_or(message.username, "未知用户"@),
        message_text: text_or(message.text, ""@),
    }
}

fn text_or_else(text: &Option<String>, default: &str) -> (out: String)
    ensures
        out@ == text_or(*text, default@),
{
    match text {
        Some(t) => t.clone(),
        None => default.to_owned(),
    }
}

impl ChatInfo {
    /// The chat that a message comes from.
    pub fn of_message(message: &ChatMessage) -> (info: Self)
        ensures
            info@ == chat_of(*message),
    {
        ChatInfo {
            chat_id: signed_decimal_text(message.chat_id),
            chat_title: text_or_else(&message.title, "私聊"),
            username: text_or_else(&message.username, "未知用户"),
            message_text: text_or_else(&message.text, ""),
        }
    }

    /// The chat as a JSON object.
    pub fn to_json(&self) -> (object: serde_json::Map<String, serde_json::Value>)
        ensures
            json_entries(object) == no_entries().insert(
                "chat_id"@,
                JsonEntry::Text(self@.chat_id),
            ).insert("chat_title"@, JsonEntry::Text(self@.chat_title)).insert(
                "username"@,
                JsonEntry::Text(self@.username),
            ).insert("message_text"@, JsonEntry::Text(self@.message_text)),
    {
        let mut object = json_object();
        json_insert_text(&mut object, "chat_id", self.chat_id.as_str());
        json_insert_text(&mut object, "chat_title", self.chat_title.as_str());
        json_insert_text(&mut object, "username", self.username.as_str());
        json_insert_text(&mut object, "message_text", self.message_text.as_str());
        object
    }
}

/// How often a chat is looked for before the search is given up.
pub const MAX_TIMEOUT_COUNT: u32 = 30;

/// The search for a chat.
#[derive(Debug)]
pub struct ChatIdDetector {
    timeout_count: u32,
}

/// What to do after a look for a chat.
#[derive(Debug)]
pub enum DetectionStep {
    /// This chat was found; the search is over.
    Detected(ChatInfo),
    /// The search is given up.
    TimedOut,
    /// Wait a second and look again.
    Wait,
}

/// A `DetectionStep` by the characters of its texts.
pub enum StepView {
    Detected(ChatInfoView),
    TimedOut,
    Wait,
}

impl View for DetectionStep {
    type V = StepView;

    open spec fn view(&self) -> StepView {
        match self {
            DetectionStep::Detected(info) => StepView::Detected(info@),
            DetectionStep::TimedOut => StepView::TimedOut,
            DetectionStep::Wait => StepView::Wait,
        }
    }
}

/// The first message among updates.
pub open spec fn first_message(updates: Seq<Option<ChatMessage>>) -> Option<ChatMessage>
    decreases updates.len(),
{
    if updates.len() == 0 {
        None
    } else if updates[0] is Some {
        updates[0]
    } else {
        first_message(updates.drop_first())
    }
}

/// The updates of one look, where it did not fail.
pub open spec fn opt_updates(
    updates: Option<&[Option<ChatMessage>]>,
) -> Option<Seq<Option<ChatMessage>>> {
    match updates {
        Some(list) => Some(list@),
        None => None,
    }
}

/// How often nothing was found after one more look, and what to do then.
pub open spec fn look_step(
    misses: nat,
    updates: Option<Seq<Option<ChatMessage>>>,
) -> (nat, StepView) {
    match updates {
        Some(list) if first_message(list) is Some => (
            misses,
            StepView::Detected(chat_of(first_message(list)->0)),
        ),
        _ => (
            misses + 1,
            if misses + 1 >= MAX_TIMEOUT_COUNT {
                StepView::TimedOut
            } else {
                StepView::Wait
            },
        ),
    }
}

/// How a search ends by a row of looks, where nothing was found `misses` times before; `None` where
/// it goes on.
pub open spec fn search(
    misses: nat,
    looks: Seq<Option<Seq<Option<ChatMessage>>>>,
) -> Option<StepView>
    decreases looks.len(),
{
    if looks.len() == 0 {
        None
    } else {
        let (misses, step) = look_step(misses, looks[0]);
        if step is Wait {
            search(misses, looks.drop_first())
        } else {
            Some(step)
        }
    }
}

impl View for ChatIdDetector {
    type V = nat;

    /// How often nothing was found.
    closed spec fn view(&self) -> nat {
        self.timeout_count as nat
    }
}

impl ChatIdDetector {
    /// Nothing has been looked for yet.
    pub fn new() -> (detector: Self)
        ensures
            detector@ == 0,
    {
        ChatIdDetector { timeout_count: 0 }
    }

    /// Takes in the updates of one look, or `None` where the look failed. An update that is no
    /// message is `None` in the list.
    pub fn look(&mut self, updates: Option<&[Option<ChatMessage>]>) -> (step: DetectionStep)
        requires
            old(self)@ < MAX_TIMEOUT_COUNT,
        ensures
            (final(self)@, step@) == look_step(old(self)@, opt_updates(updates)),
    {
        match updates {
            Some(list) => {
                let mut i: usize = 0;
                assert(list@.skip(0) == list@);
                while i < list.len()
                    invariant
                        i <= list@.len(),
                        *self == *old(self),
                        updates == Some(list),
                        first_message(list@) == first_message(list@.skip(i as int)),
                    decreases list@.len() - i,
                {
                    assert(list@.skip(i as int)[0] == list@[i as int]);
                    match &list[i] {
                        Some(message) => {
                            return DetectionStep::Detected(ChatInfo::of_message(message));
                        },
                        None => {},
                    }
                    assert(list@.skip(i as int).drop_first() == list@.skip(i + 1));
                    i += 1;
                }
                assert(list@.skip(i as int).len() == 0);
            },
            None => {},
        }
        self.timeout_count = self.timeout_count + 1;
        if self.timeout_count >= MAX_TIMEOUT_COUNT {
            DetectionStep::TimedOut
        } else {
            DetectionStep::Wait
        }
    }
}

/// Adds the id of a request to the JSON object of an event, so that the event reaches the popup of
/// that request.
pub fn add_request_id(
    event: &mut serde_json::Map<String, serde_json::Value>,
    request_id: &str,
)
    ensures
        json_entries(*final(event)) == json_entries(*old(event)).insert(
            "request_id"@,
            JsonEntry::Text(request_id@),
        ),
{
    json_insert_text(event, "request_id", request_id);
}

/// An event as a JSON object that also holds the id of a request.
pub fn event_with_request_id(
    event: &TelegramEvent,
    request_id: &str,
) -> (object: serde_json::Map<String, serde_json::Value>)
    ensures
        json_entries(object) == event_entries(event@).insert(
            "request_id"@,
            JsonEntry::Text(request_id@),
        ),
{
    let mut object = event.to_json();
    add_request_id(&mut object, request_id);
    object
}

/// The id of a request: the one that it came with, or a random UUID.
pub fn request_id_or_random(request_id: Option<String>) -> (id: String)
    ensures
        match request_id {
            Some(given) => id == given,
            None => is_random_uuid(id@),
        },
{
    match request_id {
        Some(id) => id,
        None => random_uuid_text(),
    }
}

/// What the user interface is told where a request could not be put to the chat.
pub fn sync_failed(error: &TelegramError) -> (report: TelegramError)
    ensures
        report@ == ErrorView::SendOptionsFailed(error_words(error@)),
{
    TelegramError::SendOptionsFailed(error.message())
}

/// What the user interface is told where there is no dispatcher.
pub fn dispatcher_failed(error: &TelegramError) -> (report: TelegramError)
    ensures
        report@ == ErrorView::DispatcherInitFailed(error_words(error@)),
{
    TelegramError::DispatcherInitFailed(error.message())
}

/// What to do about an event of a session.
#[derive(Debug)]
pub struct ForwardStep {
    /// A message that confirms what the user did.
    pub feedback: Option<String>,
    /// What the popup is told.
    pub emit: Option<TelegramEvent>,
    /// Whether the session is to be dropped.
    pub unregister: bool,
    /// Whether the session's events are over.
    pub finished: bool,
}

/// A `ForwardStep` by the characters of its texts.
pub struct ForwardView {
    pub feedback: Option<Seq<char>>,
    pub emit: Option<EventView>,
    pub unregister: bool,
    pub finished: bool,
}

impl View for ForwardStep {
    type V = ForwardView;

    open spec fn view(&self) -> ForwardView {
        ForwardView {
            feedback: opt_text(self.feedback),
            emit: match self.emit {
                Some(e) => Some(e@),
                None => None,
            },
            unregister: self.unregister,
            finished: self.finished,
        }
    }
}

/// What is selected in a session, by characters; nothing where the session is gone.
pub open spec fn state_selected(state: Option<(Vec<String>, String)>) -> Seq<Seq<char>> {
    match state {
        Some((selected, _)) => texts(selected@),
        None => Seq::empty(),
    }
}

/// The text entered last in a session, by characters; none where the session is gone.
pub open spec fn state_input(state: Option<(Vec<String>, String)>) -> Seq<char> {
    match state {
        Some((_, input)) => input@,
        None => Seq::empty(),
    }
}

/// What to do about an event of a session whose dispatcher is there.
pub open spec fn forward(
    event: SessionEventView,
    selected: Seq<Seq<char>>,
    user_input: Seq<char>,
    continue_prompt: Option<Seq<char>>,
) -> ForwardView {
    match event {
        SessionEventView::Action(SessionAction::Send) => ForwardView {
            feedback: Some(feedback(selected, user_input, false, continue_prompt)),
            emit: Some(EventView::SendPressed),
            unregister: true,
            finished: true,
        },
        SessionEventView::Action(SessionAction::Continue) => ForwardView {
            feedback: Some(feedback(Seq::empty(), Seq::empty(), true, continue_prompt)),
            emit: Some(EventView::ContinuePressed),
            unregister: true,
            finished: true,
        },
        SessionEventView::Telegram(event) => ForwardView {
            feedback: None,
            emit: Some(event),
            unregister: false,
            finished: false,
        },
    }
}

/// What to do about an event of a session, where its dispatcher may be gone.
pub open spec fn forwarded(
    event: SessionEventView,
    dispatcher_present: bool,
    selected: Seq<Seq<char>>,
    user_input: Seq<char>,
    continue_prompt: Option<Seq<char>>,
) -> ForwardView {
    if event is Action && !dispatcher_present {
        ForwardView { feedback: None, emit: None, unregister: false, finished: true }
    } else {
        forward(event, selected, user_input, continue_prompt)
    }
}

/// Decides what to do about an event of a session. An action ends the session; where its
/// dispatcher is gone, nobody is told.
pub fn forward_session_event(
    event: SessionEvent,
    dispatcher_present: bool,
    state: Option<(Vec<String>, String)>,
    continue_prompt: Option<&str>,
) -> (step: ForwardStep)
    ensures
        step@ == forwarded(
            event@,
            dispatcher_present,
            state_selected(state),
            state_input(state),
            opt_str(continue_prompt),
        ),
        step@ == if event@ is Action && !dispatcher_present {
            ForwardView { feedback: None, emit: None, unregister: false, finished: true }
        } else {
            forward(event@, state_selected(state), state_input(state), opt_str(continue_prompt))
        },
{
    match event {
        SessionEvent::Telegram(event) => ForwardStep {
            feedback: None,
            emit: Some(event),
            unregister: false,
            finished: false,
        },
        SessionEvent::Action(action) => {
            if !dispatcher_present {
                return ForwardStep { feedback: None, emit: None, unregister: false, finished: true };
            }
            match action {
                SessionAction::Send => {
                    let (selected, user_input) = state_or_empty(state);
                    ForwardStep {
                        feedback: Some(
                            build_feedback_message(
                                selected.as_slice(),
                                user_input.as_str(),
                                false,
                                continue_prompt,
                            ),
                        ),
                        emit: Some(TelegramEvent::SendPressed),
                        unregister: true,
                        finished: true,
                    }
                },
                SessionAction::Continue => {
                    let none: Vec<String> = Vec::new();
                    ForwardStep {
                        feedback: Some(
                            build_feedback_message(none.as_slice(), "", true, continue_prompt),
                        ),
                        emit: Some(TelegramEvent::ContinuePressed),
                        unregister: true,
                        finished: true,
                    }
                },
            }
        },
    }
}

/// The state of a session, empty where the session is gone.
pub fn state_or_empty(state: Option<(Vec<String>, String)>) -> (out: (Vec<String>, String))
    ensures
        texts(out.0@) == state_selected(state),
        out.1@ == state_input(state),
{
    match state {
        Some(pair) => pair,
        None => {
            let none: Vec<String> = Vec::new();
            assert(texts(none@) == Seq::<Seq<char>>::empty());
            (none, String::new())
        },
    }
}

} // verus!
