//! The bot of one chat: what it sends, and what it makes of presses and texts that come back.
use crate::error::{ErrorView, TelegramError};
use crate::keyboard::{build_keyboard, keyboard_view, ButtonView, InlineKeyboardMarkup};
use crate::outside::{
    json_entries, json_insert_flag, json_insert_text, json_object, no_entries, parse_url,
    parsed_url, JsonEntry,
};
use crate::text::{
    contains_text, i64_value, is_blank, is_blank_text, list_contains, occurs_in, opt_str, opt_text,
    parse_i64, parse_usize, same_text, starts_with, strip_prefix, text_result, texts, usize_value,
    without_prefix,
};
use crate::update::{
    CallbackQuery, EditRequest, EditView, Message, SendRequest, SendView, TextFormat,
};
use vstd::prelude::*;

verus! {

/// Something that a user did in Telegram.
#[derive(Debug, Clone)]
pub enum TelegramEvent {
    /// An option was selected or deselected.
    OptionToggled { option: String, selected: bool },
    /// A text was entered.
    TextUpdated { text: String },
    /// The user chose to continue.
    ContinuePressed,
    /// The user chose to send.
    SendPressed,
}

/// A `TelegramEvent` by the characters of its texts.
pub enum EventView {
    OptionToggled { option: Seq<char>, selected: bool },
    TextUpdated { text: Seq<char> },
    ContinuePressed,
    SendPressed,
}

impl View for TelegramEvent {
    type V = EventView;

    open spec fn view(&self) -> EventView {
        match self {
            TelegramEvent::OptionToggled { option, selected } => EventView::OptionToggled {
                option: option@,
                selected: *selected,
            },
            TelegramEvent::TextUpdated { text } => EventView::TextUpdated { text: text@ },
            TelegramEvent::ContinuePressed => EventView::ContinuePressed,
            TelegramEvent::SendPressed => EventView::SendPressed,
        }
    }
}

/// What the JSON object of an event holds: its type, and its fields under their names.
pub open spec fn event_entries(event: EventView) -> Map<Seq<char>, JsonEntry> {
    match event {
        EventView::OptionToggled { option, selected } => no_entries().insert(
            "type"@,
            JsonEntry::Text("option_toggled"@),
        ).insert("option"@, JsonEntry::Text(option)).insert("selected"@, JsonEntry::Flag(selected)),
        EventView::TextUpdated { text } => no_entries().insert(
            "type"@,
            JsonEntry::Text("text_updated"@),
        ).insert("text"@, JsonEntry::Text(text)),
        EventView::ContinuePressed => no_entries().insert(
            "type"@,
            JsonEntry::Text("continue_pressed"@),
        ),
        EventView::SendPressed => no_entries().insert("type"@, JsonEntry::Text("send_pressed"@)),
    }
}

impl TelegramEvent {
    /// The event as a JSON object.
    pub fn to_json(&self) -> (object: serde_json::Map<String, serde_json::Value>)
        ensures
            json_entries(object) == event_entries(self@),
    {
        let mut object = json_object();
        match self {
            TelegramEvent::OptionToggled { option, selected } => {
                json_insert_text(&mut object, "type", "option_toggled");
                json_insert_text(&mut object, "option", option.as_str());
                json_insert_flag(&mut object, "selected", *selected);
            },
            TelegramEvent::TextUpdated { text } => {
                json_insert_text(&mut object, "type", "text_updated");
                json_insert_text(&mut object, "text", text.as_str());
            },
            TelegramEvent::ContinuePressed => {
                json_insert_text(&mut object, "type", "continue_pressed");
            },
            TelegramEvent::SendPressed => {
                json_insert_text(&mut object, "type", "send_pressed");
            },
        }
        object
    }
}

/// The characters of an optional event.
pub open spec fn opt_event(event: Option<TelegramEvent>) -> Option<EventView> {
    match event {
        Some(e) => Some(e@),
        None => None,
    }
}

/// A press on an action button.
#[derive(Debug, Clone, Copy, PartialEq, Eq, Structural)]
pub enum ActionEvent {
    Send,
    Continue,
}

/// What a press asks for.
#[derive(Debug)]
pub enum CallbackAction {
    /// Toggle this option.
    OptionToggled(String),
    /// Perform this action.
    ActionEvent(ActionEvent),
}

/// A `CallbackAction` by the characters of its texts.
pub enum CallbackActionView {
    OptionToggled(Seq<char>),
    ActionEvent(ActionEvent),
}

impl View for CallbackAction {
    type V = CallbackActionView;

    open spec fn view(&self) -> CallbackActionView {
        match self {
            CallbackAction::OptionToggled(o) => CallbackActionView::OptionToggled(o@),
            CallbackAction::ActionEvent(a) => CallbackActionView::ActionEvent(*a),
        }
    }
}

/// The characters of an optional action.
pub open spec fn opt_action(action: Option<CallbackAction>) -> Option<CallbackActionView> {
    match action {
        Some(a) => Some(a@),
        None => None,
    }
}

/// What to do about a press: whether to answer it, and what it asks for.
#[derive(Debug)]
pub struct CallbackReply {
    pub answer: bool,
    pub action: Option<CallbackAction>,
}

/// The bot token, the API address and the chat that messages go to.
#[derive(Debug)]
pub struct TelegramCore {
    pub bot_token: String,
    /// An API address in place of Telegram's own, in its normal form.
    pub api_url: Option<String>,
    pub chat_id: i64,
}

/// A `TelegramCore` by the characters of its texts.
pub struct CoreView {
    pub bot_token: Seq<char>,
    pub api_url: Option<Seq<char>>,
    pub chat_id: i64,
}

impl View for TelegramCore {
    type V = CoreView;

    open spec fn view(&self) -> CoreView {
        CoreView {
            bot_token: self.bot_token@,
            api_url: opt_text(self.api_url),
            chat_id: self.chat_id,
        }
    }
}

/// The characters of a new bot or of the error.
pub open spec fn core_result(
    result: Result<TelegramCore, TelegramError>,
) -> Result<CoreView, ErrorView> {
    match result {
        Ok(c) => Ok(c@),
        Err(e) => Err(e@),
    }
}

/// The outcome of parsing an API address, by characters.
pub open spec fn url_outcome(
    api_url: Option<Result<String, String>>,
) -> Option<Result<Seq<char>, Seq<char>>> {
    match api_url {
        Some(r) => Some(text_result(r)),
        None => None,
    }
}

/// What parsing an API address yields, where one is given.
pub open spec fn parsed_api_url(
    api_url: Option<Seq<char>>,
) -> Option<Result<Seq<char>, Seq<char>>> {
    match api_url {
        Some(u) => Some(parsed_url(u)),
        None => None,
    }
}

/// The API address in its normal form, where one is given and it parsed.
pub open spec fn good_url(parsed: Option<Result<Seq<char>, Seq<char>>>) -> Option<Seq<char>> {
    match parsed {
        Some(Ok(u)) => Some(u),
        _ => None,
    }
}

/// The bot for a token, a chat and a parsed API address. An address that does not parse is
/// reported first, then a user name in place of a chat number, then a chat that is no number.
pub open spec fn new_core(
    bot_token: Seq<char>,
    chat_id: Seq<char>,
    parsed: Option<Result<Seq<char>, Seq<char>>>,
) -> Result<CoreView, ErrorView> {
    if parsed matches Some(Err(e)) {
        Err(ErrorView::InvalidApiUrl(parsed->0->Err_0))
    } else if "@"@.is_prefix_of(chat_id) {
        Err(ErrorView::UsernameChatId)
    } else {
        match i64_value(chat_id) {
            Some(id) => Ok(CoreView { bot_token, api_url: good_url(parsed), chat_id: id }),
            None => Err(ErrorView::InvalidChatId),
        }
    }
}

/// A plain or MarkdownV2 message to a chat.
pub open spec fn text_request(chat_id: i64, message: Seq<char>, use_markdown: bool) -> SendView {
    SendView {
        chat_id,
        text: message,
        format: if use_markdown {
            TextFormat::MarkdownV2
        } else {
            TextFormat::Plain
        },
        keyboard: None,
    }
}

/// `message` under a line that names the client, where the client has a name.
pub open spec fn with_client(client_name: Option<Seq<char>>, message: Seq<char>) -> Seq<char> {
    match client_name {
        Some(name) if name.len() > 0 => "["@ + name + "]\n\n"@ + message,
        _ => message,
    }
}

/// The format of a message with options.
pub open spec fn options_format(is_markdown: bool) -> TextFormat {
    if is_markdown {
        TextFormat::ConvertedMarkdown
    } else {
        TextFormat::Plain
    }
}

/// The keyboard of a chat that serves one request at a time.
pub open spec fn plain_keyboard(
    options: Seq<Seq<char>>,
    selected: Seq<Seq<char>>,
    continue_reply_enabled: bool,
) -> Seq<Seq<ButtonView>> {
    keyboard_view(
        options,
        selected,
        continue_reply_enabled,
        "t:"@,
        "action:continue"@,
        "action:send"@,
    )
}

/// Whether the words of a send error tell that the message did arrive: the reply of Telegram was
/// not understood, but it says `ok`.
pub open spec fn arrived_after_all(words: Seq<char>) -> bool {
    occurs_in("parsing JSON"@, words) && occurs_in("\\\"ok\\\":true"@, words)
}

/// The words of a send error, where there was one.
pub open spec fn outcome_words(outcome: Result<(), String>) -> Option<Seq<char>> {
    match outcome {
        Ok(_) => None,
        Err(e) => Some(e@),
    }
}

/// The error of a send, where there was one.
pub open spec fn outcome_error(result: Result<(), TelegramError>) -> Option<ErrorView> {
    match result {
        Ok(_) => None,
        Err(e) => Some(e@),
    }
}

/// What became of a message, given the words of the send error where there was one.
pub open spec fn message_error(words: Option<Seq<char>>) -> Option<ErrorView> {
    match words {
        Some(e) => Some(ErrorView::SendFailed(e)),
        None => None,
    }
}

/// What became of a message with options, given the words of the send error where there was one.
pub open spec fn options_error(words: Option<Seq<char>>) -> Option<ErrorView> {
    match words {
        Some(e) if !arrived_after_all(e) => Some(ErrorView::SendOptionsFailed(e)),
        _ => None,
    }
}

/// A message with options, with a keyboard under it on which nothing is selected.
pub open spec fn options_request(
    chat_id: i64,
    client_name: Option<Seq<char>>,
    message: Seq<char>,
    options: Seq<Seq<char>>,
    is_markdown: bool,
    continue_reply_enabled: bool,
) -> SendView {
    SendView {
        chat_id,
        text: with_client(client_name, message),
        format: options_format(is_markdown),
        keyboard: Some(plain_keyboard(options, Seq::empty(), continue_reply_enabled)),
    }
}

/// What a press in the chat `chat_id` asks for, given the options that are on offer.
pub open spec fn asked_for(
    query: CallbackQuery,
    chat_id: i64,
    options: Seq<Seq<char>>,
) -> Option<CallbackActionView> {
    match opt_text(query.data) {
        Some(data) if in_chat(query, chat_id) => callback_action(data, options),
        _ => None,
    }
}

/// The event that a message stands for in the chat `chat_id`, where only messages after the one with
/// the number `after` count.
pub open spec fn event_of(message: Message, chat_id: i64, after: Option<i32>) -> Option<EventView> {
    match opt_text(message.text) {
        Some(text) if message.chat_id == chat_id && (after matches Some(id) ==> message.message_id
            > id) => Some(text_event(text)),
        _ => None,
    }
}

/// What the data of a button asks for, given the options that are on offer.
pub open spec fn callback_action(
    data: Seq<char>,
    options: Seq<Seq<char>>,
) -> Option<CallbackActionView> {
    if data == "action:send"@ {
        Some(CallbackActionView::ActionEvent(ActionEvent::Send))
    } else if data == "action:continue"@ {
        Some(CallbackActionView::ActionEvent(ActionEvent::Continue))
    } else {
        match toggle_target(data, options) {
            Some(option) => Some(CallbackActionView::OptionToggled(option)),
            None => None,
        }
    }
}

/// The option that the data of a button names: by index after `t:`, or by its text after
/// `toggle:`.
pub open spec fn toggle_target(data: Seq<char>, options: Seq<Seq<char>>) -> Option<Seq<char>> {
    match without_prefix(data, "t:"@) {
        Some(index) => indexed_option(index, options),
        None => match without_prefix(data, "toggle:"@) {
            Some(option) if options.contains(option) => Some(option),
            _ => None,
        },
    }
}

/// The option at the index that a text writes.
pub open spec fn indexed_option(index: Seq<char>, options: Seq<Seq<char>>) -> Option<Seq<char>> {
    match usize_value(index) {
        Some(i) if i < options.len() => Some(options[i as int]),
        _ => None,
    }
}

/// Whether a press belongs to the chat `target`: it does unless Telegram says otherwise.
pub open spec fn in_chat(query: CallbackQuery, target: i64) -> bool {
    query.message matches Some(m) ==> m.chat_id == target
}

/// The action that a text commands, where it is a command.
pub open spec fn command_of(text: Seq<char>) -> Option<ActionEvent> {
    if text == "⏩继续"@ || text == "/heng_continue"@ || text == "/heng-continue"@ {
        Some(ActionEvent::Continue)
    } else if text == "↗️发送"@ || text == "/heng_send"@ || text == "/heng-send"@ {
        Some(ActionEvent::Send)
    } else {
        None
    }
}

/// The event that a text stands for.
pub open spec fn text_event(text: Seq<char>) -> EventView {
    match command_of(text) {
        Some(ActionEvent::Continue) => EventView::ContinuePressed,
        Some(ActionEvent::Send) => EventView::SendPressed,
        None => EventView::TextUpdated { text },
    }
}

/// One line for each option.
pub open spec fn option_lines(options: Seq<Seq<char>>) -> Seq<char>
    decreases options.len(),
{
    if options.len() == 0 {
        Seq::empty()
    } else {
        option_lines(options.drop_last()) + "• "@ + options.last() + "\n"@
    }
}

/// The message that confirms what a user sent.
pub open spec fn feedback(
    selected: Seq<Seq<char>>,
    user_input: Seq<char>,
    is_continue: bool,
    continue_prompt: Option<Seq<char>>,
) -> Seq<char> {
    if is_continue {
        "✅ 发送成功！\n\n📝 选中的选项：\n• ⏩ "@ + match continue_prompt {
            Some(prompt) => prompt,
            None => "请按照最佳实践继续"@,
        }
    } else {
        "✅ 发送成功！\n\n📝 选中的选项：\n"@ + if selected.len() == 0 {
            "• 无"@
        } else {
            option_lines(selected)
        } + if user_input.len() == 0 {
            Seq::empty()
        } else {
            "\n📝 补充说明：\n"@ + user_input
        }
    }
}

/// The bot and the chat of a connection test. What is blank is reported first, then an address
/// that does not parse, then a chat that is no number.
pub open spec fn test_core(
    bot_token: Seq<char>,
    chat_id: Seq<char>,
    parsed: Option<Result<Seq<char>, Seq<char>>>,
) -> Result<CoreView, ErrorView> {
    if is_blank_text(bot_token) {
        Err(ErrorView::EmptyBotToken)
    } else if is_blank_text(chat_id) {
        Err(ErrorView::EmptyChatId)
    } else if parsed matches Some(Err(e)) {
        Err(ErrorView::InvalidApiUrl(parsed->0->Err_0))
    } else {
        match i64_value(chat_id) {
            Some(id) => Ok(CoreView { bot_token, api_url: good_url(parsed), chat_id: id }),
            None => Err(ErrorView::InvalidTestChatId),
        }
    }
}

impl TelegramCore {
    /// The bot for a token and a chat number.
    pub fn new(bot_token: String, chat_id: String) -> (core: Result<Self, TelegramError>)
        ensures
            core_result(core) == new_core(bot_token@, chat_id@, None),
    {
        Self::with_parsed_url(bot_token, chat_id, None)
    }

    /// The bot for a token and a chat number, with an API address of its own where one is given.
    pub fn new_with_api_url(
        bot_token: String,
        chat_id: String,
        api_url: Option<String>,
    ) -> (core: Result<Self, TelegramError>)
        ensures
            core_result(core) == new_core(bot_token@, chat_id@, parsed_api_url(opt_text(api_url))),
    {
        match api_url {
            Some(url) => Self::with_parsed_url(bot_token, chat_id, Some(parse_url(url.as_str()))),
            None => Self::with_parsed_url(bot_token, chat_id, None),
        }
    }

    /// The bot for a token, a chat number and the outcome of parsing the API address.
    pub fn with_parsed_url(
        bot_token: String,
        chat_id: String,
        api_url: Option<Result<String, String>>,
    ) -> (core: Result<Self, TelegramError>)
        ensures
            core_result(core) == new_core(bot_token@, chat_id@, url_outcome(api_url)),
    {
        let api_url: Option<String> = match api_url {
            Some(Ok(url)) => Some(url),
            Some(Err(e)) => {
                return Err(TelegramError::InvalidApiUrl(e));
            },
            None => None,
        };
        if starts_with(chat_id.as_str(), "@") {
            return Err(TelegramError::UsernameChatId);
        }
        match parse_i64(chat_id.as_str()) {
            Some(id) => Ok(TelegramCore { bot_token, api_url, chat_id: id }),
            None => Err(TelegramError::InvalidChatId),
        }
    }

    /// A plain message to the chat.
    pub fn send_message(&self, message: &str) -> (request: SendRequest)
        ensures
            request@ == text_request(self.chat_id, message@, false),
    {
        self.send_message_with_markdown(message, false)
    }

    /// A message to the chat, read as MarkdownV2 where `use_markdown` says so.
    pub fn send_message_with_markdown(
        &self,
        message: &str,
        use_markdown: bool,
    ) -> (request: SendRequest)
        ensures
            request@ == text_request(self.chat_id, message@, use_markdown),
    {
        let format = if use_markdown {
            TextFormat::MarkdownV2
        } else {
            TextFormat::Plain
        };
        SendRequest { chat_id: self.chat_id, text: message.to_owned(), format, keyboard: None }
    }

    /// A message to the chat with a keyboard of options and actions under it.
    pub fn send_options_message(
        &self,
        message: &str,
        predefined_options: &[String],
        is_markdown: bool,
        client_name: Option<&str>,
        continue_reply_enabled: bool,
    ) -> (request: Result<SendRequest, TelegramError>)
        ensures
            request is Ok,
            request->Ok_0@ == options_request(
                self.chat_id,
                opt_str(client_name),
                message@,
                texts(predefined_options@),
                is_markdown,
                continue_reply_enabled,
            ),
            request->Ok_0@ == (SendView {
                chat_id: self.chat_id,
                text: with_client(opt_str(client_name), message@),
                format: options_format(is_markdown),
                keyboard: Some(
                    plain_keyboard(texts(predefined_options@), Seq::empty(), continue_reply_enabled),
                ),
            }),
    {
        let text = name_client(client_name, message);
        let none: Vec<String> = Vec::new();
        let keyboard = match Self::create_inline_keyboard(
            predefined_options,
            none.as_slice(),
            continue_reply_enabled,
        ) {
            Ok(keyboard) => keyboard,
            Err(e) => {
                return Err(e);
            },
        };
        assert(texts(none@) == Seq::<Seq<char>>::empty());
        let format = if is_markdown {
            TextFormat::ConvertedMarkdown
        } else {
            TextFormat::Plain
        };
        Ok(SendRequest { chat_id: self.chat_id, text, format, keyboard: Some(keyboard) })
    }

    /// The keyboard that shows which options are selected.
    pub fn create_inline_keyboard(
        predefined_options: &[String],
        selected_options: &[String],
        continue_reply_enabled: bool,
    ) -> (keyboard: Result<InlineKeyboardMarkup, TelegramError>)
        ensures
            keyboard is Ok,
            keyboard->Ok_0@ == plain_keyboard(
                texts(predefined_options@),
                texts(selected_options@),
                continue_reply_enabled,
            ),
    {
        Ok(
            build_keyboard(
                predefined_options,
                selected_options,
                continue_reply_enabled,
                "t:",
                "action:continue",
                "action:send",
            ),
        )
    }

    /// The keyboard to show under `message_id` now.
    pub fn update_inline_keyboard(
        &self,
        message_id: i32,
        predefined_options: &[String],
        selected_options: &[String],
        continue_reply_enabled: bool,
    ) -> (edit: Result<EditRequest, TelegramError>)
        ensures
            edit is Ok,
            edit->Ok_0@ == (EditView {
                chat_id: self.chat_id,
                message_id,
                keyboard: plain_keyboard(
                    texts(predefined_options@),
                    texts(selected_options@),
                    continue_reply_enabled,
                ),
            }),
    {
        match Self::create_inline_keyboard(
            predefined_options,
            selected_options,
            continue_reply_enabled,
        ) {
            Ok(keyboard) => Ok(EditRequest { chat_id: self.chat_id, message_id, keyboard }),
            Err(e) => Err(e),
        }
    }

    /// What became of a message, given the words of the send error where there was one.
    pub fn message_sent(outcome: Result<(), String>) -> (result: Result<(), TelegramError>)
        ensures
            match outcome {
                Ok(_) => result is Ok,
                Err(e) => result is Err && result->Err_0@ == ErrorView::SendFailed(e@),
            },
            outcome_error(result) == message_error(outcome_words(outcome)),
    {
        match outcome {
            Ok(_) => Ok(()),
            Err(e) => Err(TelegramError::SendFailed(e)),
        }
    }

    /// What became of a message with options, given the words of the send error where there was
    /// one. An error whose words tell that the message arrived is none.
    pub fn options_message_sent(outcome: Result<(), String>) -> (result: Result<(), TelegramError>)
        ensures
            match outcome {
                Ok(_) => result is Ok,
                Err(e) => if arrived_after_all(e@) {
                    result is Ok
                } else {
                    result is Err && result->Err_0@ == ErrorView::SendOptionsFailed(e@)
                },
            },
            outcome_error(result) == options_error(outcome_words(outcome)),
    {
        match outcome {
            Ok(_) => Ok(()),
            Err(e) => if has_arrived(e.as_str()) {
                Ok(())
            } else {
                Err(TelegramError::SendOptionsFailed(e))
            },
        }
    }
}

/// `message` under a line that names the client, where the client has a name.
pub fn name_client(client_name: Option<&str>, message: &str) -> (text: String)
    ensures
        text@ == with_client(opt_str(client_name), message@),
{
    match client_name {
        Some(name) => if name.is_empty() {
            message.to_owned()
        } else {
            "[".to_owned().concat(name).concat("]\n\n").concat(message)
        },
        None => message.to_owned(),
    }
}

/// Whether the words of a send error tell that the message did arrive.
pub fn has_arrived(words: &str) -> (arrived: bool)
    ensures
        arrived == arrived_after_all(words@),
{
    contains_text(words, "parsing JSON") && contains_text(words, "\\\"ok\\\":true")
}

/// The option at the index that `index` writes.
pub fn option_at(index: &str, predefined_options: &[String]) -> (option: Option<String>)
    ensures
        opt_text(option) == indexed_option(index@, texts(predefined_options@)),
{
    match parse_usize(index) {
        Some(i) => if i < predefined_options.len() {
            Some(predefined_options[i].clone())
        } else {
            None
        },
        None => None,
    }
}

/// The option that the data of a button names.
pub fn option_named(data: &str, predefined_options: &[String]) -> (option: Option<String>)
    ensures
        opt_text(option) == toggle_target(data@, texts(predefined_options@)),
{
    match strip_prefix(data, "t:") {
        Some(index) => option_at(index, predefined_options),
        None => match strip_prefix(data, "toggle:") {
            Some(option) => if list_contains(predefined_options, option) {
                Some(option.to_owned())
            } else {
                None
            },
            None => None,
        },
    }
}

/// Decides what a press asks for. A press in another chat is left alone; any other is answered.
pub fn handle_callback_query(
    callback_query: &CallbackQuery,
    target_chat_id: i64,
    predefined_options: &[String],
) -> (reply: CallbackReply)
    ensures
        reply.answer == in_chat(*callback_query, target_chat_id),
        opt_action(reply.action) == asked_for(
            *callback_query,
            target_chat_id,
            texts(predefined_options@),
        ),
        opt_action(reply.action) == match opt_text(callback_query.data) {
            Some(data) if in_chat(*callback_query, target_chat_id) => callback_action(
                data,
                texts(predefined_options@),
            ),
            _ => None,
        },
{
    match callback_query.message {
        Some(message) => {
            if message.chat_id != target_chat_id {
                return CallbackReply { answer: false, action: None };
            }
        },
        None => {},
    }
    let action = match &callback_query.data {
        Some(data) => if same_text(data.as_str(), "action:send") {
            Some(CallbackAction::ActionEvent(ActionEvent::Send))
        } else if same_text(data.as_str(), "action:continue") {
            Some(CallbackAction::ActionEvent(ActionEvent::Continue))
        } else {
            match option_named(data.as_str(), predefined_options) {
                Some(option) => Some(CallbackAction::OptionToggled(option)),
                None => None,
            }
        },
        None => None,
    };
    CallbackReply { answer: true, action }
}

/// The action that a text commands, where it is a command.
pub fn parse_command(text: &str) -> (command: Option<ActionEvent>)
    ensures
        command == command_of(text@),
{
    if same_text(text, "⏩继续") || same_text(text, "/heng_continue") || same_text(
        text,
        "/heng-continue",
    ) {
        Some(ActionEvent::Continue)
    } else if same_text(text, "↗️发送") || same_text(text, "/heng_send") || same_text(
        text,
        "/heng-send",
    ) {
        Some(ActionEvent::Send)
    } else {
        None
    }
}

/// Decides what a message stands for. A message in another chat, one that is not newer than
/// `operation_message_id` and one without text stand for nothing.
pub fn handle_text_message(
    message: &Message,
    target_chat_id: i64,
    operation_message_id: Option<i32>,
) -> (event: Option<TelegramEvent>)
    ensures
        opt_event(event) == event_of(*message, target_chat_id, operation_message_id),
        opt_event(event) == match opt_text(message.text) {
            Some(text) if message.chat_id == target_chat_id && (operation_message_id matches Some(
                id,
            ) ==> message.message_id > id) => Some(text_event(text)),
            _ => None,
        },
{
    if message.chat_id != target_chat_id {
        return None;
    }
    match operation_message_id {
        Some(id) => {
            if message.message_id <= id {
                return None;
            }
        },
        None => {},
    }
    match &message.text {
        Some(text) => Some(
            match parse_command(text.as_str()) {
                Some(ActionEvent::Continue) => TelegramEvent::ContinuePressed,
                Some(ActionEvent::Send) => TelegramEvent::SendPressed,
                None => TelegramEvent::TextUpdated { text: text.clone() },
            },
        ),
        None => None,
    }
}

/// Builds the message that confirms what a user sent. `continue_prompt` is the configured prompt,
/// where the configuration could be read.
pub fn build_feedback_message(
    selected_options: &[String],
    user_input: &str,
    is_continue: bool,
    continue_prompt: Option<&str>,
) -> (message: String)
    ensures
        message@ == feedback(
            texts(selected_options@),
            user_input@,
            is_continue,
            opt_str(continue_prompt),
        ),
{
    if is_continue {
        let head = "✅ 发送成功！\n\n📝 选中的选项：\n• ⏩ ".to_owned();
        match continue_prompt {
            Some(prompt) => head.concat(prompt),
            None => head.concat("请按照最佳实践继续"),
        }
    } else {
        let ghost selected = texts(selected_options@);
        let mut message = "✅ 发送成功！\n\n📝 选中的选项：\n".to_owned();
        let ghost head = message@;
        if selected_options.len() == 0 {
            message.append("• 无");
        } else {
            let mut i: usize = 0;
            assert(head + option_lines(selected.take(0)) == head);
            while i < selected_options.len()
                invariant
                    i <= selected_options@.len(),
                    selected == texts(selected_options@),
                    message@ == head + option_lines(selected.take(i as int)),
                decreases selected_options@.len() - i,
            {
                message.append("• ");
                message.append(selected_options[i].as_str());
                message.append("\n");
                proof {
                    let next = selected.take(i + 1);
                    assert(next.drop_last() == selected.take(i as int));
                    assert(next.last() == selected_options@[i as int]@);
                    assert(message@ == head + option_lines(next));
                }
                i += 1;
            }
            assert(selected.take(i as int) == selected);
        }
        let ghost listed = message@;
        if !user_input.is_empty() {
            message.append("\n📝 补充说明：\n");
            message.append(user_input);
            assert(message@ == listed + ("\n📝 补充说明：\n"@ + user_input@));
        } else {
            assert(message@ == listed + Seq::<char>::empty());
        }
        message
    }
}

/// The message of a connection test.
pub open spec fn test_message() -> Seq<char> {
    "🤖 恒境应用测试消息\n\n这是一条来自恒境应用的测试消息，表示Telegram Bot配置成功！"@
}

/// The characters of a connection test or of the error.
pub open spec fn test_result(
    result: Result<(TelegramCore, SendRequest), TelegramError>,
) -> Result<(CoreView, SendView), ErrorView> {
    match result {
        Ok((c, r)) => Ok((c@, r@)),
        Err(e) => Err(e@),
    }
}

/// The bot of a connection test with the message that it sends.
pub open spec fn connection_test(
    core: Result<CoreView, ErrorView>,
) -> Result<(CoreView, SendView), ErrorView> {
    match core {
        Ok(c) => Ok((c, text_request(c.chat_id, test_message(), false))),
        Err(e) => Err(e),
    }
}

/// Prepares a connection test: the bot and the message that it sends.
pub fn test_telegram_connection(bot_token: &str, chat_id: &str) -> (test: Result<
    (TelegramCore, SendRequest),
    TelegramError,
>)
    ensures
        test_result(test) == connection_test(test_core(bot_token@, chat_id@, None)),
{
    check_connection(bot_token, chat_id, None)
}

/// Prepares a connection test with an API address of its own where one is given.
pub fn test_telegram_connection_with_api_url(
    bot_token: &str,
    chat_id: &str,
    api_url: Option<&str>,
) -> (test: Result<(TelegramCore, SendRequest), TelegramError>)
    ensures
        test_result(test) == connection_test(
            test_core(bot_token@, chat_id@, parsed_api_url(opt_str(api_url))),
        ),
{
    match api_url {
        Some(url) => check_connection(bot_token, chat_id, Some(parse_url(url))),
        None => check_connection(bot_token, chat_id, None),
    }
}

/// Prepares a connection test, given the outcome of parsing the API address.
pub fn check_connection(
    bot_token: &str,
    chat_id: &str,
    api_url: Option<Result<String, String>>,
) -> (test: Result<(TelegramCore, SendRequest), TelegramError>)
    ensures
        test_result(test) == connection_test(
            test_core(bot_token@, chat_id@, url_outcome(api_url)),
        ),
{
    if is_blank(bot_token) {
        return Err(TelegramError::EmptyBotToken);
    }
    if is_blank(chat_id) {
        return Err(TelegramError::EmptyChatId);
    }
    let api_url: Option<String> = match api_url {
        Some(Ok(url)) => Some(url),
        Some(Err(e)) => {
            return Err(TelegramError::InvalidApiUrl(e));
        },
        None => None,
    };
    match parse_i64(chat_id) {
        Some(id) => {
            let core = TelegramCore { bot_token: bot_token.to_owned(), api_url, chat_id: id };
            let request = core.send_message(
                "🤖 恒境应用测试消息\n\n这是一条来自恒境应用的测试消息，表示Telegram Bot配置成功！",
            );
            Ok((core, request))
        },
        None => Err(TelegramError::InvalidTestChatId),
    }
}

/// What a connection test tells, by characters.
pub open spec fn report_result(
    report: Result<String, TelegramError>,
) -> Result<Seq<char>, ErrorView> {
    match report {
        Ok(words) => Ok(words@),
        Err(e) => Err(e@),
    }
}

/// What a connection test tells, given the words of the send error where there was one.
pub open spec fn test_report(words: Option<Seq<char>>) -> Result<Seq<char>, ErrorView> {
    match words {
        None => Ok("测试消息发送成功！Telegram Bot配置正确。"@),
        Some(e) => Err(ErrorView::SendTestFailed(e)),
    }
}

/// What a connection test tells, given the words of the send error where there was one.
pub fn connection_tested(outcome: Result<(), String>) -> (report: Result<String, TelegramError>)
    ensures
        match outcome {
            Ok(_) => report is Ok && report->Ok_0@
                == "测试消息发送成功！Telegram Bot配置正确。"@,
            Err(e) => report is Err && report->Err_0@ == ErrorView::SendTestFailed(e@),
        },
        report_result(report) == test_report(outcome_words(outcome)),
{
    match outcome {
        Ok(_) => Ok("测试消息发送成功！Telegram Bot配置正确。".to_owned()),
        Err(e) => Err(TelegramError::SendTestFailed(e)),
    }
}

} // verus!
