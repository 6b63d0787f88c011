//! A chat that serves one request at a time.
use crate::error::{ErrorView, TelegramError};
use crate::selection::{lemma_without, toggle_option, toggled};
use crate::telegram_core::{
    asked_for, event_of, handle_callback_query, handle_text_message, in_chat, new_core, opt_action,
    opt_event, options_format, parsed_api_url, plain_keyboard, ActionEvent, CallbackAction,
    CallbackActionView, CallbackReply, CoreView, EventView, TelegramCore, TelegramEvent,
};
use crate::text::{clone_list, opt_text, starts_with, texts};
use crate::update::{
    opt_edit, CallbackQuery, EditRequest, EditView, Message, SendRequest, SendView,
};
use vstd::prelude::*;

verus! {

/// The request that a chat serves, and what the user has made of it so far.
#[derive(Debug)]
pub struct TelegramIntegration {
    core: TelegramCore,
    /// The options selected so far, in the order of their selection.
    selected_options: Vec<String>,
    /// The text entered last.
    user_input: String,
    predefined_options: Vec<String>,
    continue_reply_enabled: bool,
}

/// A `TelegramIntegration` by the characters of its texts.
pub struct IntegrationView {
    pub core: CoreView,
    pub selected: Seq<Seq<char>>,
    pub user_input: Seq<char>,
    pub options: Seq<Seq<char>>,
    pub continue_reply_enabled: bool,
}

impl View for TelegramIntegration {
    type V = IntegrationView;

    closed spec fn view(&self) -> IntegrationView {
        IntegrationView {
            core: self.core@,
            selected: texts(self.selected_options@),
            user_input: self.user_input@,
            options: texts(self.predefined_options@),
            continue_reply_enabled: self.continue_reply_enabled,
        }
    }
}

/// What listens for the answer to one request.
#[derive(Debug)]
pub struct MessageListener {
    predefined_options: Vec<String>,
    continue_reply_enabled: bool,
    /// The message that holds the keyboard, once it is known.
    options_message_id: Option<i32>,
}

/// A `MessageListener` by the characters of its texts.
pub struct ListenerView {
    pub options: Seq<Seq<char>>,
    pub continue_reply_enabled: bool,
    pub message_id: Option<i32>,
}

impl View for MessageListener {
    type V = ListenerView;

    closed spec fn view(&self) -> ListenerView {
        ListenerView {
            options: texts(self.predefined_options@),
            continue_reply_enabled: self.continue_reply_enabled,
            message_id: self.options_message_id,
        }
    }
}

/// What comes of an answered press: what the popup is told, and the keyboard to show now.
#[derive(Debug)]
pub struct ActionOutcome {
    pub event: TelegramEvent,
    pub edit: Option<EditRequest>,
}

/// An integration that has just been set up for a bot.
pub open spec fn fresh(core: CoreView) -> IntegrationView {
    IntegrationView {
        core,
        selected: Seq::empty(),
        user_input: Seq::empty(),
        options: Seq::empty(),
        continue_reply_enabled: false,
    }
}

/// Whether the data of a button is that of an option or of an action.
pub open spec fn is_request_data(data: Seq<char>) -> bool {
    "t:"@.is_prefix_of(data) || "action:"@.is_prefix_of(data)
}

/// Whether a message has a button of an option or of an action under it.
pub open spec fn shows_request(rows: Seq<Vec<Option<String>>>) -> bool {
    exists|r: int, c: int|
        0 <= r < rows.len() && 0 <= c < rows[r]@.len() && (#[trigger] rows[r]@[c]) is Some
            && is_request_data(rows[r]@[c]->0@)
}

/// A listener that knows the message that holds the keyboard: the one that a press came from,
/// unless it knew one before.
pub open spec fn listener_noted(listener: ListenerView, query: CallbackQuery) -> ListenerView {
    match query.message {
        Some(m) if listener.message_id is None => ListenerView {
            message_id: Some(m.message_id),
            ..listener
        },
        _ => listener,
    }
}

/// What a press in the chat `chat_id` asks for, given the options that are on offer.
pub open spec fn press_action(
    query: CallbackQuery,
    chat_id: i64,
    options: Seq<Seq<char>>,
) -> Option<CallbackActionView> {
    asked_for(query, chat_id, options)
}

/// A listener that has seen a message: it may be the one that holds the keyboard.
pub open spec fn listener_shown(listener: ListenerView, message: Message) -> ListenerView {
    if shows_request(message.buttons@) {
        ListenerView { message_id: Some(message.message_id), ..listener }
    } else {
        listener
    }
}

/// The event that a message in the chat `chat_id` stands for.
pub open spec fn message_event(message: Message, chat_id: i64) -> Option<EventView> {
    event_of(message, chat_id, None)
}

/// What an integration becomes by an answered press, and what the popup is told.
pub open spec fn act(
    state: IntegrationView,
    action: CallbackActionView,
) -> (IntegrationView, EventView) {
    match action {
        CallbackActionView::ActionEvent(ActionEvent::Send) => (state, EventView::SendPressed),
        CallbackActionView::ActionEvent(ActionEvent::Continue) => (
            state,
            EventView::ContinuePressed,
        ),
        CallbackActionView::OptionToggled(option) => (
            IntegrationView { selected: toggled(state.selected, option), ..state },
            EventView::OptionToggled { option, selected: !state.selected.contains(option) },
        ),
    }
}

/// The keyboard to show after an answered press: a toggled option shows under the message that
/// holds the keyboard, where that is known.
pub open spec fn act_edit(
    after: IntegrationView,
    listener: ListenerView,
    action: CallbackActionView,
) -> Option<EditView> {
    match (action, listener.message_id) {
        (CallbackActionView::OptionToggled(_), Some(message_id)) => Some(
            EditView {
                chat_id: after.core.chat_id,
                message_id,
                keyboard: plain_keyboard(
                    listener.options,
                    after.selected,
                    listener.continue_reply_enabled,
                ),
            },
        ),
        _ => None,
    }
}

/// What an integration becomes by an event of the chat: a text is kept.
pub open spec fn entered(state: IntegrationView, event: Option<EventView>) -> IntegrationView {
    match event {
        Some(EventView::TextUpdated { text }) => IntegrationView { user_input: text, ..state },
        _ => state,
    }
}

impl TelegramIntegration {
    /// Whether no option is selected twice.
    pub open spec fn wf(self) -> bool {
        self@.selected.no_duplicates()
    }

    /// An integration for a token and a chat number.
    pub fn new(bot_token: String, chat_id: String) -> (integration: Result<Self, TelegramError>)
        ensures
            new_integration(integration, new_core(bot_token@, chat_id@, None)),
    {
        Self::new_with_api_url(bot_token, chat_id, None)
    }

    /// An integration for a token and a chat number, with an API address of its own where one is
    /// given.
    pub fn new_with_api_url(
        bot_token: String,
        chat_id: String,
        api_url: Option<String>,
    ) -> (integration: Result<Self, TelegramError>)
        ensures
            new_integration(
                integration,
                new_core(bot_token@, chat_id@, parsed_api_url(opt_text(api_url))),
            ),
    {
        match TelegramCore::new_with_api_url(bot_token, chat_id, api_url) {
            Ok(core) => Ok(Self::from_core(core)),
            Err(e) => Err(e),
        }
    }

    /// An integration for a bot.
    pub fn from_core(core: TelegramCore) -> (integration: Self)
        ensures
            integration.wf(),
            integration@ == fresh(core@),
    {
        let integration = TelegramIntegration {
            core,
            selected_options: Vec::new(),
            user_input: String::new(),
            predefined_options: Vec::new(),
            continue_reply_enabled: false,
        };
        assert(integration@.selected == Seq::<Seq<char>>::empty());
        assert(integration@.options == Seq::<Seq<char>>::empty());
        integration
    }

    /// The bot of this integration.
    pub fn telegram_core(&self) -> (core: &TelegramCore)
        ensures
            core@ == self@.core,
    {
        &self.core
    }

    /// Takes up a request: nothing is selected any more, and the message goes out. The text entered
    /// last stays.
    pub fn send_mcp_request(
        &mut self,
        message: &str,
        predefined_options: Vec<String>,
        is_markdown: bool,
        continue_reply_enabled: bool,
    ) -> (request: Result<SendRequest, TelegramError>)
        ensures
            final(self).wf(),
            final(self)@ == (IntegrationView {
                selected: Seq::empty(),
                options: texts(predefined_options@),
                continue_reply_enabled,
                ..old(self)@
            }),
            request is Ok,
            request->Ok_0@ == (SendView {
                chat_id: old(self)@.core.chat_id,
                text: message@,
                format: options_format(is_markdown),
                keyboard: Some(
                    plain_keyboard(texts(predefined_options@), Seq::empty(), continue_reply_enabled),
                ),
            }),
    {
        self.selected_options = Vec::new();
        self.predefined_options = predefined_options;
        self.continue_reply_enabled = continue_reply_enabled;
        assert(self@.selected == Seq::<Seq<char>>::empty());
        self.core.send_options_message(
            message,
            self.predefined_options.as_slice(),
            is_markdown,
            None,
            continue_reply_enabled,
        )
    }

    /// What listens for the answer to the request that was taken up last.
    pub fn start_message_listener(&self) -> (listener: MessageListener)
        ensures
            listener@ == (ListenerView {
                options: self@.options,
                continue_reply_enabled: self@.continue_reply_enabled,
                message_id: None,
            }),
    {
        MessageListener {
            predefined_options: clone_list(self.predefined_options.as_slice()),
            continue_reply_enabled: self.continue_reply_enabled,
            options_message_id: None,
        }
    }

    /// Decides what a press asks for. What it asks for is to be done once the press has been
    /// answered.
    pub fn handle_callback(
        &self,
        listener: &mut MessageListener,
        callback_query: &CallbackQuery,
    ) -> (reply: CallbackReply)
        ensures
            final(listener)@ == listener_noted(old(listener)@, *callback_query),
            reply.answer == in_chat(*callback_query, self@.core.chat_id),
            opt_action(reply.action) == press_action(
                *callback_query,
                self@.core.chat_id,
                old(listener)@.options,
            ),
    {
        match callback_query.message {
            Some(message) => {
                if listener.options_message_id.is_none() {
                    listener.options_message_id = Some(message.message_id);
                }
            },
            None => {},
        }
        handle_callback_query(
            callback_query,
            self.core.chat_id,
            listener.predefined_options.as_slice(),
        )
    }

    /// Does what an answered press asks for.
    pub fn apply_action(
        &mut self,
        listener: &MessageListener,
        action: CallbackAction,
    ) -> (outcome: ActionOutcome)
        requires
            old(self).wf(),
        ensures
            final(self).wf(),
            (final(self)@, outcome.event@) == act(old(self)@, action@),
            opt_edit(outcome.edit) == act_edit(final(self)@, listener@, action@),
    {
        match action {
            CallbackAction::ActionEvent(ActionEvent::Send) => ActionOutcome {
                event: TelegramEvent::SendPressed,
                edit: None,
            },
            CallbackAction::ActionEvent(ActionEvent::Continue) => ActionOutcome {
                event: TelegramEvent::ContinuePressed,
                edit: None,
            },
            CallbackAction::OptionToggled(option) => {
                proof {
                    lemma_without(self@.selected, option@);
                }
                let selected: bool = toggle_option(&mut self.selected_options, option.as_str());
                let edit = match listener.options_message_id {
                    Some(message_id) => match self.core.update_inline_keyboard(
                        message_id,
                        listener.predefined_options.as_slice(),
                        self.selected_options.as_slice(),
                        listener.continue_reply_enabled,
                    ) {
                        Ok(edit) => Some(edit),
                        Err(_) => None,
                    },
                    None => None,
                };
                ActionOutcome { event: TelegramEvent::OptionToggled { option, selected }, edit }
            },
        }
    }

    /// Takes in a message: it may be the one that holds the keyboard, and its text may be a command
    /// or the text to keep.
    pub fn handle_message(
        &mut self,
        listener: &mut MessageListener,
        message: &Message,
    ) -> (event: Option<TelegramEvent>)
        ensures
            old(self).wf() ==> final(self).wf(),
            final(listener)@ == listener_shown(old(listener)@, *message),
            opt_event(event) == message_event(*message, old(self)@.core.chat_id),
            final(self)@ == entered(old(self)@, opt_event(event)),
    {
        if has_request_button(&message.buttons) {
            listener.options_message_id = Some(message.message_id);
        }
        let event = handle_text_message(message, self.core.chat_id, None);
        match &event {
            Some(TelegramEvent::TextUpdated { text }) => {
                self.user_input = text.clone();
            },
            _ => {},
        }
        event
    }

    /// What is selected.
    pub fn get_selected_options(&self) -> (selected: Vec<String>)
        ensures
            texts(selected@) == self@.selected,
    {
        clone_list(self.selected_options.as_slice())
    }

    /// The text entered last.
    pub fn get_user_input(&self) -> (text: String)
        ensures
            text@ == self@.user_input,
    {
        self.user_input.clone()
    }
}

/// Whether `integration` is what a bot yields: the error, or a fresh integration.
pub open spec fn new_integration(
    integration: Result<TelegramIntegration, TelegramError>,
    core: Result<CoreView, ErrorView>,
) -> bool {
    match (integration, core) {
        (Ok(i), Ok(c)) => i.wf() && i@ == fresh(c),
        (Err(e), Err(error)) => e@ == error,
        _ => false,
    }
}

fn has_request_button(rows: &Vec<Vec<Option<String>>>) -> (found: bool)
    ensures
        found == shows_request(rows@),
{
    let mut r: usize = 0;
    while r < rows.len()
        invariant
            r <= rows@.len(),
            forall|a: int, c: int|
                0 <= a < r && 0 <= c < rows@[a]@.len() && (#[trigger] rows@[a]@[c]) is Some
                    ==> !is_request_data(rows@[a]@[c]->0@),
        decreases rows@.len() - r,
    {
        let row = &rows[r];
        let mut c: usize = 0;
        while c < row.len()
            invariant
                r < rows@.len(),
                *row == rows@[r as int],
                c <= row@.len(),
                forall|d: int|
                    0 <= d < c && (#[trigger] rows@[r as int]@[d]) is Some ==> !is_request_data(
                        rows@[r as int]@[d]->0@,
                    ),
            decreases row@.len() - c,
        {
            match &row[c] {
                Some(data) => {
                    if starts_with(data.as_str(), "t:") || starts_with(data.as_str(), "action:") {
                        assert(rows@[r as int]@[c as int] is Some);
                        return true;
                    }
                },
                None => {},
            }
            c += 1;
        }
        r += 1;
    }
    false
}

} // verus!
