//! What the values of the library stand for in its contracts: each field by its characters, each
//! variant for itself.
use crate::commands::{ChatInfo, DetectionStep, ForwardStep, PlanView, StepView, SyncPlan};
use crate::dispatcher::{
    new_dispatcher, Delivery, DispatchOutcome, DispatcherConfig, SessionAction, SessionEvent,
    SessionEventView, TelegramDispatcher,
};
use crate::error::{ErrorView, TelegramError};
use crate::integration::{new_integration, TelegramIntegration};
use crate::keyboard::{InlineKeyboardButton, InlineKeyboardMarkup};
use crate::mcp_handler::{McpResponse, McpStep, McpStepView, ResponseView};
use crate::outside::no_entries;
use crate::popup_windows::{PopupError, PopupErrorView};
use crate::telegram_core::{
    core_result, new_core, test_result, ActionEvent, CallbackAction, CallbackActionView, CoreView,
    EventView, TelegramCore, TelegramEvent,
};
use crate::text::i64_value;
use crate::update::{opt_edit, EditRequest, SendRequest, SendView};
use vstd::prelude::*;

verus! {

/// An event stands for itself, with its text and its flag.
pub proof fn an_event_stands_for_itself(option: String, selected: bool, action: SessionAction)
    ensures
        (TelegramEvent::OptionToggled { option, selected })@ == (EventView::OptionToggled {
            option: option@,
            selected,
        }),
        (TelegramEvent::TextUpdated { text: option })@ == (EventView::TextUpdated { text: option@ }),
        TelegramEvent::ContinuePressed@ == EventView::ContinuePressed,
        TelegramEvent::SendPressed@ == EventView::SendPressed,
        SessionEvent::Action(action)@ == SessionEventView::Action(action),
{
}

/// A session event stands for the Telegram event that it holds.
pub proof fn a_session_event_stands_for_its_event(event: TelegramEvent)
    ensures
        SessionEvent::Telegram(event)@ == SessionEventView::Telegram(event@),
{
}

/// What a press asks for stands for itself.
pub proof fn an_action_stands_for_itself(option: String, action: ActionEvent)
    ensures
        CallbackAction::OptionToggled(option)@ == CallbackActionView::OptionToggled(option@),
        CallbackAction::ActionEvent(action)@ == CallbackActionView::ActionEvent(action),
{
}

/// A bot stands for its token, its address and its chat; a configuration for its token, its chat
/// and its address.
pub proof fn a_bot_stands_for_its_fields(core: TelegramCore, config: DispatcherConfig)
    ensures
        core@.bot_token == core.bot_token@,
        core@.chat_id == core.chat_id,
        core.api_url is None ==> core@.api_url is None,
        core.api_url matches Some(url) ==> core@.api_url == Some(url@),
        config@.bot_token == config.bot_token@,
        config@.chat_id == config.chat_id@,
        config.api_url is None ==> config@.api_url is None,
        config.api_url matches Some(url) ==> config@.api_url == Some(url@),
{
}

/// A keyboard stands for its rows of buttons, a button for what it shows and what it sends back.
pub proof fn a_keyboard_stands_for_its_buttons(
    keyboard: InlineKeyboardMarkup,
    row: int,
    place: int,
    button: InlineKeyboardButton,
)
    ensures
        keyboard@.len() == keyboard.inline_keyboard@.len(),
        0 <= row < keyboard@.len() ==> keyboard@[row].len()
            == keyboard.inline_keyboard@[row]@.len(),
        0 <= row < keyboard@.len() && 0 <= place < keyboard@[row].len() ==> {
            &&& keyboard@[row][place].text == keyboard.inline_keyboard@[row]@[place].text@
            &&& keyboard@[row][place].data == keyboard.inline_keyboard@[row]@[place].callback_data@
        },
        button@.text == button.text@,
        button@.data == button.callback_data@,
{
}

/// What goes out stands for its fields.
pub proof fn what_goes_out_stands_for_its_fields(send: SendRequest, edit: EditRequest)
    ensures
        send@.chat_id == send.chat_id,
        send@.text == send.text@,
        send@.format == send.format,
        send.keyboard is None ==> send@.keyboard is None,
        send.keyboard matches Some(keyboard) ==> send@.keyboard == Some(keyboard@),
        edit@.chat_id == edit.chat_id,
        edit@.message_id == edit.message_id,
        edit@.keyboard == edit.keyboard@,
        opt_edit(None) is None,
        opt_edit(Some(edit)) == Some(edit@),
{
}

/// The outcome of an update stands for its fields.
pub proof fn an_outcome_stands_for_its_fields(outcome: DispatchOutcome, delivery: Delivery)
    ensures
        outcome@.answer == outcome.answer,
        outcome.delivery is None ==> outcome@.delivery is None,
        outcome.delivery matches Some(d) ==> outcome@.delivery == Some(d@),
        outcome.edit is None ==> outcome@.edit is None,
        outcome.edit matches Some(e) ==> outcome@.edit == Some(e@),
        outcome.hint is None ==> outcome@.hint is None,
        outcome.hint matches Some(h) ==> outcome@.hint == Some(h@),
        delivery@.id == delivery.request_id_short@,
        delivery@.event == delivery.event@,
{
}

/// What the user interface is told to do stands for itself.
pub proof fn steps_stand_for_themselves(
    info: ChatInfo,
    config: DispatcherConfig,
    step: ForwardStep,
)
    ensures
        info@.chat_id == info.chat_id@,
        info@.chat_title == info.chat_title@,
        info@.username == info.username@,
        info@.message_text == info.message_text@,
        DetectionStep::Detected(info)@ == StepView::Detected(info@),
        DetectionStep::TimedOut@ == StepView::TimedOut,
        DetectionStep::Wait@ == StepView::Wait,
        SyncPlan::Disabled@ == PlanView::Disabled,
        SyncPlan::Incomplete@ == PlanView::Incomplete,
        SyncPlan::Ready(config)@ == PlanView::Ready(config@),
        step.feedback is None ==> step@.feedback is None,
        step.feedback matches Some(words) ==> step@.feedback == Some(words@),
        step.emit is None ==> step@.emit is None,
        step.emit matches Some(event) ==> step@.emit == Some(event@),
        step@.unregister == step.unregister,
        step@.finished == step.finished,
{
}

/// An answer stands for its fields.
pub proof fn an_answer_stands_for_its_fields(
    user_input: Option<String>,
    selected_options: Vec<String>,
    request_id: String,
    source: String,
    response: McpResponse,
    words: String,
)
    ensures
        match (McpResponse::Send { user_input, selected_options, request_id, source })@ {
            ResponseView::Send { user_input: text, selected, request_id: id, source: from } => {
                &&& user_input is None ==> text is None
                &&& user_input is Some ==> text == Some(user_input->0@)
                &&& selected.len() == selected_options@.len()
                &&& forall|i: int|
                    0 <= i < selected.len() ==> #[trigger] selected[i] == selected_options@[i]@
                &&& id == request_id@
                &&& from == source@
            },
            _ => false,
        },
        (McpResponse::Continue { request_id, source })@ == (ResponseView::Continue {
            request_id: request_id@,
            source: source@,
        }),
        McpStep::Wait@ == McpStepView::Wait,
        (McpStep::Finish { response, feedback: words })@ == (McpStepView::Finish {
            response: response@,
            feedback: words@,
        }),
{
}

/// An error stands for itself, with the words of the underlying error.
pub proof fn an_error_stands_for_itself(e: String, id: String)
    ensures
        TelegramError::InvalidApiUrl(e)@ == ErrorView::InvalidApiUrl(e@),
        TelegramError::UsernameChatId@ == ErrorView::UsernameChatId,
        TelegramError::InvalidChatId@ == ErrorView::InvalidChatId,
        TelegramError::EmptyBotToken@ == ErrorView::EmptyBotToken,
        TelegramError::EmptyChatId@ == ErrorView::EmptyChatId,
        TelegramError::InvalidTestChatId@ == ErrorView::InvalidTestChatId,
        TelegramError::SendFailed(e)@ == ErrorView::SendFailed(e@),
        TelegramError::SendOptionsFailed(e)@ == ErrorView::SendOptionsFailed(e@),
        TelegramError::SendTestFailed(e)@ == ErrorView::SendTestFailed(e@),
        TelegramError::IncompleteConfig@ == ErrorView::IncompleteConfig,
        TelegramError::DispatcherInitFailed(e)@ == ErrorView::DispatcherInitFailed(e@),
        (PopupError::NotOwned { window_label: e, request_id: id })@ == (PopupErrorView::NotOwned {
            window_label: e@,
            request_id: id@,
        }),
        PopupError::SerializeFailed(e)@ == PopupErrorView::SerializeFailed(e@),
        PopupError::IpcNotReady@ == PopupErrorView::IpcNotReady,
        PopupError::SendFailed(e)@ == PopupErrorView::SendFailed(e@),
        PopupError::CancelFailed(e)@ == PopupErrorView::CancelFailed(e@),
        PopupError::CloseFailed(e)@ == PopupErrorView::CloseFailed(e@),
        PopupError::CreateFailed(e)@ == PopupErrorView::CreateFailed(e@),
        PopupError::ConfigUnavailable(e)@ == PopupErrorView::ConfigUnavailable(e@),
{
}

/// Results stand for what they hold; an empty object holds nothing.
pub proof fn results_stand_for_what_they_hold(
    core: TelegramCore,
    request: SendRequest,
    error: TelegramError,
    key: Seq<char>,
)
    ensures
        core_result(Ok(core)) == Ok::<CoreView, ErrorView>(core@),
        core_result(Err(error)) == Err::<CoreView, ErrorView>(error@),
        test_result(Ok((core, request))) == Ok::<(CoreView, SendView), ErrorView>(
            (core@, request@),
        ),
        test_result(Err(error)) == Err::<(CoreView, SendView), ErrorView>(error@),
        !no_entries().contains_key(key),
{
}

/// A dispatcher or an integration is set up exactly where its bot is, with that bot and with nothing
/// in it; else the error is that of the bot.
pub proof fn a_new_service_is_that_of_its_bot(
    dispatcher: Result<TelegramDispatcher, TelegramError>,
    integration: Result<TelegramIntegration, TelegramError>,
    bot_token: Seq<char>,
    chat_id: Seq<char>,
    parsed: Option<Result<Seq<char>, Seq<char>>>,
)
    ensures
        new_dispatcher(dispatcher, bot_token, chat_id, parsed) ==> {
            let core = new_core(bot_token, chat_id, parsed);
            &&& dispatcher is Ok == core is Ok
            &&& dispatcher matches Ok(d) ==> {
                &&& d.wf()
                &&& d@.core == core->Ok_0
                &&& d@.core.bot_token == bot_token
                &&& i64_value(chat_id) == Some(d@.core.chat_id)
                &&& d@.sessions.len() == 0
                &&& d@.next_number == 1
            }
            &&& dispatcher matches Err(e) ==> e@ == core->Err_0
        },
        new_integration(integration, new_core(bot_token, chat_id, parsed)) ==> {
            let core = new_core(bot_token, chat_id, parsed);
            &&& integration is Ok == core is Ok
            &&& integration matches Ok(c) ==> {
                &&& c.wf()
                &&& c@.core == core->Ok_0
                &&& c@.selected.len() == 0
                &&& c@.user_input.len() == 0
            }
            &&& integration matches Err(e) ==> e@ == core->Err_0
        },
{
}

} // verus!
