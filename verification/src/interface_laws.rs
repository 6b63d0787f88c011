//! What the popup, the program that asked and the user are told: forwarding, answers, the search for
//! a chat, a chat that serves one request, and popup windows.
use crate::commands::{
    chat_of, custom_url, first_message, forward, forwarded, look_step, opt_updates, state_input,
    state_selected, sync_plan, text_or, ChatMessage, PlanView, StepView, TelegramConfig,
};
use crate::dispatcher::{SessionAction, SessionEventView};
use crate::integration::{
    act, act_edit, entered, fresh, listener_noted, listener_shown, message_event, press_action,
    shows_request, IntegrationView, ListenerView,
};
use crate::mcp_handler::{mcp_step, McpStepView, ResponseView};
use crate::popup_windows::{
    after_take, closing_response, handed_on, handing_error, handing_report,
    labels_tell_requests_apart, opt_request, owned_request, popup_error_words,
    popup_label, popup_result, response_of, PopupError, PopupErrorView, PopupRequest, RequestView,
};
use crate::selection::{toggle_flips_one, toggled};
use crate::telegram_core::{
    callback_action, command_of, feedback, plain_keyboard, ActionEvent, CallbackActionView,
    CoreView, EventView,
};
use crate::text::{is_blank_text, signed_decimal, texts};
use crate::update::{offset_after, offset_after_batch, opt_numbers, CallbackQuery, Message};
use vstd::prelude::*;

verus! {

/// A send is answered with exactly what is selected, every option and in order, and with exactly
/// the text, where there is one; a continue is answered as a continue. Both are confirmed in the
/// chat. Nothing else is an answer.
pub proof fn an_answer_is_what_was_selected_and_entered(
    selected: Seq<Seq<char>>,
    user_input: Seq<char>,
    request_id: Seq<char>,
    prompt: Option<Seq<char>>,
    event: EventView,
)
    ensures
        match mcp_step(
            SessionEventView::Action(SessionAction::Send),
            selected,
            user_input,
            request_id,
            prompt,
        ) {
            McpStepView::Finish {
                response: ResponseView::Send {
                    user_input: given_input,
                    selected: given,
                    request_id: given_id,
                    source,
                },
                feedback: words,
            } => {
                &&& given.len() == selected.len()
                &&& forall|i: int| 0 <= i < selected.len() ==> #[trigger] given[i] == selected[i]
                &&& user_input.len() > 0 ==> given_input == Some(user_input)
                &&& user_input.len() == 0 ==> given_input is None
                &&& given_id == request_id
                &&& source == "telegram"@
                &&& words == feedback(selected, user_input, false, prompt)
            },
            _ => false,
        },
        match mcp_step(
            SessionEventView::Action(SessionAction::Continue),
            selected,
            user_input,
            request_id,
            prompt,
        ) {
            McpStepView::Finish {
                response: ResponseView::Continue { request_id: given_id, source },
                feedback: words,
            } => {
                &&& given_id == request_id
                &&& source == "telegram_continue"@
                &&& words == feedback(Seq::empty(), Seq::empty(), true, prompt)
            },
            _ => false,
        },
        mcp_step(
            SessionEventView::Telegram(event),
            selected,
            user_input,
            request_id,
            prompt,
        ) is Wait,
{
}

/// Every Telegram event of a session is told to the popup as it is, and neither ends nor drops the
/// session.
pub proof fn the_popup_is_told_every_event(
    event: EventView,
    selected: Seq<Seq<char>>,
    user_input: Seq<char>,
    prompt: Option<Seq<char>>,
)
    ensures
        ({
            let step = forward(SessionEventView::Telegram(event), selected, user_input, prompt);
            &&& step.emit == Some(event)
            &&& step.feedback is None
            &&& !step.unregister
            &&& !step.finished
        }),
{
}

/// A send or a continue is told to the popup, is confirmed in the chat, and ends and drops the
/// session.
pub proof fn an_action_ends_a_session(
    selected: Seq<Seq<char>>,
    user_input: Seq<char>,
    prompt: Option<Seq<char>>,
)
    ensures
        ({
            let send = forward(
                SessionEventView::Action(SessionAction::Send),
                selected,
                user_input,
                prompt,
            );
            let go_on = forward(
                SessionEventView::Action(SessionAction::Continue),
                selected,
                user_input,
                prompt,
            );
            &&& send.emit == Some(EventView::SendPressed)
            &&& go_on.emit == Some(EventView::ContinuePressed)
            &&& send.unregister && send.finished && go_on.unregister && go_on.finished
            &&& send.feedback == Some(feedback(selected, user_input, false, prompt))
            &&& go_on.feedback == Some(feedback(Seq::empty(), Seq::empty(), true, prompt))
        }),
{
}

/// Whether the dispatcher is there matters for an action alone: without it the session's events are
/// over, nobody is told, and nothing is dropped.
pub proof fn a_missing_dispatcher_ends_an_action(
    event: SessionEventView,
    present: bool,
    selected: Seq<Seq<char>>,
    user_input: Seq<char>,
    prompt: Option<Seq<char>>,
)
    ensures
        present || event is Telegram ==> forwarded(event, present, selected, user_input, prompt)
            == forward(event, selected, user_input, prompt),
        event is Telegram ==> forwarded(event, present, selected, user_input, prompt).emit == Some(
            event->Telegram_0,
        ),
        !present && event is Action ==> {
            let step = forwarded(event, present, selected, user_input, prompt);
            step.finished && step.emit is None && step.feedback is None && !step.unregister
        },
{
}

/// The popup and the program that asked are confirmed alike in the chat.
pub proof fn both_ways_confirm_alike(
    action: SessionAction,
    selected: Seq<Seq<char>>,
    user_input: Seq<char>,
    request_id: Seq<char>,
    prompt: Option<Seq<char>>,
)
    ensures
        mcp_step(
            SessionEventView::Action(action),
            selected,
            user_input,
            request_id,
            prompt,
        ) matches McpStepView::Finish { feedback: words, .. } && forward(
            SessionEventView::Action(action),
            selected,
            user_input,
            prompt,
        ).feedback == Some(words),
{
}

/// The state of a session is read as it is, and as empty where the session is gone.
pub proof fn a_state_is_read_as_it_is(selected: Vec<String>, user_input: String, i: int)
    ensures
        state_selected(Some((selected, user_input))).len() == selected@.len(),
        0 <= i < selected@.len() ==> state_selected(Some((selected, user_input)))[i]
            == selected@[i]@,
        state_input(Some((selected, user_input))) == user_input@,
        state_selected(None).len() == 0,
        state_input(None).len() == 0,
{
}

/// Telegram is used where it is enabled and neither the token nor the chat is blank, and then with
/// the token, the chat and the address of the configuration; Telegram's own address counts as none.
pub proof fn a_complete_configuration_is_used(config: TelegramConfig, default_url: Seq<char>)
    ensures
        !config.enabled <==> sync_plan(config, default_url) is Disabled,
        config.enabled && (is_blank_text(config.bot_token@) || is_blank_text(config.chat_id@))
            <==> sync_plan(config, default_url) is Incomplete,
        config.enabled && !is_blank_text(config.bot_token@) && !is_blank_text(config.chat_id@)
            ==> {
            &&& sync_plan(config, default_url) matches PlanView::Ready(ready)
            &&& ready.bot_token == config.bot_token@
            &&& ready.chat_id == config.chat_id@
            &&& config.api_base_url@ == default_url ==> ready.api_url is None
            &&& config.api_base_url@ != default_url ==> ready.api_url == Some(config.api_base_url@)
        },
        custom_url(default_url, default_url) is None,
        config.api_base_url@ != default_url ==> custom_url(config.api_base_url@, default_url)
            == Some(config.api_base_url@),
{
}

/// A found chat is reported by its number and its names, or by what stands for a missing name.
pub proof fn a_chat_is_reported_by_its_names(message: ChatMessage, text: String, other: Seq<char>)
    ensures
        chat_of(message).chat_id == signed_decimal(message.chat_id as int),
        message.title matches Some(t) ==> chat_of(message).chat_title == t@,
        message.title is None ==> chat_of(message).chat_title == "私聊"@,
        message.username matches Some(u) ==> chat_of(message).username == u@,
        message.username is None ==> chat_of(message).username == "未知用户"@,
        message.text matches Some(t) ==> chat_of(message).message_text == t@,
        message.text is None ==> chat_of(message).message_text == ""@,
        text_or(Some(text), other) == text@,
        text_or(None, other) == other,
{
}

/// The first message among updates is the one that none stands before.
pub proof fn the_first_message_has_none_before(updates: Seq<Option<ChatMessage>>, k: int)
    ensures
        0 <= k < updates.len() && updates[k] is Some && (forall|i: int|
            0 <= i < k ==> (#[trigger] updates[i]) is None) ==> first_message(updates)
            == updates[k],
        (forall|i: int| 0 <= i < updates.len() ==> (#[trigger] updates[i]) is None)
            ==> first_message(updates) is None,
    decreases updates.len(),
{
    if updates.len() > 0 && updates[0] is None {
        let rest = updates.drop_first();
        assert forall|i: int| 0 <= i < rest.len() implies #[trigger] rest[i] == updates[i + 1] by {}
        the_first_message_has_none_before(rest, k - 1);
        if 0 <= k < updates.len() && updates[k] is Some && (forall|i: int|
            0 <= i < k ==> (#[trigger] updates[i]) is None) {
            assert(k > 0);
            assert(rest[k - 1] == updates[k]);
            assert forall|i: int| 0 <= i < k - 1 implies (#[trigger] rest[i]) is None by {
                assert(updates[i + 1] is None);
            }
        }
        if forall|i: int| 0 <= i < updates.len() ==> (#[trigger] updates[i]) is None {
            assert forall|i: int| 0 <= i < rest.len() implies (#[trigger] rest[i]) is None by {
                assert(updates[i + 1] is None);
            }
        }
    }
}

/// A look that finds a message ends the search with its chat; one that finds none counts, and the
/// thirtieth ends the search.
pub proof fn a_look_finds_or_counts(
    misses: nat,
    updates: Seq<Option<ChatMessage>>,
    list: &[Option<ChatMessage>],
)
    ensures
        first_message(updates) is Some ==> look_step(misses, Some(updates)) == (
            misses,
            StepView::Detected(chat_of(first_message(updates)->0)),
        ),
        first_message(updates) is None ==> look_step(misses, Some(updates)) == look_step(
            misses,
            None,
        ),
        look_step(misses, None).0 == misses + 1,
        misses < 29 ==> look_step(misses, None).1 is Wait,
        misses >= 29 ==> look_step(misses, None).1 is TimedOut,
        opt_updates(None) is None,
        opt_updates(Some(list)) == Some(list@),
{
}

/// A chat that serves one request toggles the option that was asked for, keeps the text and
/// everything else, tells the popup so, and shows the new keyboard under the known message.
pub proof fn a_chat_toggles_and_keeps_the_text(
    state: IntegrationView,
    listener: ListenerView,
    option: Seq<char>,
    other: Seq<char>,
)
    ensures
        ({
            let (after, event) = act(state, CallbackActionView::OptionToggled(option));
            let edit = act_edit(after, listener, CallbackActionView::OptionToggled(option));
            &&& after.selected == toggled(state.selected, option)
            &&& after.selected.contains(option) == !state.selected.contains(option)
            &&& other != option ==> after.selected.contains(other) == state.selected.contains(
                other,
            )
            &&& after.user_input == state.user_input
            &&& after.options == state.options
            &&& after.continue_reply_enabled == state.continue_reply_enabled
            &&& after.core == state.core
            &&& event == EventView::OptionToggled {
                option,
                selected: after.selected.contains(option),
            }
            &&& edit is Some <==> listener.message_id is Some
            &&& edit is Some ==> {
                &&& edit->0.chat_id == state.core.chat_id
                &&& edit->0.message_id == listener.message_id->0
                &&& edit->0.keyboard == plain_keyboard(
                    listener.options,
                    after.selected,
                    listener.continue_reply_enabled,
                )
            }
        }),
{
    toggle_flips_one(state.selected, option, option);
    toggle_flips_one(state.selected, option, other);
}

/// An action in a chat that serves one request is told to the popup and changes nothing.
pub proof fn a_chat_action_changes_nothing(
    state: IntegrationView,
    listener: ListenerView,
    action: ActionEvent,
)
    ensures
        act(state, CallbackActionView::ActionEvent(action)).0 == state,
        act(state, CallbackActionView::ActionEvent(ActionEvent::Send)).1 == EventView::SendPressed,
        act(state, CallbackActionView::ActionEvent(ActionEvent::Continue)).1
            == EventView::ContinuePressed,
        act_edit(state, listener, CallbackActionView::ActionEvent(action)) is None,
{
}

/// A press asks a chat for what its data asks for, unless it comes from another chat or has none.
pub proof fn a_chat_press_asks_by_its_data(
    query: CallbackQuery,
    chat_id: i64,
    options: Seq<Seq<char>>,
)
    ensures
        query.data is None ==> press_action(query, chat_id, options) is None,
        query.message is Some && query.message->0.chat_id != chat_id ==> press_action(
            query,
            chat_id,
            options,
        ) is None,
        query.data is Some && (query.message is None || query.message->0.chat_id == chat_id)
            ==> press_action(query, chat_id, options) == callback_action(query.data->0@, options),
{
}

/// A text in the chat is kept and told; a command is told as its action; both change nothing else.
/// A message from another chat or without text is not told.
pub proof fn a_chat_text_is_kept_and_told(state: IntegrationView, message: Message)
    ensures
        ({
            let event = message_event(message, state.core.chat_id);
            let after = entered(state, event);
            let told = message.text is Some && message.chat_id == state.core.chat_id;
            &&& after.selected == state.selected && after.options == state.options
            &&& after.continue_reply_enabled == state.continue_reply_enabled
            &&& after.core == state.core
            &&& event is Some <==> told
            &&& !told ==> after == state
            &&& told ==> match command_of(message.text->0@) {
                None => event == Some(EventView::TextUpdated { text: message.text->0@ })
                    && after.user_input == message.text->0@,
                Some(ActionEvent::Send) => event == Some(EventView::SendPressed)
                    && after.user_input == state.user_input,
                Some(ActionEvent::Continue) => event == Some(EventView::ContinuePressed)
                    && after.user_input == state.user_input,
            }
        }),
{
}

/// A listener learns the message of the keyboard from the first press that tells one, and from every
/// message with a button of an option or of an action; what it offers stays.
pub proof fn a_listener_learns_its_message(
    listener: ListenerView,
    query: CallbackQuery,
    message: Message,
    row: int,
    column: int,
)
    ensures
        ({
            let pressed = listener_noted(listener, query);
            let shown = listener_shown(listener, message);
            &&& pressed.options == listener.options && shown.options == listener.options
            &&& pressed.continue_reply_enabled == listener.continue_reply_enabled
            &&& shown.continue_reply_enabled == listener.continue_reply_enabled
            &&& listener.message_id is Some || query.message is None ==> pressed.message_id
                == listener.message_id
            &&& listener.message_id is None && query.message is Some ==> pressed.message_id
                == Some(query.message->0.message_id)
            &&& shows_request(message.buttons@) ==> shown.message_id == Some(message.message_id)
            &&& !shows_request(message.buttons@) ==> shown.message_id == listener.message_id
        }),
        0 <= row < message.buttons@.len() && 0 <= column < message.buttons@[row]@.len()
            && message.buttons@[row]@[column] is Some && ("t:"@.is_prefix_of(
            message.buttons@[row]@[column]->0@,
        ) || "action:"@.is_prefix_of(message.buttons@[row]@[column]->0@)) ==> shows_request(
            message.buttons@,
        ),
        (forall|r: int, c: int|
            0 <= r < message.buttons@.len() && 0 <= c < message.buttons@[r]@.len() && (
            #[trigger] message.buttons@[r]@[c]) is Some ==> !"t:"@.is_prefix_of(
                message.buttons@[r]@[c]->0@,
            ) && !"action:"@.is_prefix_of(message.buttons@[r]@[c]->0@)) ==> !shows_request(
            message.buttons@,
        ),
{
}

/// A chat begins with nothing selected, entered or offered.
pub proof fn a_chat_begins_empty(core: CoreView)
    ensures
        fresh(core).core == core,
        fresh(core).selected.len() == 0,
        fresh(core).user_input.len() == 0,
        fresh(core).options.len() == 0,
        !fresh(core).continue_reply_enabled,
{
}

/// Polling asks from the number after the last update of a batch on, and from the same number again
/// after an empty or a failed one.
pub proof fn polling_asks_after_the_last_update(
    offset: int,
    ids: Seq<u32>,
    last: u32,
    batch: &[u32],
)
    ensures
        opt_numbers(None) is None,
        opt_numbers(Some(batch)) == Some(batch@),
        offset_after_batch(offset, None) == offset,
        offset_after_batch(offset, Some(Seq::empty())) == offset,
        offset_after_batch(offset, Some(ids.push(last))) == offset_after(last),
{
}

/// A window is labelled `popup-` and the id of its request. It owns the request with that id, where
/// it waits, and no other.
pub proof fn a_window_owns_its_request(
    requests: Map<Seq<char>, RequestView>,
    id: Seq<char>,
    label: Seq<char>,
)
    ensures
        popup_label(id) == "popup-"@ + id,
        requests.contains_key(id) ==> owned_request(requests, id, "popup-"@ + id) == Some(
            requests[id],
        ),
        !requests.contains_key(id) ==> owned_request(requests, id, label) is None,
        label != "popup-"@ + id ==> owned_request(requests, id, label) is None,
{
}

/// Finishing a request through its window takes it out and hands the response on; a response that
/// could not be made is reported, and the request is taken out all the same. Through any other
/// window nothing is taken out, and the refusal names the window and the request.
pub proof fn only_its_window_finishes_a_request(
    requests: Map<Seq<char>, RequestView>,
    id: Seq<char>,
    other_label: Seq<char>,
    text: Seq<char>,
    words: Seq<char>,
    response: Result<Seq<char>, Seq<char>>,
)
    requires
        other_label != "popup-"@ + id,
    ensures
        requests.contains_key(id) ==> {
            let label = "popup-"@ + id;
            &&& after_take(requests, id, label) == requests.remove(id)
            &&& response_of(requests, id, label, Ok(text)) == Ok::<Seq<char>, PopupErrorView>(text)
            &&& response_of(requests, id, label, Err(words)) == Err::<Seq<char>, PopupErrorView>(
                PopupErrorView::SerializeFailed(words),
            )
        },
        !requests.contains_key(id) ==> {
            let label = "popup-"@ + id;
            &&& after_take(requests, id, label) == requests
            &&& response_of(requests, id, label, response) == Err::<Seq<char>, PopupErrorView>(
                PopupErrorView::NotOwned { window_label: label, request_id: id },
            )
        },
        after_take(requests, id, other_label) == requests,
        response_of(requests, id, other_label, response) == Err::<Seq<char>, PopupErrorView>(
            PopupErrorView::NotOwned { window_label: other_label, request_id: id },
        ),
{
    labels_tell_requests_apart(id, id);
}

/// Closing the window of a request that waits cancels it, just as cancelling does; closing any other
/// window hands nothing on.
pub proof fn closing_a_window_cancels_its_request(
    requests: Map<Seq<char>, RequestView>,
    id: Seq<char>,
    label: Seq<char>,
)
    ensures
        requests.contains_key(id) ==> closing_response(requests, id, "popup-"@ + id) == Some(
            "CANCELLED"@,
        ),
        !requests.contains_key(id) || label != "popup-"@ + id ==> closing_response(
            requests,
            id,
            label,
        ) is None,
        closing_response(requests, id, label) is Some <==> response_of(
            requests,
            id,
            label,
            Ok("CANCELLED"@),
        ) is Ok,
{
}

/// Handing a response on is reported as failed where nobody is there or an error comes back, with
/// the words of that error, and else as done.
pub proof fn a_failure_to_hand_on_is_reported(e: String, words: Seq<char>, error: PopupError)
    ensures
        handing_report(None, true) == Some(PopupErrorView::IpcNotReady),
        handing_report(None, false) == Some(PopupErrorView::IpcNotReady),
        handing_report(Some(None), true) is None,
        handing_report(Some(None), false) is None,
        handing_report(Some(Some(words)), true) == Some(PopupErrorView::CancelFailed(words)),
        handing_report(Some(Some(words)), false) == Some(PopupErrorView::SendFailed(words)),
        handed_on(None) is None,
        handed_on(Some(Ok(()))) == Some(None::<Seq<char>>),
        handed_on(Some(Err(e))) == Some(Some(e@)),
        handing_error(Ok(())) is None,
        handing_error(Err(error)) == Some(error@),
{
}

/// The words of a popup error say what failed, and end with the words of the underlying error where
/// there is one.
pub proof fn a_popup_error_is_put_into_words(e: Seq<char>, window_label: Seq<char>, id: Seq<char>)
    ensures
        popup_error_words(PopupErrorView::NotOwned { window_label, request_id: id })
            == "popup 窗口 "@ + window_label + " 无法 finalize 请求 "@ + id
            + "（已被其他路径处理）"@,
        popup_error_words(PopupErrorView::SerializeFailed(e)) == "序列化响应失败: "@ + e,
        popup_error_words(PopupErrorView::IpcNotReady) == "IPC 服务器未初始化"@,
        popup_error_words(PopupErrorView::SendFailed(e)) == "发送 popup 响应失败: "@ + e,
        popup_error_words(PopupErrorView::CancelFailed(e)) == "取消 popup 请求失败: "@ + e,
        popup_error_words(PopupErrorView::CloseFailed(e)) == "关闭 popup 窗口失败: "@ + e,
        popup_error_words(PopupErrorView::CreateFailed(e)) == "创建 popup 窗口失败: "@ + e,
        popup_error_words(PopupErrorView::ConfigUnavailable(e)) == "获取配置失败: "@ + e,
{
}

/// Requests and responses are taken for what they are.
pub proof fn requests_are_taken_for_what_they_are(
    request: PopupRequest,
    text: String,
    error: PopupError,
)
    ensures
        opt_request(None) is None,
        opt_request(Some(request)) == Some(request@),
        popup_result(Ok(text)) == Ok::<Seq<char>, PopupErrorView>(text@),
        popup_result(Err(error)) == Err::<Seq<char>, PopupErrorView>(error@),
        request@.id == request.id@,
        request@.message == request.message@,
        request@.is_markdown == request.is_markdown,
        request.predefined_options matches Some(options) ==> request@.options == Some(
            texts(options@),
        ),
        request.predefined_options is None ==> request@.options is None,
        request.client_name matches Some(name) ==> request@.client_name == Some(name@),
        request.client_name is None ==> request@.client_name is None,
{
}

} // verus!
