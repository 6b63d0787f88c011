use hengjing::commands::{
    add_request_id, custom_api_url, detection_api_url, dispatcher_failed, event_with_request_id,
    forward_session_event, plan_sync, request_id_or_random, send_telegram_message, send_telegram_message_with_markdown,
    state_or_empty, sync_failed, test_telegram_connection_cmd, usable_url, ChatIdDetector,
    ChatInfo, ChatMessage, DetectionStep, SyncPlan, TelegramConfig, MAX_TIMEOUT_COUNT,
};
use hengjing::dispatcher::{SessionAction, SessionEvent};
use hengjing::error::TelegramError;
use hengjing::integration::TelegramIntegration;
use hengjing::mcp_handler::{handle_session_event, request_options, McpResponse, McpStep};
use hengjing::popup_windows::PopupRequest;
use hengjing::telegram_core::{ActionEvent, CallbackAction, TelegramCore, TelegramEvent};
use hengjing::update::{CallbackQuery, Message, MessageRef, TextFormat};

const DEFAULT_URL: &str = "https://api.telegram.org/bot";

fn list(items: &[&str]) -> Vec<String> {
    items.iter().map(|s| s.to_string()).collect()
}

fn config(enabled: bool, bot_token: &str, chat_id: &str, url: &str) -> TelegramConfig {
    TelegramConfig {
        enabled,
        bot_token: bot_token.to_string(),
        chat_id: chat_id.to_string(),
        api_base_url: url.to_string(),
    }
}

fn chat_message(chat_id: i64, title: Option<&str>) -> ChatMessage {
    ChatMessage {
        chat_id,
        title: title.map(|t| t.to_string()),
        username: None,
        text: None,
    }
}

fn press(data: &str, chat_id: i64, message_id: i32) -> CallbackQuery {
    CallbackQuery {
        message: Some(MessageRef { chat_id, message_id }),
        data: Some(data.to_string()),
    }
}

fn message(chat_id: i64, message_id: i32, text: Option<&str>, button: Option<&str>) -> Message {
    Message {
        chat_id,
        message_id,
        text: text.map(|t| t.to_string()),
        reply_to: None,
        buttons: vec![vec![None, button.map(|b| b.to_string())]],
    }
}

#[test]
fn a_sync_needs_an_enabled_and_complete_configuration() {
    assert!(matches!(
        plan_sync(&config(false, "", "", DEFAULT_URL), DEFAULT_URL),
        SyncPlan::Disabled
    ));
    assert!(matches!(
        plan_sync(&config(true, " ", "42", DEFAULT_URL), DEFAULT_URL),
        SyncPlan::Incomplete
    ));
    assert!(matches!(
        plan_sync(&config(true, "t", "\t", DEFAULT_URL), DEFAULT_URL),
        SyncPlan::Incomplete
    ));
    match plan_sync(&config(true, " t ", "42", DEFAULT_URL), DEFAULT_URL) {
        SyncPlan::Ready(ready) => {
            assert_eq!(ready.bot_token, " t ");
            assert_eq!(ready.chat_id, "42");
            assert_eq!(ready.api_url, None);
        }
        other => panic!("{other:?}"),
    }
    match plan_sync(&config(true, "t", "42", "http://proxy"), DEFAULT_URL) {
        SyncPlan::Ready(ready) => assert_eq!(ready.api_url.as_deref(), Some("http://proxy")),
        other => panic!("{other:?}"),
    }
    assert_eq!(TelegramError::IncompleteConfig.message(), "Telegram配置不完整");
}

#[test]
fn an_api_address_is_custom_where_it_differs() {
    assert_eq!(custom_api_url(DEFAULT_URL, DEFAULT_URL), None);
    assert_eq!(custom_api_url("http://p", DEFAULT_URL).as_deref(), Some("http://p"));
    assert_eq!(custom_api_url("", DEFAULT_URL).as_deref(), Some(""));
}

#[test]
fn a_search_uses_an_address_that_parses() {
    assert_eq!(detection_api_url(DEFAULT_URL, DEFAULT_URL), None);
    assert_eq!(detection_api_url("nonsense", DEFAULT_URL), None);
    assert_eq!(detection_api_url("http://P", DEFAULT_URL).as_deref(), Some("http://p/"));
    assert_eq!(usable_url(None), None);
    assert_eq!(usable_url(Some(Err("e".to_string()))), None);
    assert_eq!(usable_url(Some(Ok("u".to_string()))).as_deref(), Some("u"));
}

#[test]
fn a_configured_test_goes_by_the_configured_address() {
    let (bot, _) =
        test_telegram_connection_cmd("t", "42", DEFAULT_URL, DEFAULT_URL).unwrap();
    assert_eq!(bot.api_url, None);
    let (bot, request) = test_telegram_connection_cmd("t", "42", "http://p", DEFAULT_URL).unwrap();
    assert_eq!(bot.api_url.as_deref(), Some("http://p/"));
    assert_eq!(request.chat_id, 42);
    let error = test_telegram_connection_cmd("t", "42", "", DEFAULT_URL).unwrap_err();
    assert_eq!(error.message(), "无效的API URL格式: relative URL without a base");
}

#[test]
fn a_message_can_be_sent_by_token_and_chat() {
    let (bot, request) = send_telegram_message("t", "42", "hi").unwrap();
    assert_eq!((bot.chat_id, bot.bot_token.as_str()), (42, "t"));
    assert_eq!((request.chat_id, request.text.as_str()), (42, "hi"));
    assert_eq!(request.format, TextFormat::Plain);
    let (_, request) = send_telegram_message_with_markdown("t", "42", "hi", true).unwrap();
    assert_eq!(request.format, TextFormat::MarkdownV2);
    assert!(matches!(
        send_telegram_message("t", "@x", "hi"),
        Err(TelegramError::UsernameChatId)
    ));
}

#[test]
fn a_chat_is_reported_with_its_names() {
    let info = ChatInfo::of_message(&ChatMessage {
        chat_id: -100,
        title: Some("群".to_string()),
        username: Some("bob".to_string()),
        text: Some("hi".to_string()),
    });
    assert_eq!(info.chat_id, "-100");
    let object = info.to_json();
    assert_eq!(object.len(), 4);
    assert_eq!(object["chat_id"], "-100");
    assert_eq!(object["chat_title"], "群");
    assert_eq!(object["username"], "bob");
    assert_eq!(object["message_text"], "hi");
    let object = ChatInfo::of_message(&chat_message(7, None)).to_json();
    assert_eq!(object["chat_id"], "7");
    assert_eq!(object["chat_title"], "私聊");
    assert_eq!(object["username"], "未知用户");
    assert_eq!(object["message_text"], "");
}

#[test]
fn a_found_chat_sets_up_a_bot() {
    for chat_id in [0, 42, -1001234567890, i64::MIN, i64::MAX] {
        let info = ChatInfo::of_message(&chat_message(chat_id, None));
        assert_eq!(TelegramCore::new("t".to_string(), info.chat_id).unwrap().chat_id, chat_id);
    }
}

#[test]
fn a_search_ends_at_the_first_message() {
    let mut detector = ChatIdDetector::new();
    assert!(matches!(detector.look(None), DetectionStep::Wait));
    assert!(matches!(detector.look(Some(&[])), DetectionStep::Wait));
    assert!(matches!(detector.look(Some(&[None])), DetectionStep::Wait));
    let updates = [None, Some(chat_message(5, Some("a"))), Some(chat_message(6, None))];
    match detector.look(Some(&updates)) {
        DetectionStep::Detected(info) => {
            assert_eq!(info.chat_id, "5");
            assert_eq!(info.chat_title, "a");
        }
        other => panic!("{other:?}"),
    }
}

#[test]
fn a_search_is_given_up_after_thirty_looks() {
    assert_eq!(MAX_TIMEOUT_COUNT, 30);
    let mut detector = ChatIdDetector::new();
    for _ in 0..29 {
        assert!(matches!(detector.look(None), DetectionStep::Wait));
    }
    assert!(matches!(detector.look(None), DetectionStep::TimedOut));
}

#[test]
fn an_event_carries_the_id_of_its_request() {
    let mut event = serde_json::Map::new();
    event.insert("type".to_string(), serde_json::Value::String("send_pressed".to_string()));
    event.insert("request_id".to_string(), serde_json::Value::Null);
    add_request_id(&mut event, "abc123");
    assert_eq!(event.len(), 2);
    assert_eq!(event["request_id"], "abc123");
    assert_eq!(event["type"], "send_pressed");
    let toggled = TelegramEvent::OptionToggled { option: "甲".to_string(), selected: false };
    let object = event_with_request_id(&toggled, "abc123");
    assert_eq!(object.len(), 4);
    assert_eq!(object["request_id"], "abc123");
    assert_eq!(object["type"], "option_toggled");
    assert_eq!(object["option"], "甲");
    assert_eq!(object["selected"], false);
}

#[test]
fn a_request_without_an_id_gets_a_random_one() {
    assert_eq!(request_id_or_random(Some("given".to_string())), "given");
    let a = request_id_or_random(None);
    let b = request_id_or_random(None);
    assert_ne!(a, b);
    assert_eq!(a.len(), 36);
    for (i, c) in a.chars().enumerate() {
        if [8, 13, 18, 23].contains(&i) {
            assert_eq!(c, '-');
        } else {
            assert!(c.is_ascii_digit() || ('a'..='f').contains(&c));
        }
    }
    assert_eq!(a.as_bytes()[14], b'4');
    assert!("89ab".contains(a.as_bytes()[19] as char));
}

#[test]
fn failures_of_a_sync_are_reported() {
    let error = TelegramError::SendOptionsFailed("x".to_string());
    assert_eq!(sync_failed(&error).message(), "发送选项消息失败: 发送选项消息失败: x");
    assert_eq!(
        dispatcher_failed(&TelegramError::InvalidChatId).message(),
        "初始化Telegram调度器失败: 无效的Chat ID格式，请使用数字ID"
    );
}

#[test]
fn a_send_is_forwarded_and_ends_the_session() {
    let step = forward_session_event(
        SessionEvent::Action(SessionAction::Send),
        true,
        Some((list(&["甲"]), "嗯".to_string())),
        None,
    );
    assert_eq!(
        step.feedback.as_deref(),
        Some("✅ 发送成功！\n\n📝 选中的选项：\n• 甲\n\n📝 补充说明：\n嗯")
    );
    assert!(matches!(step.emit, Some(TelegramEvent::SendPressed)));
    assert!(step.unregister);
    assert!(step.finished);
    let step = forward_session_event(SessionEvent::Action(SessionAction::Send), true, None, None);
    assert_eq!(step.feedback.as_deref(), Some("✅ 发送成功！\n\n📝 选中的选项：\n• 无"));
}

#[test]
fn a_continue_is_forwarded_and_ends_the_session() {
    let step = forward_session_event(
        SessionEvent::Action(SessionAction::Continue),
        true,
        Some((list(&["甲"]), "嗯".to_string())),
        Some("接着做"),
    );
    assert_eq!(
        step.feedback.as_deref(),
        Some("✅ 发送成功！\n\n📝 选中的选项：\n• ⏩ 接着做")
    );
    assert!(matches!(step.emit, Some(TelegramEvent::ContinuePressed)));
    assert!(step.unregister && step.finished);
}

#[test]
fn an_action_without_a_dispatcher_ends_quietly() {
    for action in [SessionAction::Send, SessionAction::Continue] {
        let step = forward_session_event(SessionEvent::Action(action), false, None, None);
        assert!(step.feedback.is_none());
        assert!(step.emit.is_none());
        assert!(!step.unregister);
        assert!(step.finished);
    }
}

#[test]
fn other_events_are_forwarded_as_they_are() {
    for present in [true, false] {
        let event = TelegramEvent::TextUpdated { text: "x".to_string() };
        let step = forward_session_event(SessionEvent::Telegram(event), present, None, None);
        assert!(step.feedback.is_none());
        assert!(!step.unregister && !step.finished);
        match step.emit {
            Some(TelegramEvent::TextUpdated { text }) => assert_eq!(text, "x"),
            other => panic!("{other:?}"),
        }
    }
    assert_eq!(state_or_empty(None), (Vec::new(), String::new()));
}

#[test]
fn a_request_is_answered_with_what_was_sent() {
    let step = handle_session_event(
        &SessionEvent::Action(SessionAction::Send),
        Some((list(&["甲"]), "嗯".to_string())),
        "test-001",
        None,
    );
    match step {
        McpStep::Finish {
            response: McpResponse::Send { user_input, selected_options, request_id, source },
            feedback,
        } => {
            assert_eq!(user_input.as_deref(), Some("嗯"));
            assert_eq!(selected_options, ["甲"]);
            assert_eq!(request_id, "test-001");
            assert_eq!(source, "telegram");
            assert_eq!(feedback, "✅ 发送成功！\n\n📝 选中的选项：\n• 甲\n\n📝 补充说明：\n嗯");
        }
        other => panic!("{other:?}"),
    }
    match handle_session_event(&SessionEvent::Action(SessionAction::Send), None, "r", None) {
        McpStep::Finish { response: McpResponse::Send { user_input, selected_options, .. }, .. } => {
            assert_eq!(user_input, None);
            assert!(selected_options.is_empty());
        }
        other => panic!("{other:?}"),
    }
}

#[test]
fn a_request_is_answered_with_continue() {
    let step = handle_session_event(
        &SessionEvent::Action(SessionAction::Continue),
        Some((list(&["甲"]), "嗯".to_string())),
        "test-001",
        None,
    );
    match step {
        McpStep::Finish { response: McpResponse::Continue { request_id, source }, feedback } => {
            assert_eq!(request_id, "test-001");
            assert_eq!(source, "telegram_continue");
            assert_eq!(
                feedback,
                "✅ 发送成功！\n\n📝 选中的选项：\n• ⏩ 请按照最佳实践继续"
            );
        }
        other => panic!("{other:?}"),
    }
    let toggled = TelegramEvent::OptionToggled { option: "甲".to_string(), selected: true };
    let step = handle_session_event(&SessionEvent::Telegram(toggled), None, "r", None);
    assert!(matches!(step, McpStep::Wait));
}

#[test]
fn a_request_may_name_no_options() {
    let mut request = PopupRequest {
        id: "r".to_string(),
        message: "m".to_string(),
        predefined_options: None,
        is_markdown: false,
        client_name: None,
    };
    assert!(request_options(&request).is_empty());
    request.predefined_options = Some(list(&["a", "b"]));
    assert_eq!(request_options(&request), ["a", "b"]);
}

#[test]
fn an_integration_reports_the_error_of_its_bot() {
    assert!(matches!(
        TelegramIntegration::new("t".to_string(), "@x".to_string()),
        Err(TelegramError::UsernameChatId)
    ));
    let url = Some("http://A".to_string());
    let chat =
        TelegramIntegration::new_with_api_url("t".to_string(), "42".to_string(), url).unwrap();
    assert_eq!(chat.telegram_core().api_url.as_deref(), Some("http://a/"));
    assert!(chat.get_selected_options().is_empty());
    assert_eq!(chat.get_user_input(), "");
}

#[test]
fn an_integration_puts_its_request() {
    let mut chat = TelegramIntegration::new("t".to_string(), "42".to_string()).unwrap();
    let request = chat.send_mcp_request("问题", list(&["甲"]), true, false).unwrap();
    assert_eq!((request.chat_id, request.text.as_str()), (42, "问题"));
    assert_eq!(request.format, TextFormat::ConvertedMarkdown);
    let keyboard = request.keyboard.unwrap().inline_keyboard;
    assert_eq!(keyboard.len(), 2);
    assert_eq!(keyboard[0][0].callback_data, "t:0");
    assert_eq!(keyboard[1][0].callback_data, "action:send");
}

#[test]
fn an_integration_follows_presses() {
    let mut chat = TelegramIntegration::new("t".to_string(), "42".to_string()).unwrap();
    chat.send_mcp_request("q", list(&["甲", "乙"]), false, true).unwrap();
    let mut listener = chat.start_message_listener();
    let reply = chat.handle_callback(&mut listener, &press("t:1", 42, 9));
    assert!(reply.answer);
    let outcome = chat.apply_action(&listener, reply.action.unwrap());
    match outcome.event {
        TelegramEvent::OptionToggled { option, selected } => {
            assert_eq!((option.as_str(), selected), ("乙", true));
        }
        other => panic!("{other:?}"),
    }
    let edit = outcome.edit.unwrap();
    assert_eq!((edit.chat_id, edit.message_id), (42, 9));
    assert_eq!(edit.keyboard.inline_keyboard[0][1].text, "✅ 乙");
    assert_eq!(chat.get_selected_options(), ["乙"]);
    let outcome =
        chat.apply_action(&listener, CallbackAction::OptionToggled("乙".to_string()));
    assert!(matches!(outcome.event, TelegramEvent::OptionToggled { selected: false, .. }));
    assert!(chat.get_selected_options().is_empty());
    for (action, name) in [(ActionEvent::Send, "send"), (ActionEvent::Continue, "continue")] {
        let outcome = chat.apply_action(&listener, CallbackAction::ActionEvent(action));
        assert!(outcome.edit.is_none());
        assert_eq!(matches!(outcome.event, TelegramEvent::SendPressed), name == "send");
        assert_eq!(matches!(outcome.event, TelegramEvent::ContinuePressed), name == "continue");
    }
    let reply = chat.handle_callback(&mut listener, &press("t:0", 43, 9));
    assert!(!reply.answer);
    assert!(reply.action.is_none());
}

#[test]
fn an_integration_edits_only_a_known_message() {
    let mut chat = TelegramIntegration::new("t".to_string(), "42".to_string()).unwrap();
    chat.send_mcp_request("q", list(&["甲"]), false, true).unwrap();
    let mut listener = chat.start_message_listener();
    let query = CallbackQuery { message: None, data: Some("t:0".to_string()) };
    let reply = chat.handle_callback(&mut listener, &query);
    let outcome = chat.apply_action(&listener, reply.action.unwrap());
    assert!(outcome.edit.is_none());
    assert!(chat.handle_message(&mut listener, &message(1, 50, None, Some("x:0"))).is_none());
    let outcome = chat.apply_action(&listener, CallbackAction::OptionToggled("甲".to_string()));
    assert!(outcome.edit.is_none());
    for (data, id) in [("t:0", 51), ("action:send", 52)] {
        assert!(chat.handle_message(&mut listener, &message(1, id, None, Some(data))).is_none());
        let outcome =
            chat.apply_action(&listener, CallbackAction::OptionToggled("甲".to_string()));
        assert_eq!(outcome.edit.unwrap().message_id, id);
    }
    chat.handle_callback(&mut listener, &press("t:0", 42, 60));
    let outcome = chat.apply_action(&listener, CallbackAction::OptionToggled("甲".to_string()));
    assert_eq!(outcome.edit.unwrap().message_id, 52);
}

#[test]
fn an_integration_keeps_the_text_between_requests() {
    let mut chat = TelegramIntegration::new("t".to_string(), "42".to_string()).unwrap();
    chat.send_mcp_request("q", list(&["甲"]), false, true).unwrap();
    let mut listener = chat.start_message_listener();
    let event = chat.handle_message(&mut listener, &message(42, 5, Some("嗯"), None));
    assert!(matches!(event, Some(TelegramEvent::TextUpdated { .. })));
    let event = chat.handle_message(&mut listener, &message(42, 6, Some("/heng_send"), None));
    assert!(matches!(event, Some(TelegramEvent::SendPressed)));
    assert!(chat.handle_message(&mut listener, &message(43, 7, Some("别"), None)).is_none());
    assert_eq!(chat.get_user_input(), "嗯");
    chat.apply_action(&listener, CallbackAction::OptionToggled("甲".to_string()));
    chat.send_mcp_request("q2", list(&["乙"]), false, true).unwrap();
    assert!(chat.get_selected_options().is_empty());
    assert_eq!(chat.get_user_input(), "嗯");
}

#[test]
fn an_integration_agrees_with_its_events() {
    let mut chat = TelegramIntegration::new("t".to_string(), "42".to_string()).unwrap();
    chat.send_mcp_request("q", list(&["甲", "乙", "丙"]), false, true).unwrap();
    let mut listener = chat.start_message_listener();
    for data in ["t:2", "t:0", "t:1", "t:9", "toggle:丁", "t:2", "action:send", "t:2", "t:0"] {
        let reply = chat.handle_callback(&mut listener, &press(data, 42, 9));
        if let Some(action) = reply.action {
            let outcome = chat.apply_action(&listener, action);
            if let TelegramEvent::OptionToggled { option, selected } = outcome.event {
                assert_eq!(chat.get_selected_options().contains(&option), selected);
            }
        }
    }
    assert_eq!(chat.get_selected_options(), ["乙", "丙"]);
}
