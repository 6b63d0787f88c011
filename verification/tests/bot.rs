use hengjing::error::TelegramError;
use hengjing::keyboard::InlineKeyboardMarkup;
use hengjing::telegram_core::{
    build_feedback_message, check_connection, connection_tested, handle_callback_query,
    handle_text_message, has_arrived, name_client, option_at, option_named, parse_command,
    test_telegram_connection, test_telegram_connection_with_api_url, ActionEvent, CallbackAction,
    TelegramCore, TelegramEvent,
};
use hengjing::update::{next_offset, CallbackQuery, Message, MessageRef, Poller, TextFormat};

fn list(items: &[&str]) -> Vec<String> {
    items.iter().map(|s| s.to_string()).collect()
}

fn chat_bot() -> TelegramCore {
    TelegramCore::new("1:token".to_string(), "42".to_string()).unwrap()
}

fn rows(keyboard: &InlineKeyboardMarkup) -> Vec<Vec<(&str, &str)>> {
    keyboard
        .inline_keyboard
        .iter()
        .map(|row| row.iter().map(|b| (b.text.as_str(), b.callback_data.as_str())).collect())
        .collect()
}

fn press(data: Option<&str>, chat_id: Option<i64>) -> CallbackQuery {
    CallbackQuery {
        message: chat_id.map(|chat_id| MessageRef { chat_id, message_id: 7 }),
        data: data.map(|d| d.to_string()),
    }
}

fn message(chat_id: i64, message_id: i32, text: Option<&str>) -> Message {
    Message {
        chat_id,
        message_id,
        text: text.map(|t| t.to_string()),
        reply_to: None,
        buttons: Vec::new(),
    }
}

#[test]
fn a_bot_needs_a_chat_number() {
    let bot = TelegramCore::new("1:token".to_string(), "-1001234567890".to_string()).unwrap();
    assert_eq!(bot.bot_token, "1:token");
    assert_eq!(bot.chat_id, -1001234567890);
    assert_eq!(bot.api_url, None);
    let error = TelegramCore::new("t".to_string(), "@someone".to_string()).unwrap_err();
    assert!(matches!(error, TelegramError::UsernameChatId));
    assert_eq!(error.message(), "暂不支持@username格式，请使用数字Chat ID");
    for chat in ["", "x", " 42", "4 2", "9223372036854775808"] {
        let error = TelegramCore::new("t".to_string(), chat.to_string()).unwrap_err();
        assert!(matches!(error, TelegramError::InvalidChatId));
        assert_eq!(error.message(), "无效的Chat ID格式，请使用数字ID");
    }
}

#[test]
fn an_api_address_is_brought_to_its_normal_form() {
    let bot = TelegramCore::new_with_api_url(
        "t".to_string(),
        "42".to_string(),
        Some("HTTPS://Proxy.Example.COM:443/a/../bot".to_string()),
    )
    .unwrap();
    assert_eq!(bot.api_url.as_deref(), Some("https://proxy.example.com/bot"));
    let plain = TelegramCore::new_with_api_url("t".to_string(), "42".to_string(), None).unwrap();
    assert_eq!(plain.api_url, None);
}

#[test]
fn a_bad_api_address_is_reported_before_the_chat() {
    let error = TelegramCore::new_with_api_url(
        "t".to_string(),
        "@someone".to_string(),
        Some("not an address".to_string()),
    )
    .unwrap_err();
    assert_eq!(error.message(), "无效的API URL格式: relative URL without a base");
    let error = TelegramCore::with_parsed_url(
        "t".to_string(),
        "x".to_string(),
        Some(Err("words".to_string())),
    )
    .unwrap_err();
    assert_eq!(error.message(), "无效的API URL格式: words");
    let bot = TelegramCore::with_parsed_url(
        "t".to_string(),
        "1".to_string(),
        Some(Ok("http://a/".to_string())),
    )
    .unwrap();
    assert_eq!(bot.api_url.as_deref(), Some("http://a/"));
}

#[test]
fn messages_go_to_the_chat() {
    let request = chat_bot().send_message("你好 *x*");
    assert_eq!(request.chat_id, 42);
    assert_eq!(request.text, "你好 *x*");
    assert_eq!(request.format, TextFormat::Plain);
    assert!(request.keyboard.is_none());
    let request = chat_bot().send_message_with_markdown("*x*", true);
    assert_eq!(request.text, "*x*");
    assert_eq!(request.format, TextFormat::MarkdownV2);
    assert_eq!(chat_bot().send_message_with_markdown("x", false).format, TextFormat::Plain);
}

#[test]
fn a_keyboard_has_two_options_to_a_row() {
    let keyboard = TelegramCore::create_inline_keyboard(
        &list(&["甲", "乙", "丙"]),
        &list(&["乙"]),
        true,
    )
    .unwrap();
    assert_eq!(
        rows(&keyboard),
        vec![
            vec![("甲", "t:0"), ("✅ 乙", "t:1")],
            vec![("丙", "t:2")],
            vec![("⏩ 继续", "action:continue"), ("↗️ 发送", "action:send")],
        ]
    );
}

#[test]
fn a_keyboard_without_options_has_actions_only() {
    let keyboard = TelegramCore::create_inline_keyboard(&[], &[], false).unwrap();
    assert_eq!(rows(&keyboard), vec![vec![("↗️ 发送", "action:send")]]);
    let keyboard = TelegramCore::create_inline_keyboard(&list(&["a", "b"]), &[], false).unwrap();
    assert_eq!(
        rows(&keyboard),
        vec![vec![("a", "t:0"), ("b", "t:1")], vec![("↗️ 发送", "action:send")]]
    );
}

#[test]
fn equal_options_are_ticked_together() {
    let keyboard =
        TelegramCore::create_inline_keyboard(&list(&["a", "a"]), &list(&["a"]), false).unwrap();
    assert_eq!(rows(&keyboard)[0], vec![("✅ a", "t:0"), ("✅ a", "t:1")]);
}

#[test]
fn a_button_sends_back_few_bytes() {
    let long = "长".repeat(200);
    let options: Vec<String> = (0..30).map(|i| format!("{long}{i}")).collect();
    let keyboard = TelegramCore::create_inline_keyboard(&options, &options, true).unwrap();
    for row in rows(&keyboard) {
        assert!(row.len() <= 2);
        for (_, data) in row {
            assert!(data.len() <= 64);
        }
    }
    assert_eq!(rows(&keyboard)[14][1].1, "t:29");
}

#[test]
fn an_options_message_names_its_client() {
    let request = chat_bot()
        .send_options_message("选吧", &list(&["a"]), true, Some("Cursor"), true)
        .unwrap();
    assert_eq!(request.chat_id, 42);
    assert_eq!(request.text, "[Cursor]\n\n选吧");
    assert_eq!(request.format, TextFormat::ConvertedMarkdown);
    assert_eq!(rows(&request.keyboard.unwrap()).len(), 2);
    let request = chat_bot().send_options_message("m", &[], false, Some(""), false).unwrap();
    assert_eq!(request.text, "m");
    assert_eq!(request.format, TextFormat::Plain);
    assert_eq!(name_client(None, "m"), "m");
}

#[test]
fn an_edit_shows_the_selection() {
    let edit = chat_bot()
        .update_inline_keyboard(9, &list(&["a", "b"]), &list(&["b"]), false)
        .unwrap();
    assert_eq!(edit.chat_id, 42);
    assert_eq!(edit.message_id, 9);
    assert_eq!(rows(&edit.keyboard)[0], vec![("a", "t:0"), ("✅ b", "t:1")]);
}

#[test]
fn an_unread_reply_that_says_ok_is_success() {
    let arrived = "An error while parsing JSON: x (raw: \"{\\\"ok\\\":true}\")";
    assert!(has_arrived(arrived));
    assert!(!has_arrived("parsing JSON failed"));
    assert!(!has_arrived("{\\\"ok\\\":true}"));
    assert!(!has_arrived("parsing JSON \"ok\":true"));
    assert!(TelegramCore::options_message_sent(Ok(())).is_ok());
    assert!(TelegramCore::options_message_sent(Err(arrived.to_string())).is_ok());
    let error = TelegramCore::options_message_sent(Err("timeout".to_string())).unwrap_err();
    assert_eq!(error.message(), "发送选项消息失败: timeout");
    assert!(TelegramCore::message_sent(Ok(())).is_ok());
    let error = TelegramCore::message_sent(Err(arrived.to_string())).unwrap_err();
    assert_eq!(error.message(), format!("发送消息失败: {arrived}"));
}

#[test]
fn a_press_names_an_option_or_an_action() {
    let options = list(&["甲", "乙:1", "乙"]);
    let ask = |data: &str| handle_callback_query(&press(Some(data), Some(42)), 42, &options);
    let option = |data: &str| match ask(data).action {
        Some(CallbackAction::OptionToggled(option)) => Some(option),
        _ => None,
    };
    assert_eq!(option("t:0").as_deref(), Some("甲"));
    assert_eq!(option("t:+2").as_deref(), Some("乙"));
    assert_eq!(option("t:3"), None);
    assert_eq!(option("t:x"), None);
    assert_eq!(option("t:"), None);
    assert_eq!(option("toggle:乙:1").as_deref(), Some("乙:1"));
    assert_eq!(option("toggle:丁"), None);
    assert_eq!(option("甲"), None);
    assert!(ask("t:3").answer);
    assert!(matches!(
        ask("action:send").action,
        Some(CallbackAction::ActionEvent(ActionEvent::Send))
    ));
    assert!(matches!(
        ask("action:continue").action,
        Some(CallbackAction::ActionEvent(ActionEvent::Continue))
    ));
    assert_eq!(option_at("1", &options).as_deref(), Some("乙:1"));
    assert_eq!(option_named("toggle:甲", &options).as_deref(), Some("甲"));
}

#[test]
fn every_button_names_what_it_shows() {
    let options = list(&["a", "b", "c", "d", "e"]);
    let keyboard = TelegramCore::create_inline_keyboard(&options, &[], true).unwrap();
    for (text, data) in rows(&keyboard).concat() {
        let reply = handle_callback_query(&press(Some(data), Some(42)), 42, &options);
        match reply.action.unwrap() {
            CallbackAction::OptionToggled(option) => assert_eq!(option, text),
            CallbackAction::ActionEvent(ActionEvent::Send) => assert_eq!(text, "↗️ 发送"),
            CallbackAction::ActionEvent(ActionEvent::Continue) => assert_eq!(text, "⏩ 继续"),
        }
    }
}

#[test]
fn a_press_in_another_chat_is_left_alone() {
    let options = list(&["a"]);
    let reply = handle_callback_query(&press(Some("t:0"), Some(43)), 42, &options);
    assert!(!reply.answer);
    assert!(reply.action.is_none());
    let reply = handle_callback_query(&press(Some("t:0"), None), 42, &options);
    assert!(reply.answer);
    assert!(reply.action.is_some());
    let reply = handle_callback_query(&press(None, Some(42)), 42, &options);
    assert!(reply.answer);
    assert!(reply.action.is_none());
}

#[test]
fn commands_are_exact() {
    for text in ["⏩继续", "/heng_continue", "/heng-continue"] {
        assert_eq!(parse_command(text), Some(ActionEvent::Continue));
        assert!(matches!(
            handle_text_message(&message(42, 1, Some(text)), 42, None),
            Some(TelegramEvent::ContinuePressed)
        ));
    }
    for text in ["↗️发送", "/heng_send", "/heng-send"] {
        assert_eq!(parse_command(text), Some(ActionEvent::Send));
        assert!(matches!(
            handle_text_message(&message(42, 1, Some(text)), 42, None),
            Some(TelegramEvent::SendPressed)
        ));
    }
    for text in ["⏩ 继续", "/HENG_SEND", "/heng_send ", "", "发送"] {
        assert_eq!(parse_command(text), None);
    }
}

#[test]
fn texts_are_filtered_by_chat_and_number() {
    let text = |m: Message, after: Option<i32>| match handle_text_message(&m, 42, after) {
        Some(TelegramEvent::TextUpdated { text }) => Some(text),
        _ => None,
    };
    assert_eq!(text(message(42, 5, Some("你好")), None).as_deref(), Some("你好"));
    assert_eq!(text(message(43, 5, Some("你好")), None), None);
    assert_eq!(text(message(42, 5, Some("x")), Some(5)), None);
    assert_eq!(text(message(42, 6, Some("x")), Some(5)).as_deref(), Some("x"));
    assert_eq!(text(message(42, 5, None), None), None);
}

#[test]
fn feedback_lists_what_was_sent() {
    assert_eq!(
        build_feedback_message(&[], "", false, None),
        "✅ 发送成功！\n\n📝 选中的选项：\n• 无"
    );
    assert_eq!(
        build_feedback_message(&list(&["甲", "乙"]), "", false, None),
        "✅ 发送成功！\n\n📝 选中的选项：\n• 甲\n• 乙\n"
    );
    assert_eq!(
        build_feedback_message(&list(&["甲"]), "再快点", false, Some("p")),
        "✅ 发送成功！\n\n📝 选中的选项：\n• 甲\n\n📝 补充说明：\n再快点"
    );
    assert_eq!(
        build_feedback_message(&[], "x", false, None),
        "✅ 发送成功！\n\n📝 选中的选项：\n• 无\n📝 补充说明：\nx"
    );
}

#[test]
fn feedback_of_continue_shows_the_prompt() {
    assert_eq!(
        build_feedback_message(&list(&["甲"]), "x", true, Some("继续干")),
        "✅ 发送成功！\n\n📝 选中的选项：\n• ⏩ 继续干"
    );
    assert_eq!(
        build_feedback_message(&[], "", true, None),
        "✅ 发送成功！\n\n📝 选中的选项：\n• ⏩ 请按照最佳实践继续"
    );
}

#[test]
fn a_connection_test_checks_its_input_in_order() {
    let error = test_telegram_connection(" \n", "").unwrap_err();
    assert!(matches!(error, TelegramError::EmptyBotToken));
    assert_eq!(error.message(), "Bot Token不能为空");
    let error =
        test_telegram_connection_with_api_url("t", "\u{3000}", Some("bad")).unwrap_err();
    assert!(matches!(error, TelegramError::EmptyChatId));
    assert_eq!(error.message(), "Chat ID不能为空");
    let error = test_telegram_connection_with_api_url("t", "x", Some("bad")).unwrap_err();
    assert_eq!(error.message(), "无效的API URL格式: relative URL without a base");
    let error = test_telegram_connection("t", "@someone").unwrap_err();
    assert!(matches!(error, TelegramError::InvalidTestChatId));
    assert_eq!(error.message(), "Chat ID格式无效，请输入有效的数字ID");
    let error = check_connection("t", "1", Some(Err("e".to_string()))).unwrap_err();
    assert_eq!(error.message(), "无效的API URL格式: e");
}

#[test]
fn a_connection_test_sends_the_test_message() {
    let (bot, request) =
        test_telegram_connection_with_api_url("1:t", "42", Some("http://localhost:8081")).unwrap();
    assert_eq!(bot.bot_token, "1:t");
    assert_eq!(bot.chat_id, 42);
    assert_eq!(bot.api_url.as_deref(), Some("http://localhost:8081/"));
    assert_eq!(request.chat_id, 42);
    assert_eq!(
        request.text,
        "🤖 恒境应用测试消息\n\n这是一条来自恒境应用的测试消息，表示Telegram Bot配置成功！"
    );
    assert_eq!(request.format, TextFormat::Plain);
    assert_eq!(
        connection_tested(Ok(())).unwrap(),
        "测试消息发送成功！Telegram Bot配置正确。"
    );
    let error = connection_tested(Err("401".to_string())).unwrap_err();
    assert_eq!(error.message(), "发送测试消息失败: 401");
}

#[test]
fn an_update_number_is_followed_by_the_next() {
    assert_eq!(next_offset(0), 1);
    assert_eq!(next_offset(0x7fff_fffe), i32::MAX);
    assert_eq!(next_offset(0x8000_0000), i32::MIN + 1);
    assert_eq!(next_offset(u32::MAX), 0);
}

#[test]
fn polling_goes_on_after_the_last_update() {
    let mut poller = Poller::after_waiting(None);
    assert_eq!(poller.offset(), 0);
    assert!(!poller.take_batch(Some(&[5, 9])));
    assert_eq!(poller.offset(), 10);
    assert!(!poller.take_batch(Some(&[])));
    assert_eq!(poller.offset(), 10);
    assert!(poller.take_batch(None));
    assert_eq!(poller.offset(), 10);
    assert!(!poller.take_batch(Some(&[10, 11])));
    assert_eq!(poller.offset(), 12);
}

#[test]
fn polling_begins_after_the_updates_that_wait() {
    assert_eq!(Poller::after_waiting(None).offset(), 0);
    assert_eq!(Poller::after_waiting(Some(&[])).offset(), 0);
    assert_eq!(Poller::after_waiting(Some(&[31])).offset(), 32);
    assert_eq!(Poller::after_waiting(Some(&[0x7fff_ffff, 5])).offset(), 6);
}

#[test]
fn an_update_that_arrives_after_the_look_is_taken() {
    let mut queue: Vec<u32> = vec![1, 2, 3];
    let mut poller = Poller::after_waiting(Some(&queue));
    queue.push(4);
    let batch: Vec<u32> =
        queue.iter().copied().filter(|id| *id as i32 >= poller.offset()).collect();
    assert_eq!(batch, [4]);
    assert!(!poller.take_batch(Some(&batch)));
    assert_eq!(poller.offset(), 5);
}

#[test]
fn each_polled_update_is_taken_once() {
    let queue: Vec<u32> = (100..125).collect();
    let mut poller = Poller::after_waiting(None);
    let mut taken: Vec<u32> = Vec::new();
    for round in 0..12 {
        if round % 3 == 1 {
            assert!(poller.take_batch(None));
            continue;
        }
        let batch: Vec<u32> =
            queue.iter().copied().filter(|id| *id as i32 >= poller.offset()).take(7).collect();
        poller.take_batch(Some(&batch));
        taken.extend(batch);
    }
    assert_eq!(taken, queue);
}

#[test]
fn an_event_is_written_as_a_json_object() {
    let toggled = TelegramEvent::OptionToggled { option: "甲".to_string(), selected: true };
    let object = toggled.to_json();
    assert_eq!(object.len(), 3);
    assert_eq!(object["type"], "option_toggled");
    assert_eq!(object["option"], "甲");
    assert_eq!(object["selected"], true);
    let object = TelegramEvent::TextUpdated { text: "嗯".to_string() }.to_json();
    assert_eq!(object.len(), 2);
    assert_eq!(object["type"], "text_updated");
    assert_eq!(object["text"], "嗯");
    let object = TelegramEvent::ContinuePressed.to_json();
    assert_eq!(object.len(), 1);
    assert_eq!(object["type"], "continue_pressed");
    let object = TelegramEvent::SendPressed.to_json();
    assert_eq!(object.len(), 1);
    assert_eq!(object["type"], "send_pressed");
}
