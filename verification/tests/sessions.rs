use hengjing::commands::request_id_or_random;
use hengjing::dispatcher::{
    create_inline_keyboard_with_id, dispatcher_change, polling_must_start, same_config, Delivery,
    DispatchOutcome, DispatcherChange, DispatcherConfig, PollingState, SessionAction, SessionEvent,
    TelegramDispatcher,
};
use hengjing::error::TelegramError;
use hengjing::keyboard::InlineKeyboardMarkup;
use hengjing::mcp_handler::{handle_session_event, McpResponse, McpStep};
use hengjing::telegram_core::TelegramEvent;
use hengjing::update::{CallbackQuery, Message, MessageRef, TextFormat, UpdateKind};

fn list(items: &[&str]) -> Vec<String> {
    items.iter().map(|s| s.to_string()).collect()
}

fn config(bot_token: &str, chat_id: &str, api_url: Option<&str>) -> DispatcherConfig {
    DispatcherConfig {
        bot_token: bot_token.to_string(),
        chat_id: chat_id.to_string(),
        api_url: api_url.map(|u| u.to_string()),
    }
}

fn dispatcher() -> TelegramDispatcher {
    TelegramDispatcher::new(config("1:t", "42", None)).unwrap()
}

fn two_sessions() -> TelegramDispatcher {
    let mut d = dispatcher();
    d.register_session("aaaaaa-1".to_string(), list(&["甲", "乙", "丙"]), true);
    d.register_session("bbbbbb-2".to_string(), list(&["x"]), false);
    d.set_session_message_id("aaaaaa", 100);
    d.set_session_message_id("bbbbbb", 200);
    d
}

fn rows(keyboard: &InlineKeyboardMarkup) -> Vec<Vec<(&str, &str)>> {
    keyboard
        .inline_keyboard
        .iter()
        .map(|row| row.iter().map(|b| (b.text.as_str(), b.callback_data.as_str())).collect())
        .collect()
}

fn press(data: Option<&str>, chat_id: i64, message_id: i32) -> CallbackQuery {
    CallbackQuery {
        message: Some(MessageRef { chat_id, message_id }),
        data: data.map(|d| d.to_string()),
    }
}

fn message(text: Option<&str>, reply_to: Option<i32>) -> Message {
    Message {
        chat_id: 42,
        message_id: 300,
        text: text.map(|t| t.to_string()),
        reply_to,
        buttons: Vec::new(),
    }
}

fn action(delivery: &Option<Delivery>) -> Option<(&str, SessionAction)> {
    match delivery {
        Some(Delivery { request_id_short, event: SessionEvent::Action(action) }) => {
            Some((request_id_short, *action))
        }
        _ => None,
    }
}

fn toggle(delivery: &Option<Delivery>) -> Option<(&str, &str, bool)> {
    match delivery {
        Some(Delivery {
            request_id_short,
            event: SessionEvent::Telegram(TelegramEvent::OptionToggled { option, selected }),
        }) => Some((request_id_short, option, *selected)),
        _ => None,
    }
}

fn entered(delivery: &Option<Delivery>) -> Option<(&str, &str)> {
    match delivery {
        Some(Delivery {
            request_id_short,
            event: SessionEvent::Telegram(TelegramEvent::TextUpdated { text }),
        }) => Some((request_id_short, text)),
        _ => None,
    }
}

fn only_answered(outcome: &DispatchOutcome) -> bool {
    outcome.answer
        && outcome.delivery.is_none()
        && outcome.edit.is_none()
        && outcome.hint.is_none()
}

fn nothing(outcome: &DispatchOutcome) -> bool {
    !outcome.answer
        && outcome.delivery.is_none()
        && outcome.edit.is_none()
        && outcome.hint.is_none()
}

#[test]
fn a_dispatcher_reports_the_error_of_its_bot() {
    let error = TelegramDispatcher::new(config("t", "@x", None)).unwrap_err();
    assert!(matches!(error, TelegramError::UsernameChatId));
    let error = TelegramDispatcher::new(config("t", "x", None)).unwrap_err();
    assert!(matches!(error, TelegramError::InvalidChatId));
    let error = TelegramDispatcher::new(config("t", "1", Some("::"))).unwrap_err();
    assert!(matches!(error, TelegramError::InvalidApiUrl(_)));
    let d = TelegramDispatcher::new(config("t", "1", Some("http://a"))).unwrap();
    assert_eq!(d.telegram_core().api_url.as_deref(), Some("http://a/"));
    assert_eq!(d.telegram_core().bot_token, "t");
    assert_eq!(d.active_session_count(), 0);
}

#[test]
fn short_ids_grow_where_they_meet() {
    let mut d = dispatcher();
    let id = "0123456789abcdef";
    assert_eq!(d.register_session(id.to_string(), Vec::new(), true), ("012345".to_string(), 1));
    assert_eq!(d.register_session(id.to_string(), Vec::new(), true), ("01234567".to_string(), 2));
    assert_eq!(d.short_id_for(id).as_deref(), Some("0123456789"));
    assert_eq!(d.short_id_for("012345").as_deref(), Some("012345+"));
    assert_eq!(d.short_id_for("01234567").as_deref(), Some("01234567+"));
    assert_eq!(d.short_id_for("012345678").as_deref(), Some("012345678"));
    assert_eq!(d.short_id_for("01234").as_deref(), Some("01234"));
    assert_eq!(d.short_id_for("").as_deref(), Some(""));
    assert_eq!(d.active_session_count(), 2);
}

#[test]
fn a_cut_through_a_character_gives_no_short_id() {
    let mut d = dispatcher();
    assert_eq!(d.short_id_for("请求编号").as_deref(), Some("请求"));
    assert_eq!(d.short_id_for("ab请求编号"), None);
    assert_eq!(d.short_id_for("é").as_deref(), Some("é"));
    d.register_session("请求编号".to_string(), Vec::new(), true);
    assert_eq!(d.short_id_for("请求编号"), None);
}

#[test]
fn a_request_never_replaces_one_that_waits() {
    let mut d = dispatcher();
    let first = d.register_session("abc".to_string(), list(&["x"]), true);
    assert_eq!(first, ("abc".to_string(), 1));
    d.handle_callback_dispatch(&press(Some("t:abc:0"), 42, 1));
    assert_eq!(d.get_session_state("abc").unwrap().0, ["x"]);
    let again = d.register_session("abc".to_string(), list(&["y"]), true);
    assert_eq!(again, ("abc+".to_string(), 2));
    let third = d.register_session("abc".to_string(), list(&["z"]), true);
    assert_eq!(third, ("abc++".to_string(), 3));
    assert_eq!(d.active_session_count(), 3);
    assert_eq!(d.get_session_state("abc").unwrap().0, ["x"]);
    assert!(d.get_session_state("abc+").unwrap().0.is_empty());
    let outcome = d.handle_callback_dispatch(&press(Some("t:abc+:0"), 42, 2));
    assert_eq!(toggle(&outcome.delivery), Some(("abc+", "y", true)));
}

#[test]
fn a_whole_id_may_be_the_beginning_of_another() {
    let mut d = dispatcher();
    for (request_id, short) in
        [("abcdef12", "abcdef"), ("abcdef34xy", "abcdef34"), ("abcdef34", "abcdef34+")]
    {
        assert_eq!(d.register_session(request_id.to_string(), Vec::new(), true).0, short);
    }
    assert_eq!(d.active_session_count(), 3);
}

#[test]
fn the_nth_request_has_the_number_n() {
    let mut d = dispatcher();
    for n in 1..20u32 {
        let (id, number) = d.register_session(format!("request-{n}"), Vec::new(), true);
        assert_eq!(number, n);
        if n % 3 != 0 {
            d.unregister_session(&id);
        }
    }
}

#[test]
fn sessions_come_and_go() {
    let mut d = two_sessions();
    assert_eq!(d.active_session_count(), 2);
    assert_eq!(d.get_session_state("aaaaaa"), Some((Vec::new(), String::new())));
    assert_eq!(d.get_session_state("aaaaaa-1"), None);
    assert!(!d.unregister_session("nobody"));
    assert!(!d.unregister_session("aaaaaa"));
    assert_eq!(d.get_session_state("aaaaaa"), None);
    assert!(d.get_session_state("bbbbbb").is_some());
    assert!(d.unregister_session("bbbbbb"));
    assert!(d.unregister_session("bbbbbb"));
    assert_eq!(d.active_session_count(), 0);
}

#[test]
fn a_session_keyboard_carries_the_id() {
    let keyboard =
        create_inline_keyboard_with_id("abc123", &list(&["a", "b", "c"]), &list(&["c"]), true);
    assert_eq!(
        rows(&keyboard),
        vec![
            vec![("a", "t:abc123:0"), ("b", "t:abc123:1")],
            vec![("✅ c", "t:abc123:2")],
            vec![("⏩ 继续", "a:abc123:c"), ("↗️ 发送", "a:abc123:s")],
        ]
    );
    let keyboard = create_inline_keyboard_with_id("q", &[], &[], false);
    assert_eq!(rows(&keyboard), vec![vec![("↗️ 发送", "a:q:s")]]);
}

#[test]
fn a_session_button_sends_back_few_bytes() {
    let id = "i".repeat(41);
    let options: Vec<String> = (0..200).map(|i| format!("option {i}")).collect();
    let keyboard = create_inline_keyboard_with_id(&id, &options, &[], true);
    for (_, data) in rows(&keyboard).concat() {
        assert!(data.len() <= 64);
    }
}

#[test]
fn a_lone_request_has_no_number_in_its_text() {
    let mut d = dispatcher();
    let opened = d.open_request(
        "request-1".to_string(),
        "问题",
        list(&["a"]),
        true,
        Some("Zed"),
        true,
    );
    assert_eq!(opened.request_id_short, "reques");
    assert_eq!(opened.request.chat_id, 42);
    assert_eq!(opened.request.text, "[Zed]\n\n问题");
    assert_eq!(opened.request.format, TextFormat::ConvertedMarkdown);
    let opened = d.open_request("second".to_string(), "问题", Vec::new(), false, None, false);
    assert_eq!(opened.request.text, "[#2] 问题");
    assert_eq!(opened.request.format, TextFormat::Plain);
    assert_eq!(rows(&opened.request.keyboard.unwrap()), vec![vec![("↗️ 发送", "a:second:s")]]);
    let opened =
        d.open_request("third-".to_string(), "m", Vec::new(), false, Some("Cursor"), false);
    assert_eq!(opened.request.text, "[#3] [Cursor]\n\nm");
    let request = d.send_options_message("third-", 77, "m", &[], false, Some(""), false);
    assert_eq!(request.text, "[#77] m");
}

#[test]
fn a_put_request_knows_its_message() {
    let mut d = two_sessions();
    d.register_session("cccccc".to_string(), Vec::new(), true);
    assert_eq!(d.request_put("cccccc", Ok(900)).unwrap(), 900);
    let outcome = d.handle_message_dispatch(&message(Some("hi"), Some(900)));
    assert_eq!(entered(&outcome.delivery), Some(("cccccc", "hi")));
    assert_eq!(d.options_message_sent("cccccc", Ok(901)).unwrap(), 901);
    let outcome = d.handle_message_dispatch(&message(Some("ho"), Some(901)));
    assert_eq!(entered(&outcome.delivery), Some(("cccccc", "ho")));
    assert!(d.handle_message_dispatch(&message(Some("hi"), Some(900))).delivery.is_none());
}

#[test]
fn a_request_that_was_not_sent_leaves_no_trace() {
    let mut d = dispatcher();
    let opened = d.open_request("first1".to_string(), "m", Vec::new(), false, None, true);
    let failure = d.request_put(&opened.request_id_short, Err("down".to_string())).unwrap_err();
    assert_eq!(failure.error.message(), "发送选项消息失败: down");
    assert!(failure.stop_polling);
    assert_eq!(d.active_session_count(), 0);
    let mut d = two_sessions();
    let opened = d.open_request("first1".to_string(), "m", Vec::new(), false, None, true);
    let failure = d.request_put(&opened.request_id_short, Err("down".to_string())).unwrap_err();
    assert!(!failure.stop_polling);
    assert_eq!(d.active_session_count(), 2);
    assert!(d.get_session_state("first1").is_none());
}

#[test]
fn a_request_whose_reply_was_unread_stays() {
    let words = "parsing JSON: {\\\"ok\\\":true}".to_string();
    let mut d = dispatcher();
    d.register_session("first1".to_string(), Vec::new(), true);
    assert_eq!(d.request_put("first1", Err(words.clone())).unwrap(), 0);
    assert_eq!(d.options_message_sent("first1", Err(words)).unwrap(), 0);
    assert_eq!(d.active_session_count(), 1);
    let error = d.options_message_sent("first1", Err("x".to_string())).unwrap_err();
    assert!(matches!(error, TelegramError::SendOptionsFailed(_)));
    assert_eq!(d.active_session_count(), 1);
}

#[test]
fn an_option_press_toggles_in_its_session() {
    let mut d = two_sessions();
    let outcome = d.dispatch_update(&UpdateKind::CallbackQuery(press(Some("t:aaaaaa:2"), 42, 5)));
    assert!(outcome.answer);
    assert!(outcome.hint.is_none());
    assert_eq!(toggle(&outcome.delivery), Some(("aaaaaa", "丙", true)));
    let edit = outcome.edit.unwrap();
    assert_eq!((edit.chat_id, edit.message_id), (42, 100));
    assert_eq!(
        rows(&edit.keyboard),
        vec![
            vec![("甲", "t:aaaaaa:0"), ("乙", "t:aaaaaa:1")],
            vec![("✅ 丙", "t:aaaaaa:2")],
            vec![("⏩ 继续", "a:aaaaaa:c"), ("↗️ 发送", "a:aaaaaa:s")],
        ]
    );
    d.handle_callback_dispatch(&press(Some("t:aaaaaa:0"), 42, 5));
    assert_eq!(d.get_session_state("aaaaaa").unwrap().0, ["丙", "甲"]);
    assert!(d.get_session_state("bbbbbb").unwrap().0.is_empty());
    let outcome = d.handle_callback_dispatch(&press(Some("t:aaaaaa:2"), 42, 5));
    assert_eq!(toggle(&outcome.delivery), Some(("aaaaaa", "丙", false)));
    assert_eq!(d.get_session_state("aaaaaa").unwrap().0, ["甲"]);
}

#[test]
fn a_press_tells_a_session_its_message() {
    let mut d = dispatcher();
    d.register_session("aaaaaa".to_string(), list(&["x"]), true);
    let query = CallbackQuery { message: None, data: Some("t:aaaaaa:0".to_string()) };
    let outcome = d.handle_callback_dispatch(&query);
    assert_eq!(toggle(&outcome.delivery), Some(("aaaaaa", "x", true)));
    assert!(outcome.edit.is_none());
    let outcome = d.handle_callback_dispatch(&press(Some("t:aaaaaa:0"), 42, 11));
    assert_eq!(outcome.edit.unwrap().message_id, 11);
    let outcome = d.handle_callback_dispatch(&press(Some("t:aaaaaa:0"), 42, 12));
    assert_eq!(outcome.edit.unwrap().message_id, 11);
}

#[test]
fn an_action_press_tells_its_session() {
    let mut d = two_sessions();
    let outcome = d.handle_callback_dispatch(&press(Some("a:bbbbbb:s"), 42, 5));
    assert_eq!(action(&outcome.delivery), Some(("bbbbbb", SessionAction::Send)));
    assert!(outcome.answer);
    assert!(outcome.edit.is_none());
    let outcome = d.handle_callback_dispatch(&press(Some("a:aaaaaa:c"), 42, 5));
    assert_eq!(action(&outcome.delivery), Some(("aaaaaa", SessionAction::Continue)));
}

#[test]
fn every_session_button_reaches_its_session() {
    let mut d = two_sessions();
    let keyboard = create_inline_keyboard_with_id("aaaaaa", &list(&["甲", "乙", "丙"]), &[], true);
    for (text, data) in rows(&keyboard).concat() {
        let outcome = d.handle_callback_dispatch(&press(Some(data), 42, 5));
        match text {
            "⏩ 继续" => {
                assert_eq!(action(&outcome.delivery), Some(("aaaaaa", SessionAction::Continue)));
            }
            "↗️ 发送" => {
                assert_eq!(action(&outcome.delivery), Some(("aaaaaa", SessionAction::Send)));
            }
            option => assert_eq!(toggle(&outcome.delivery), Some(("aaaaaa", option, true))),
        }
    }
}

#[test]
fn presses_that_mean_nothing_are_answered() {
    let mut d = two_sessions();
    for data in [
        "t:cccccc:0", "a:cccccc:s", "a:aaaaaa:x", "t:aaaaaa:3", "t:aaaaaa:", "t:aaaaaa:-1",
        "x:aaaaaa:0", "t:aaaaaa:0:1", "::", "t:bbbbbb:1",
    ] {
        assert!(only_answered(&d.handle_callback_dispatch(&press(Some(data), 42, 5))), "{data}");
    }
    assert!(only_answered(&d.handle_callback_dispatch(&press(None, 42, 5))));
    assert!(d.get_session_state("aaaaaa").unwrap().0.is_empty());
}

#[test]
fn updates_of_other_chats_are_ignored() {
    let mut d = two_sessions();
    assert!(nothing(&d.handle_callback_dispatch(&press(Some("t:aaaaaa:0"), 43, 100))));
    let mut stranger = message(Some("hi"), Some(100));
    stranger.chat_id = 43;
    assert!(nothing(&d.dispatch_update(&UpdateKind::Message(stranger))));
    assert!(nothing(&d.dispatch_update(&UpdateKind::Other)));
    assert_eq!(d.get_session_state("aaaaaa"), Some((Vec::new(), String::new())));
}

#[test]
fn data_without_an_id_goes_to_the_only_session() {
    let mut d = dispatcher();
    d.register_session("aaaaaa".to_string(), list(&["甲", "乙"]), true);
    let outcome = d.handle_callback_dispatch(&press(Some("t:1"), 42, 5));
    assert_eq!(toggle(&outcome.delivery), Some(("aaaaaa", "乙", true)));
    assert!(outcome.answer);
    assert!(outcome.edit.is_none());
    let outcome = d.handle_callback_dispatch(&press(Some("toggle:乙"), 42, 5));
    assert_eq!(toggle(&outcome.delivery), Some(("aaaaaa", "乙", false)));
    let outcome = d.handle_callback_dispatch(&press(Some("action:send"), 42, 5));
    assert_eq!(action(&outcome.delivery), Some(("aaaaaa", SessionAction::Send)));
    let outcome = d.handle_callback_dispatch(&press(Some("action:continue"), 42, 5));
    assert_eq!(action(&outcome.delivery), Some(("aaaaaa", SessionAction::Continue)));
    for data in ["t:2", "toggle:丁", "whatever", ""] {
        assert!(only_answered(&d.handle_callback_dispatch(&press(Some(data), 42, 5))));
    }
}

#[test]
fn old_data_may_hold_colons_in_its_option() {
    let mut d = dispatcher();
    d.register_session("abc123".to_string(), list(&["A:B", "A::"]), true);
    let outcome = d.handle_callback_dispatch(&press(Some("toggle:A:B"), 42, 5));
    assert_eq!(toggle(&outcome.delivery), Some(("abc123", "A:B", true)));
    let outcome = d.handle_callback_dispatch(&press(Some("toggle:A::"), 42, 5));
    assert_eq!(toggle(&outcome.delivery), Some(("abc123", "A::", true)));
    assert_eq!(d.get_session_state("abc123").unwrap().0, ["A:B", "A::"]);
    assert!(only_answered(&d.handle_callback_dispatch(&press(Some("toggle:A:C"), 42, 5))));
}

#[test]
fn data_without_an_id_goes_by_the_message_among_several() {
    let mut d = two_sessions();
    let outcome = d.handle_callback_dispatch(&press(Some("t:0"), 42, 200));
    assert_eq!(toggle(&outcome.delivery), Some(("bbbbbb", "x", true)));
    let outcome = d.handle_callback_dispatch(&press(Some("action:send"), 42, 100));
    assert_eq!(action(&outcome.delivery), Some(("aaaaaa", SessionAction::Send)));
    assert!(only_answered(&d.handle_callback_dispatch(&press(Some("t:0"), 42, 5))));
    assert!(only_answered(&d.handle_legacy_callback(None, "t:0")));
    d.register_session("cccccc".to_string(), list(&["z"]), true);
    assert!(only_answered(&d.handle_legacy_callback(None, "t:0")));
    assert!(d.get_session_state("cccccc").unwrap().0.is_empty());
    assert!(only_answered(&dispatcher().handle_legacy_callback(None, "t:0")));
}

#[test]
fn a_lone_session_takes_any_text() {
    let mut d = dispatcher();
    assert!(nothing(&d.handle_message_dispatch(&message(Some("hi"), None))));
    d.register_session("aaaaaa".to_string(), Vec::new(), true);
    let outcome = d.handle_message_dispatch(&message(Some("第一"), None));
    assert_eq!(entered(&outcome.delivery), Some(("aaaaaa", "第一")));
    assert!(!outcome.answer);
    d.handle_message_dispatch(&message(Some("第二"), Some(12345)));
    assert_eq!(d.get_session_state("aaaaaa").unwrap().1, "第二");
    let outcome = d.handle_message_dispatch(&message(Some("/heng_send"), None));
    assert_eq!(action(&outcome.delivery), Some(("aaaaaa", SessionAction::Send)));
    let outcome = d.handle_message_dispatch(&message(Some("⏩继续"), None));
    assert_eq!(action(&outcome.delivery), Some(("aaaaaa", SessionAction::Continue)));
    assert_eq!(d.get_session_state("aaaaaa").unwrap().1, "第二");
    assert!(nothing(&d.handle_message_dispatch(&message(None, None))));
}

#[test]
fn a_reply_goes_to_the_session_of_its_message() {
    let mut d = two_sessions();
    let outcome = d.handle_message_dispatch(&message(Some("给乙"), Some(200)));
    assert_eq!(entered(&outcome.delivery), Some(("bbbbbb", "给乙")));
    assert!(outcome.hint.is_none());
    assert_eq!(d.get_session_state("bbbbbb").unwrap().1, "给乙");
    assert_eq!(d.get_session_state("aaaaaa").unwrap().1, "");
    let outcome = d.handle_message_dispatch(&message(Some("/heng-continue"), Some(100)));
    assert_eq!(action(&outcome.delivery), Some(("aaaaaa", SessionAction::Continue)));
}

#[test]
fn a_stray_text_is_met_with_a_hint() {
    let mut d = two_sessions();
    for reply_to in [None, Some(5)] {
        let outcome = d.handle_message_dispatch(&message(Some("hi"), reply_to));
        assert!(outcome.delivery.is_none());
        let hint = outcome.hint.unwrap();
        assert_eq!(hint.chat_id, 42);
        assert_eq!(hint.text, "当前有 2 个活跃请求，请使用引用回复(reply)指定目标请求。");
        assert_eq!(hint.format, TextFormat::Plain);
    }
    assert!(nothing(&d.handle_message_dispatch(&message(Some(""), None))));
    assert!(nothing(&d.handle_message_dispatch(&message(None, None))));
}

#[test]
fn a_dispatcher_sends_plain_messages() {
    let request = dispatcher().send_message("好");
    assert_eq!((request.chat_id, request.text.as_str()), (42, "好"));
    assert_eq!(request.format, TextFormat::Plain);
}

#[test]
fn a_changed_configuration_replaces_the_dispatcher() {
    let first = config("1:t", "42", None);
    assert_eq!(
        dispatcher_change(None, &first),
        DispatcherChange::Replace { stop_old: false }
    );
    assert_eq!(
        dispatcher_change(Some(&first), &config("1:t", "42", None)),
        DispatcherChange::Keep
    );
    for other in [
        config("2:t", "42", None),
        config("1:t", "43", None),
        config("1:t", "42", Some("http://a")),
        config("1:t", "42", Some("")),
    ] {
        assert!(!same_config(&first, &other));
        assert!(same_config(&other, &other));
        assert_eq!(
            dispatcher_change(Some(&first), &other),
            DispatcherChange::Replace { stop_old: true }
        );
    }
}

#[test]
fn colons_do_not_hide_a_change_of_configuration() {
    assert_eq!(
        dispatcher_change(
            Some(&config("A", "1", Some("x:5:y:z"))),
            &config("A:1:x", "5", Some("y:z"))
        ),
        DispatcherChange::Replace { stop_old: true }
    );
}

#[test]
fn one_polling_task_runs_at_a_time() {
    let mut polling = PollingState::new();
    assert!(!polling.stop_polling());
    assert!(polling.ensure_polling(false));
    assert!(!polling.ensure_polling(false));
    assert!(polling.stop_polling());
    polling.task_ended();
    assert!(!polling.stop_polling());
    assert!(polling.ensure_polling(false));
    assert!(polling.ensure_polling(true));
    assert!(!polling.ensure_polling(false));
    polling.task_ended();
    assert!(polling.ensure_polling(true));
    assert!(polling.stop_polling());
    assert!(polling.ensure_polling(false));
}

#[test]
fn polling_starts_unless_it_runs() {
    assert!(polling_must_start(false, None));
    assert!(polling_must_start(false, Some(false)));
    assert!(polling_must_start(false, Some(true)));
    assert!(polling_must_start(true, None));
    assert!(polling_must_start(true, Some(true)));
    assert!(!polling_must_start(true, Some(false)));
}

#[test]
fn the_answer_holds_what_was_selected_and_entered() {
    let mut d = two_sessions();
    d.dispatch_update(&UpdateKind::CallbackQuery(press(Some("t:aaaaaa:1"), 42, 100)));
    d.dispatch_update(&UpdateKind::Message(message(Some("快一点"), Some(100))));
    let outcome =
        d.dispatch_update(&UpdateKind::CallbackQuery(press(Some("a:aaaaaa:s"), 42, 100)));
    let event = outcome.delivery.unwrap().event;
    let state = d.get_session_state("aaaaaa");
    match handle_session_event(&event, state, "aaaaaa-1", None) {
        McpStep::Finish {
            response: McpResponse::Send { user_input, selected_options, request_id, .. },
            ..
        } => {
            assert_eq!(user_input.as_deref(), Some("快一点"));
            assert_eq!(selected_options, ["乙"]);
            assert_eq!(request_id, "aaaaaa-1");
        }
        other => panic!("{other:?}"),
    }
}

#[test]
fn a_random_id_has_a_plain_short_id() {
    let d = dispatcher();
    let id = request_id_or_random(None);
    let short = d.short_id_for(&id).unwrap();
    assert_eq!(short, id[..6]);
    assert!(!short.contains(':'));
}
