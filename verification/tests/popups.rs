use hengjing::popup_windows::{
    cancel_popup_request, cancel_response_json, close_popup, finish_popup, popup_inner_size,
    popup_not_created, popup_window_label, response_sent, send_popup_response, PopupError,
    PopupRequest, PopupSessionState, WindowConfig,
};

fn request(id: &str, message: &str) -> PopupRequest {
    PopupRequest {
        id: id.to_string(),
        message: message.to_string(),
        predefined_options: Some(vec!["是".to_string(), "否".to_string()]),
        is_markdown: true,
        client_name: Some("Cursor".to_string()),
    }
}

#[test]
fn a_window_shows_its_request() {
    let mut state = PopupSessionState::default();
    let label = state.register_request(request("test-001", "测试"));
    assert_eq!(label, "popup-test-001");
    assert_eq!(label, popup_window_label("test-001"));
    let shown = state.get_request_by_window_label(&label).unwrap();
    assert_eq!(shown.id, "test-001");
    assert_eq!(shown.message, "测试");
    assert_eq!(shown.predefined_options.unwrap(), ["是", "否"]);
    assert!(shown.is_markdown);
    assert_eq!(shown.client_name.as_deref(), Some("Cursor"));
    assert!(state.get_request_by_window_label("test-001").is_none());
    assert!(state.get_request_by_window_label("popup-").is_none());
}

#[test]
fn a_request_is_registered_once() {
    let mut state = PopupSessionState::default();
    state.register_request(request("a", "first"));
    state.register_request(request("b", "other"));
    let label = state.register_request(request("a", "second"));
    assert_eq!(state.get_request_by_window_label(&label).unwrap().message, "second");
    assert_eq!(state.remove_request("a").unwrap().message, "second");
    assert!(state.remove_request("a").is_none());
    assert_eq!(state.remove_request("b").unwrap().message, "other");
}

#[test]
fn only_its_own_window_takes_a_request() {
    let mut state = PopupSessionState::default();
    state.register_request(request("a", "x"));
    state.register_request(request("b", "y"));
    assert!(state.take_if_owned("a", "popup-b").is_none());
    assert!(state.take_if_owned("c", "popup-c").is_none());
    assert_eq!(state.take_if_owned("a", "popup-a").unwrap().message, "x");
    assert!(state.take_if_owned("a", "popup-a").is_none());
    assert_eq!(state.get_request_by_window_label("popup-b").unwrap().message, "y");
}

#[test]
fn the_response_goes_out_as_json() {
    let mut state = PopupSessionState::default();
    state.register_request(request("a", "x"));
    let mut object = serde_json::Map::new();
    object.insert("user_input".to_string(), serde_json::Value::String("好\n".to_string()));
    let response = serde_json::Value::Object(object);
    let text = send_popup_response(&mut state, "a", "popup-a", &response).unwrap();
    assert_eq!(text, "{\"user_input\":\"好\\n\"}");
    let error = send_popup_response(&mut state, "a", "popup-a", &response).unwrap_err();
    assert_eq!(
        error.message(),
        "popup 窗口 popup-a 无法 finalize 请求 a（已被其他路径处理）"
    );
}

#[test]
fn the_first_to_finish_a_popup_wins() {
    let mut state = PopupSessionState::default();
    state.register_request(request("a", "x"));
    assert_eq!(cancel_popup_request(&mut state, "a", "popup-a").unwrap(), "CANCELLED");
    assert!(close_popup(&mut state, "a", "popup-a").is_none());
    assert!(matches!(
        cancel_popup_request(&mut state, "a", "popup-a"),
        Err(PopupError::NotOwned { .. })
    ));
    state.register_request(request("a", "x"));
    assert_eq!(close_popup(&mut state, "a", "popup-a").as_deref(), Some("CANCELLED"));
    assert!(matches!(
        send_popup_response(&mut state, "a", "popup-a", &serde_json::Value::Null),
        Err(PopupError::NotOwned { .. })
    ));
    assert_eq!(cancel_response_json(), "CANCELLED");
}

#[test]
fn a_failed_response_still_ends_the_request() {
    let mut state = PopupSessionState::default();
    state.register_request(request("a", "x"));
    let error = finish_popup(&mut state, "a", "popup-a", Err("bad".to_string())).unwrap_err();
    assert_eq!(error.message(), "序列化响应失败: bad");
    assert!(state.get_request_by_window_label("popup-a").is_none());
    state.register_request(request("a", "x"));
    let error = finish_popup(&mut state, "a", "popup-b", Err("bad".to_string())).unwrap_err();
    assert!(matches!(error, PopupError::NotOwned { .. }));
    assert_eq!(finish_popup(&mut state, "a", "popup-a", Ok("ok".to_string())).unwrap(), "ok");
}

#[test]
fn handing_a_response_on_can_fail() {
    assert!(response_sent(Some(Ok(())), false).is_ok());
    assert!(response_sent(Some(Ok(())), true).is_ok());
    assert_eq!(response_sent(None, true).unwrap_err().message(), "IPC 服务器未初始化");
    assert_eq!(
        response_sent(Some(Err("e".to_string())), false).unwrap_err().message(),
        "发送 popup 响应失败: e"
    );
    assert_eq!(
        response_sent(Some(Err("e".to_string())), true).unwrap_err().message(),
        "取消 popup 请求失败: e"
    );
    assert_eq!(
        PopupError::CloseFailed("e".to_string()).message(),
        "关闭 popup 窗口失败: e"
    );
    assert_eq!(
        PopupError::ConfigUnavailable("e".to_string()).message(),
        "获取配置失败: e"
    );
}

#[test]
fn a_request_without_a_window_is_given_up() {
    let mut state = PopupSessionState::default();
    state.register_request(request("a", "x"));
    state.register_request(request("b", "y"));
    let error = popup_not_created(&mut state, "a", "no display".to_string());
    assert_eq!(error.message(), "创建 popup 窗口失败: no display");
    assert!(state.get_request_by_window_label("popup-a").is_none());
    assert!(state.get_request_by_window_label("popup-b").is_some());
}

#[test]
fn a_popup_has_its_fixed_or_its_free_size() {
    let mut config = WindowConfig {
        fixed: true,
        fixed_width: 600.0,
        fixed_height: 900.0,
        free_width: 700.0,
        free_height: 800.0,
        min_width: 1.0,
        min_height: 2.0,
        max_width: 3.0,
        max_height: 4.0,
    };
    assert_eq!(popup_inner_size(&config), (600.0, 900.0));
    config.fixed = false;
    assert_eq!(popup_inner_size(&config), (700.0, 800.0));
}

#[test]
fn a_clone_is_the_same_request() {
    let mut original = request("a", "x");
    original.predefined_options = None;
    original.client_name = None;
    let copy = original.clone();
    assert_eq!(copy.id, "a");
    assert_eq!(copy.message, "x");
    assert!(copy.predefined_options.is_none());
    assert!(copy.client_name.is_none());
    assert!(copy.is_markdown);
}
