//! Popup sessions: which window shows which request, and who may finish it.
use crate::outside::{json_text, json_to_text};
use crate::text::{clone_list, opt_text, same_text, text_result, texts};
use vstd::prelude::*;

verus! {

/// A question that is put to the user.
#[derive(Debug)]
pub struct PopupRequest {
    pub id: String,
    pub message: String,
    pub predefined_options: Option<Vec<String>>,
    pub is_markdown: bool,
    pub client_name: Option<String>,
}

/// A `PopupRequest` by the characters of its texts.
pub struct RequestView {
    pub id: Seq<char>,
    pub message: Seq<char>,
    pub options: Option<Seq<Seq<char>>>,
    pub is_markdown: bool,
    pub client_name: Option<Seq<char>>,
}

impl View for PopupRequest {
    type V = RequestView;

    open spec fn view(&self) -> RequestView {
        RequestView {
            id: self.id@,
            message: self.message@,
            options: match self.predefined_options {
                Some(options) => Some(texts(options@)),
                None => None,
            },
            is_markdown: self.is_markdown,
            client_name: opt_text(self.client_name),
        }
    }
}

impl Clone for PopupRequest {
    fn clone(&self) -> (copy: Self)
        ensures
            copy@ == self@,
    {
        PopupRequest {
            id: self.id.clone(),
            message: self.message.clone(),
            predefined_options: match &self.predefined_options {
                Some(options) => Some(clone_list(options.as_slice())),
                None => None,
            },
            is_markdown: self.is_markdown,
            client_name: match &self.client_name {
                Some(name) => Some(name.clone()),
                None => None,
            },
        }
    }
}

/// The characters of an optional request.
pub open spec fn opt_request(request: Option<PopupRequest>) -> Option<RequestView> {
    match request {
        Some(r) => Some(r@),
        None => None,
    }
}

/// A request and the window that shows it.
#[derive(Debug)]
pub struct PopupSession {
    request: PopupRequest,
    window_label: String,
}

/// The requests that popup windows show.
#[derive(Debug)]
pub struct PopupSessionState {
    sessions: Vec<PopupSession>,
}

/// The label of the popup window that shows a request.
pub open spec fn popup_label(request_id: Seq<char>) -> Seq<char> {
    "popup-"@ + request_id
}

/// The requests of a list of sessions, by their ids.
pub closed spec fn requests_of(sessions: Seq<PopupSession>) -> Map<Seq<char>, RequestView>
    decreases sessions.len(),
{
    if sessions.len() == 0 {
        Map::empty()
    } else {
        requests_of(sessions.drop_last()).insert(
            sessions.last().request.id@,
            sessions.last().request@,
        )
    }
}

/// The request with the id `id` that the window `window_label` shows.
pub open spec fn owned_request(
    requests: Map<Seq<char>, RequestView>,
    id: Seq<char>,
    window_label: Seq<char>,
) -> Option<RequestView> {
    if requests.contains_key(id) && popup_label(id) == window_label {
        Some(requests[id])
    } else {
        None
    }
}

/// The requests once the window `window_label` has taken the request `id`, where it shows it.
pub open spec fn after_take(
    requests: Map<Seq<char>, RequestView>,
    id: Seq<char>,
    window_label: Seq<char>,
) -> Map<Seq<char>, RequestView> {
    if owned_request(requests, id, window_label) is Some {
        requests.remove(id)
    } else {
        requests
    }
}

impl View for PopupSessionState {
    type V = Map<Seq<char>, RequestView>;

    closed spec fn view(&self) -> Map<Seq<char>, RequestView> {
        requests_of(self.sessions@)
    }
}

/// Whether no two sessions have the same request id, and each window label is the one that the
/// request id yields.
spec fn popups_wf(sessions: Seq<PopupSession>) -> bool {
    &&& forall|i: int, j: int|
        0 <= i < j < sessions.len() ==> (#[trigger] sessions[i]).request.id@ != (
        #[trigger] sessions[j]).request.id@
    &&& forall|i: int|
        0 <= i < sessions.len() ==> (#[trigger] sessions[i]).window_label@ == popup_label(
            sessions[i].request.id@,
        )
}

/// The map of requests holds each session's request under its id, and nothing else.
proof fn lemma_requests(sessions: Seq<PopupSession>)
    requires
        popups_wf(sessions),
    ensures
        forall|i: int|
            0 <= i < sessions.len() ==> requests_of(sessions).contains_key(
                (#[trigger] sessions[i]).request.id@,
            ) && requests_of(sessions)[sessions[i].request.id@] == sessions[i].request@,
        forall|id: Seq<char>| #[trigger]
            requests_of(sessions).contains_key(id) ==> exists|i: int|
                0 <= i < sessions.len() && (#[trigger] sessions[i]).request.id@ == id,
    decreases sessions.len(),
{
    if sessions.len() > 0 {
        let init = sessions.drop_last();
        lemma_requests(init);
        assert forall|i: int| 0 <= i < sessions.len() implies requests_of(sessions).contains_key(
            (#[trigger] sessions[i]).request.id@,
        ) && requests_of(sessions)[sessions[i].request.id@] == sessions[i].request@ by {
            if i < init.len() {
                assert(init[i] == sessions[i]);
                assert(sessions[i].request.id@ != sessions[sessions.len() - 1].request.id@);
            }
        }
        assert forall|id: Seq<char>| #[trigger]
            requests_of(sessions).contains_key(id) implies exists|i: int|
            0 <= i < sessions.len() && (#[trigger] sessions[i]).request.id@ == id by {
            if id == sessions.last().request.id@ {
                assert(sessions[sessions.len() - 1].request.id@ == id);
            } else {
                assert(requests_of(init).contains_key(id));
                let i = choose|i: int|
                    0 <= i < init.len() && (#[trigger] init[i]).request.id@ == id;
                assert(sessions[i].request.id@ == id);
            }
        }
    }
}

/// A map that agrees with a well-formed list of sessions is the map of that list.
proof fn lemma_requests_are(sessions: Seq<PopupSession>, map: Map<Seq<char>, RequestView>)
    requires
        popups_wf(sessions),
        forall|i: int|
            0 <= i < sessions.len() ==> map.contains_key((#[trigger] sessions[i]).request.id@)
                && map[sessions[i].request.id@] == sessions[i].request@,
        forall|id: Seq<char>| #[trigger]
            map.contains_key(id) ==> exists|i: int|
                0 <= i < sessions.len() && (#[trigger] sessions[i]).request.id@ == id,
    ensures
        requests_of(sessions) == map,
{
    lemma_requests(sessions);
    let all = requests_of(sessions);
    assert forall|id: Seq<char>| all.contains_key(id) == map.contains_key(id) by {
        if all.contains_key(id) {
            let i = choose|i: int|
                0 <= i < sessions.len() && (#[trigger] sessions[i]).request.id@ == id;
            assert(map.contains_key(sessions[i].request.id@));
        }
        if map.contains_key(id) {
            let i = choose|i: int|
                0 <= i < sessions.len() && (#[trigger] sessions[i]).request.id@ == id;
            assert(all.contains_key(sessions[i].request.id@));
        }
    }
    assert forall|id: Seq<char>| all.contains_key(id) implies all[id] == map[id] by {
        let i = choose|i: int| 0 <= i < sessions.len() && (#[trigger] sessions[i]).request.id@ == id;
        assert(all[sessions[i].request.id@] == map[sessions[i].request.id@]);
    }
    assert(all =~= map);
}

/// Two windows have the same label only where they show the same request.
pub proof fn labels_tell_requests_apart(a: Seq<char>, b: Seq<char>)
    ensures
        popup_label(a) == popup_label(b) <==> a == b,
{
    let n = "popup-"@.len() as int;
    assert(popup_label(a).skip(n) == a);
    assert(popup_label(b).skip(n) == b);
}

impl Default for PopupSessionState {
    /// No window shows a request.
    fn default() -> (state: Self)
        ensures
            state.wf(),
            state@ == Map::<Seq<char>, RequestView>::empty(),
    {
        PopupSessionState { sessions: Vec::new() }
    }
}

impl PopupSessionState {
    /// Whether every request stands once, and its window has the label that its id yields.
    pub closed spec fn wf(self) -> bool {
        popups_wf(self.sessions@)
    }

    fn find(&self, request_id: &str) -> (place: Option<usize>)
        requires
            self.wf(),
        ensures
            match place {
                Some(i) => i < self.sessions@.len() && self.sessions@[i as int].request.id@
                    == request_id@ && self@.contains_key(request_id@) && self@[request_id@]
                    == self.sessions@[i as int].request@,
                None => !self@.contains_key(request_id@) && forall|j: int|
                    0 <= j < self.sessions@.len() ==> (#[trigger] self.sessions@[j]).request.id@
                        != request_id@,
            },
    {
        proof {
            lemma_requests(self.sessions@);
        }
        let mut i: usize = 0;
        while i < self.sessions.len()
            invariant
                i <= self.sessions@.len(),
                forall|j: int|
                    0 <= j < self.sessions@.len() ==> self@.contains_key(
                        (#[trigger] self.sessions@[j]).request.id@,
                    ) && self@[self.sessions@[j].request.id@] == self.sessions@[j].request@,
                forall|j: int|
                    0 <= j < i ==> (#[trigger] self.sessions@[j]).request.id@ != request_id@,
            decreases self.sessions@.len() - i,
        {
            if same_text(self.sessions[i].request.id.as_str(), request_id) {
                return Some(i);
            }
            i += 1;
        }
        None
    }

    /// Opens a session for a request, in place of one with the same id, and tells the label of
    /// its window.
    pub fn register_request(&mut self, request: PopupRequest) -> (window_label: String)
        requires
            old(self).wf(),
        ensures
            final(self).wf(),
            final(self)@ == old(self)@.insert(request@.id, request@),
            window_label@ == popup_label(request@.id),
    {
        let window_label = popup_window_label(request.id.as_str());
        let ghost before = self.sessions@;
        let ghost map = self@;
        let ghost view = request@;
        proof {
            lemma_requests(before);
        }
        let place = self.find(request.id.as_str());
        let session = PopupSession { request, window_label: window_label.clone() };
        match place {
            Some(i) => {
                self.sessions[i] = session;
                proof {
                    let after = self.sessions@;
                    assert(after == before.update(i as int, session));
                    assert forall|a: int, b: int| 0 <= a < b < after.len() implies (
                    #[trigger] after[a]).request.id@ != (#[trigger] after[b]).request.id@ by {
                        assert(before[a].request.id@ != before[b].request.id@);
                    }
                    assert(popups_wf(after));
                    assert forall|j: int| 0 <= j < after.len() implies map.insert(
                        view.id,
                        view,
                    ).contains_key((#[trigger] after[j]).request.id@) && map.insert(
                        view.id,
                        view,
                    )[after[j].request.id@] == after[j].request@ by {
                        if j != i {
                            assert(map.contains_key(before[j].request.id@));
                            if j < i {
                                assert(after[j].request.id@ != after[i as int].request.id@);
                            } else {
                                assert(after[i as int].request.id@ != after[j].request.id@);
                            }
                        }
                    }
                    assert forall|id: Seq<char>| #[trigger]
                        map.insert(view.id, view).contains_key(id) implies exists|j: int|
                        0 <= j < after.len() && (#[trigger] after[j]).request.id@ == id by {
                        if id == view.id {
                            assert(after[i as int].request.id@ == id);
                        } else {
                            assert(map.contains_key(id));
                            let j = choose|j: int|
                                0 <= j < before.len() && (#[trigger] before[j]).request.id@ == id;
                            assert(after[j].request.id@ == id);
                        }
                    }
                    lemma_requests_are(after, map.insert(view.id, view));
                }
            },
            None => {
                self.sessions.push(session);
                proof {
                    let after = self.sessions@;
                    assert(after.drop_last() == before);
                }
            },
        }
        window_label
    }

    /// The request that a window shows.
    pub fn get_request_by_window_label(&self, window_label: &str) -> (request: Option<PopupRequest>)
        requires
            self.wf(),
        ensures
            match request {
                Some(r) => self@.contains_key(r@.id) && self@[r@.id] == r@ && popup_label(r@.id)
                    == window_label@,
                None => forall|id: Seq<char>| #[trigger]
                    self@.contains_key(id) ==> popup_label(id) != window_label@,
            },
    {
        let mut i: usize = 0;
        proof {
            lemma_requests(self.sessions@);
        }
        while i < self.sessions.len()
            invariant
                self.wf(),
                i <= self.sessions@.len(),
                forall|j: int|
                    0 <= j < self.sessions@.len() ==> self@.contains_key(
                        (#[trigger] self.sessions@[j]).request.id@,
                    ) && self@[self.sessions@[j].request.id@] == self.sessions@[j].request@,
                forall|j: int|
                    0 <= j < i ==> (#[trigger] self.sessions@[j]).window_label@ != window_label@,
            decreases self.sessions@.len() - i,
        {
            if same_text(self.sessions[i].window_label.as_str(), window_label) {
                return Some(self.sessions[i].request.clone());
            }
            i += 1;
        }
        proof {
            assert forall|id: Seq<char>| #[trigger] self@.contains_key(id) implies popup_label(id)
                != window_label@ by {
                let j = choose|j: int|
                    0 <= j < self.sessions@.len() && (
                    #[trigger] self.sessions@[j]).request.id@ == id;
                assert(self.sessions@[j].window_label@ == popup_label(id));
            }
        }
        None
    }

    /// Takes a request out, at one stroke with the test that the window shows it. `None` tells
    /// that it has been taken already, or that another window shows it.
    pub fn take_if_owned(&mut self, request_id: &str, window_label: &str) -> (request: Option<
        PopupRequest,
    >)
        requires
            old(self).wf(),
        ensures
            final(self).wf(),
            opt_request(request) == owned_request(old(self)@, request_id@, window_label@),
            final(self)@ == after_take(old(self)@, request_id@, window_label@),
    {
        match self.find(request_id) {
            Some(i) => {
                if same_text(self.sessions[i].window_label.as_str(), window_label) {
                    self.remove_request(request_id)
                } else {
                    None
                }
            },
            None => None,
        }
    }

    /// Takes a request out, whichever window shows it.
    pub fn remove_request(&mut self, request_id: &str) -> (request: Option<PopupRequest>)
        requires
            old(self).wf(),
        ensures
            final(self).wf(),
            opt_request(request) == if old(self)@.contains_key(request_id@) {
                Some(old(self)@[request_id@])
            } else {
                None
            },
            final(self)@ == old(self)@.remove(request_id@),
    {
        let ghost before = self.sessions@;
        let ghost map = self@;
        proof {
            lemma_requests(before);
        }
        match self.find(request_id) {
            Some(i) => {
                let session = self.sessions.remove(i);
                proof {
                    let after = self.sessions@;
                    let old_place = |j: int| if j < i { j } else { j + 1 };
                    assert forall|a: int, b: int| 0 <= a < b < after.len() implies (
                    #[trigger] after[a]).request.id@ != (#[trigger] after[b]).request.id@ by {
                        assert(after[a] == before[old_place(a)]);
                        assert(after[b] == before[old_place(b)]);
                        assert(before[old_place(a)].request.id@ != before[old_place(
                            b,
                        )].request.id@);
                    }
                    assert forall|j: int| 0 <= j < after.len() implies (
                    #[trigger] after[j]).window_label@ == popup_label(after[j].request.id@) by {
                        assert(after[j] == before[old_place(j)]);
                    }
                    let rest = map.remove(request_id@);
                    assert forall|j: int| 0 <= j < after.len() implies rest.contains_key(
                        (#[trigger] after[j]).request.id@,
                    ) && rest[after[j].request.id@] == after[j].request@ by {
                        let k = old_place(j);
                        assert(after[j] == before[k]);
                        assert(map.contains_key(before[k].request.id@));
                        if k < i {
                            assert(before[k].request.id@ != before[i as int].request.id@);
                        } else {
                            assert(before[i as int].request.id@ != before[k].request.id@);
                        }
                    }
                    assert forall|id: Seq<char>| #[trigger] rest.contains_key(id) implies exists|
                        j: int,
                    |
                        0 <= j < after.len() && (#[trigger] after[j]).request.id@ == id by {
                        assert(map.contains_key(id));
                        let k = choose|k: int|
                            0 <= k < before.len() && (#[trigger] before[k]).request.id@ == id;
                        let j = if k < i { k } else { k - 1 };
                        assert(after[j] == before[k]);
                    }
                    lemma_requests_are(after, rest);
                }
                Some(session.request)
            },
            None => {
                assert(map.remove(request_id@) =~= map);
                None
            },
        }
    }
}

/// The label of the popup window that shows the request `request_id`.
pub fn popup_window_label(request_id: &str) -> (label: String)
    ensures
        label@ == popup_label(request_id@),
{
    "popup-".to_owned().concat(request_id)
}

/// The response that stands for a cancelled request.
pub fn cancel_response_json() -> (response: String)
    ensures
        response@ == "CANCELLED"@,
{
    "CANCELLED".to_owned()
}

/// What can go wrong with a popup. A field holds the words of the underlying error.
#[derive(Debug)]
pub enum PopupError {
    /// The request has been finished already, or another window shows it.
    NotOwned { window_label: String, request_id: String },
    /// The response was not turned into text.
    SerializeFailed(String),
    /// There is nobody to hand the response to.
    IpcNotReady,
    /// The response was not handed on.
    SendFailed(String),
    /// The cancellation was not handed on.
    CancelFailed(String),
    /// The window was not closed.
    CloseFailed(String),
    /// The window was not made.
    CreateFailed(String),
    /// The configuration was not read.
    ConfigUnavailable(String),
}

/// A `PopupError` by the characters of its texts.
pub enum PopupErrorView {
    NotOwned { window_label: Seq<char>, request_id: Seq<char> },
    SerializeFailed(Seq<char>),
    IpcNotReady,
    SendFailed(Seq<char>),
    CancelFailed(Seq<char>),
    CloseFailed(Seq<char>),
    CreateFailed(Seq<char>),
    ConfigUnavailable(Seq<char>),
}

impl View for PopupError {
    type V = PopupErrorView;

    open spec fn view(&self) -> PopupErrorView {
        match self {
            PopupError::NotOwned { window_label, request_id } => PopupErrorView::NotOwned {
                window_label: window_label@,
                request_id: request_id@,
            },
            PopupError::SerializeFailed(e) => PopupErrorView::SerializeFailed(e@),
            PopupError::IpcNotReady => PopupErrorView::IpcNotReady,
            PopupError::SendFailed(e) => PopupErrorView::SendFailed(e@),
            PopupError::CancelFailed(e) => PopupErrorView::CancelFailed(e@),
            PopupError::CloseFailed(e) => PopupErrorView::CloseFailed(e@),
            PopupError::CreateFailed(e) => PopupErrorView::CreateFailed(e@),
            PopupError::ConfigUnavailable(e) => PopupErrorView::ConfigUnavailable(e@),
        }
    }
}

/// The words that a user reads for an error.
pub open spec fn popup_error_words(error: PopupErrorView) -> Seq<char> {
    match error {
        PopupErrorView::NotOwned { window_label, request_id } => "popup 窗口 "@ + window_label
            + " 无法 finalize 请求 "@ + request_id + "（已被其他路径处理）"@,
        PopupErrorView::SerializeFailed(e) => "序列化响应失败: "@ + e,
        PopupErrorView::IpcNotReady => "IPC 服务器未初始化"@,
        PopupErrorView::SendFailed(e) => "发送 popup 响应失败: "@ + e,
        PopupErrorView::CancelFailed(e) => "取消 popup 请求失败: "@ + e,
        PopupErrorView::CloseFailed(e) => "关闭 popup 窗口失败: "@ + e,
        PopupErrorView::CreateFailed(e) => "创建 popup 窗口失败: "@ + e,
        PopupErrorView::ConfigUnavailable(e) => "获取配置失败: "@ + e,
    }
}

impl PopupError {
    /// The words that a user reads for this error.
    pub fn message(&self) -> (words: String)
        ensures
            words@ == popup_error_words(self@),
    {
        match self {
            PopupError::NotOwned { window_label, request_id } => {
                let words = "popup 窗口 ".to_owned().concat(window_label.as_str());
                words.concat(" 无法 finalize 请求 ").concat(request_id.as_str()).concat(
                    "（已被其他路径处理）",
                )
            },
            PopupError::SerializeFailed(e) => "序列化响应失败: ".to_owned().concat(e.as_str()),
            PopupError::IpcNotReady => "IPC 服务器未初始化".to_owned(),
            PopupError::SendFailed(e) => "发送 popup 响应失败: ".to_owned().concat(e.as_str()),
            PopupError::CancelFailed(e) => "取消 popup 请求失败: ".to_owned().concat(e.as_str()),
            PopupError::CloseFailed(e) => "关闭 popup 窗口失败: ".to_owned().concat(e.as_str()),
            PopupError::CreateFailed(e) => "创建 popup 窗口失败: ".to_owned().concat(e.as_str()),
            PopupError::ConfigUnavailable(e) => "获取配置失败: ".to_owned().concat(e.as_str()),
        }
    }
}

/// The characters of a text or of the error.
pub open spec fn popup_result(
    result: Result<String, PopupError>,
) -> Result<Seq<char>, PopupErrorView> {
    match result {
        Ok(s) => Ok(s@),
        Err(e) => Err(e@),
    }
}

/// What a window hands on as the response to a request: `response`, unless the window does not
/// show the request, which is reported first, or the response could not be turned into text.
pub open spec fn response_of(
    requests: Map<Seq<char>, RequestView>,
    id: Seq<char>,
    window_label: Seq<char>,
    response: Result<Seq<char>, Seq<char>>,
) -> Result<Seq<char>, PopupErrorView> {
    if owned_request(requests, id, window_label) is None {
        Err(PopupErrorView::NotOwned { window_label, request_id: id })
    } else {
        match response {
            Ok(text) => Ok(text),
            Err(e) => Err(PopupErrorView::SerializeFailed(e)),
        }
    }
}

/// Finishes a request with the user's response: the text to hand on. The request is taken out even
/// where the response cannot be turned into text.
pub fn send_popup_response(
    state: &mut PopupSessionState,
    request_id: &str,
    window_label: &str,
    response: &serde_json::Value,
) -> (text: Result<String, PopupError>)
    requires
        old(state).wf(),
    ensures
        final(state).wf(),
        final(state)@ == after_take(old(state)@, request_id@, window_label@),
        popup_result(text) == response_of(
            old(state)@,
            request_id@,
            window_label@,
            json_text(*response),
        ),
{
    finish_popup(state, request_id, window_label, json_to_text(response))
}

/// Finishes a request with a response, given as text or as the words of the error that turning it
/// into text met with.
pub fn finish_popup(
    state: &mut PopupSessionState,
    request_id: &str,
    window_label: &str,
    response: Result<String, String>,
) -> (text: Result<String, PopupError>)
    requires
        old(state).wf(),
    ensures
        final(state).wf(),
        final(state)@ == after_take(old(state)@, request_id@, window_label@),
        popup_result(text) == response_of(
            old(state)@,
            request_id@,
            window_label@,
            text_result(response),
        ),
{
    if state.take_if_owned(request_id, window_label).is_none() {
        return Err(
            PopupError::NotOwned {
                window_label: window_label.to_owned(),
                request_id: request_id.to_owned(),
            },
        );
    }
    match response {
        Ok(text) => Ok(text),
        Err(e) => Err(PopupError::SerializeFailed(e)),
    }
}

/// Finishes a request by cancelling it: the text to hand on.
pub fn cancel_popup_request(
    state: &mut PopupSessionState,
    request_id: &str,
    window_label: &str,
) -> (text: Result<String, PopupError>)
    requires
        old(state).wf(),
    ensures
        final(state).wf(),
        final(state)@ == after_take(old(state)@, request_id@, window_label@),
        popup_result(text) == response_of(
            old(state)@,
            request_id@,
            window_label@,
            Ok("CANCELLED"@),
        ),
{
    finish_popup(state, request_id, window_label, Ok(cancel_response_json()))
}

/// The text to hand on when the user closes the window of a request.
pub open spec fn closing_response(
    requests: Map<Seq<char>, RequestView>,
    id: Seq<char>,
    window_label: Seq<char>,
) -> Option<Seq<char>> {
    if owned_request(requests, id, window_label) is Some {
        Some("CANCELLED"@)
    } else {
        None
    }
}

/// The words of the error that handing a response on met with, where there was somebody to hand it
/// to; the inner `None` stands for success.
pub open spec fn handed_on(outcome: Option<Result<(), String>>) -> Option<Option<Seq<char>>> {
    match outcome {
        None => None,
        Some(Ok(_)) => Some(None),
        Some(Err(e)) => Some(Some(e@)),
    }
}

/// The error of handing a response on, where there was one.
pub open spec fn handing_error(result: Result<(), PopupError>) -> Option<PopupErrorView> {
    match result {
        Ok(_) => None,
        Err(e) => Some(e@),
    }
}

/// What is reported of handing on a response or, where `cancelled`, a cancellation.
pub open spec fn handing_report(
    outcome: Option<Option<Seq<char>>>,
    cancelled: bool,
) -> Option<PopupErrorView> {
    match outcome {
        None => Some(PopupErrorView::IpcNotReady),
        Some(None) => None,
        Some(Some(e)) => if cancelled {
            Some(PopupErrorView::CancelFailed(e))
        } else {
            Some(PopupErrorView::SendFailed(e))
        },
    }
}

/// Finishes the request of a window that the user closes: the text to hand on, unless the request
/// has been finished already.
pub fn close_popup(
    state: &mut PopupSessionState,
    request_id: &str,
    window_label: &str,
) -> (text: Option<String>)
    requires
        old(state).wf(),
    ensures
        final(state).wf(),
        final(state)@ == after_take(old(state)@, request_id@, window_label@),
        opt_text(text) == closing_response(old(state)@, request_id@, window_label@),
        opt_text(text) == if owned_request(old(state)@, request_id@, window_label@) is Some {
            Some("CANCELLED"@)
        } else {
            None
        },
{
    if state.take_if_owned(request_id, window_label).is_some() {
        Some(cancel_response_json())
    } else {
        None
    }
}

/// What became of handing on a response or, where `cancelled`, a cancellation. `outcome` is `None`
/// where there was nobody to hand it to, and holds the words of the error where there was one.
pub fn response_sent(outcome: Option<Result<(), String>>, cancelled: bool) -> (result: Result<
    (),
    PopupError,
>)
    ensures
        match outcome {
            None => result is Err && result->Err_0@ == PopupErrorView::IpcNotReady,
            Some(Ok(_)) => result is Ok,
            Some(Err(e)) => result is Err && result->Err_0@ == if cancelled {
                PopupErrorView::CancelFailed(e@)
            } else {
                PopupErrorView::SendFailed(e@)
            },
        },
        handing_error(result) == handing_report(handed_on(outcome), cancelled),
{
    match outcome {
        None => Err(PopupError::IpcNotReady),
        Some(Ok(_)) => Ok(()),
        Some(Err(e)) => if cancelled {
            Err(PopupError::CancelFailed(e))
        } else {
            Err(PopupError::SendFailed(e))
        },
    }
}

/// Gives a request up whose window could not be made.
pub fn popup_not_created(
    state: &mut PopupSessionState,
    request_id: &str,
    error: String,
) -> (report: PopupError)
    requires
        old(state).wf(),
    ensures
        final(state).wf(),
        final(state)@ == old(state)@.remove(request_id@),
        report@ == PopupErrorView::CreateFailed(error@),
{
    let _request = state.remove_request(request_id);
    PopupError::CreateFailed(error)
}

/// The configured sizes of a window, in a unit `T`.
#[derive(Debug)]
pub struct WindowConfig<T> {
    /// Whether the window has its fixed size rather than its free size.
    pub fixed: bool,
    pub fixed_width: T,
    pub fixed_height: T,
    pub free_width: T,
    pub free_height: T,
    pub min_width: T,
    pub min_height: T,
    pub max_width: T,
    pub max_height: T,
}

/// The width and the height that a popup window opens with.
pub fn popup_inner_size<T: Copy>(config: &WindowConfig<T>) -> (size: (T, T))
    ensures
        size == if config.fixed {
            (config.fixed_width, config.fixed_height)
        } else {
            (config.free_width, config.free_height)
        },
{
    if config.fixed {
        (config.fixed_width, config.fixed_height)
    } else {
        (config.free_width, config.free_height)
    }
}

} // verus!
