//! Requests that are answered in Telegram alone, without a window.
use crate::commands::{state_input, state_or_empty, state_selected};
use crate::dispatcher::{SessionAction, SessionEvent, SessionEventView};
use crate::popup_windows::PopupRequest;
use crate::telegram_core::{build_feedback_message, feedback};
use crate::text::{clone_list, opt_str, opt_text, texts};
use vstd::prelude::*;

verus! {

/// The answer to a request.
#[derive(Debug)]
pub enum McpResponse {
    /// The user sent a selection and a text.
    Send {
        user_input: Option<String>,
        selected_options: Vec<String>,
        request_id: String,
        source: String,
    },
    /// The user chose to continue.
    Continue { request_id: String, source: String },
}

/// A `McpResponse` by the characters of its texts.
pub enum ResponseView {
    Send {
        user_input: Option<Seq<char>>,
        selected: Seq<Seq<char>>,
        request_id: Seq<char>,
        source: Seq<char>,
    },
    Continue { request_id: Seq<char>, source: Seq<char> },
}

impl View for McpResponse {
    type V = ResponseView;

    open spec fn view(&self) -> ResponseView {
        match self {
            McpResponse::Send { user_input, selected_options, request_id, source } => {
                ResponseView::Send {
                    user_input: opt_text(*user_input),
                    selected: texts(selected_options@),
                    request_id: request_id@,
                    source: source@,
                }
            },
            McpResponse::Continue { request_id, source } => ResponseView::Continue {
                request_id: request_id@,
                source: source@,
            },
        }
    }
}

/// What to do about an event of a request's session.
#[derive(Debug)]
pub enum McpStep {
    /// Wait for the next event.
    Wait,
    /// Give this answer, confirm it in the chat, and drop the session.
    Finish { response: McpResponse, feedback: String },
}

/// A `McpStep` by the characters of its texts.
pub enum McpStepView {
    Wait,
    Finish { response: ResponseView, feedback: Seq<char> },
}

impl View for McpStep {
    type V = McpStepView;

    open spec fn view(&self) -> McpStepView {
        match self {
            McpStep::Wait => McpStepView::Wait,
            McpStep::Finish { response, feedback } => McpStepView::Finish {
                response: response@,
                feedback: feedback@,
            },
        }
    }
}

/// What to do about an event of the session of the request `request_id`.
pub open spec fn mcp_step(
    event: SessionEventView,
    selected: Seq<Seq<char>>,
    user_input: Seq<char>,
    request_id: Seq<char>,
    continue_prompt: Option<Seq<char>>,
) -> McpStepView {
    match event {
        SessionEventView::Action(SessionAction::Send) => McpStepView::Finish {
            response: ResponseView::Send {
                user_input: if user_input.len() == 0 {
                    None
                } else {
                    Some(user_input)
                },
                selected,
                request_id,
                source: "telegram"@,
            },
            feedback: feedback(selected, user_input, false, continue_prompt),
        },
        SessionEventView::Action(SessionAction::Continue) => McpStepView::Finish {
            response: ResponseView::Continue { request_id, source: "telegram_continue"@ },
            feedback: feedback(Seq::empty(), Seq::empty(), true, continue_prompt),
        },
        SessionEventView::Telegram(_) => McpStepView::Wait,
    }
}

/// The options of a request; none where it names none.
pub fn request_options(request: &PopupRequest) -> (options: Vec<String>)
    ensures
        texts(options@) == match request@.options {
            Some(list) => list,
            None => Seq::empty(),
        },
{
    match &request.predefined_options {
        Some(options) => clone_list(options.as_slice()),
        None => {
            let none: Vec<String> = Vec::new();
            assert(texts(none@) == Seq::<Seq<char>>::empty());
            none
        },
    }
}

/// Decides what to do about an event of the session of the request `request_id`, whose state is
/// `state`.
pub fn handle_session_event(
    event: &SessionEvent,
    state: Option<(Vec<String>, String)>,
    request_id: &str,
    continue_prompt: Option<&str>,
) -> (step: McpStep)
    ensures
        step@ == mcp_step(
            event@,
            state_selected(state),
            state_input(state),
            request_id@,
            opt_str(continue_prompt),
        ),
{
    match event {
        SessionEvent::Action(SessionAction::Send) => {
            let (selected, user_input) = state_or_empty(state);
            let feedback = build_feedback_message(
                selected.as_slice(),
                user_input.as_str(),
                false,
                continue_prompt,
            );
            let user_input = if user_input.as_str().is_empty() {
                None
            } else {
                Some(user_input)
            };
            McpStep::Finish {
                response: McpResponse::Send {
                    user_input,
                    selected_options: selected,
                    request_id: request_id.to_owned(),
                    source: "telegram".to_owned(),
                },
                feedback,
            }
        },
        SessionEvent::Action(SessionAction::Continue) => {
            let none: Vec<String> = Vec::new();
            McpStep::Finish {
                response: McpResponse::Continue {
                    request_id: request_id.to_owned(),
                    source: "telegram_continue".to_owned(),
                },
                feedback: build_feedback_message(none.as_slice(), "", true, continue_prompt),
            }
        },
        SessionEvent::Telegram(_) => McpStep::Wait,
    }
}

} // verus!
