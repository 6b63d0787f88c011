//! What can go wrong between the application and Telegram, and the words for it.
use vstd::prelude::*;

verus! {

/// An error of the Telegram modules. A field holds the words of the underlying error.
#[derive(Debug)]
pub enum TelegramError {
    /// The configured API address does not parse.
    InvalidApiUrl(String),
    /// The chat is given as a user name.
    UsernameChatId,
    /// The chat is not given as a number.
    InvalidChatId,
    /// The bot token is blank.
    EmptyBotToken,
    /// The chat is blank.
    EmptyChatId,
    /// The chat of a connection test is not given as a number.
    InvalidTestChatId,
    /// A message was not sent.
    SendFailed(String),
    /// A message with options was not sent.
    SendOptionsFailed(String),
    /// The message of a connection test was not sent.
    SendTestFailed(String),
    /// The bot token or the chat is blank.
    IncompleteConfig,
    /// The dispatcher was not set up.
    DispatcherInitFailed(String),
}

/// A `TelegramError` by the characters of its texts.
pub enum ErrorView {
    InvalidApiUrl(Seq<char>),
    UsernameChatId,
    InvalidChatId,
    EmptyBotToken,
    EmptyChatId,
    InvalidTestChatId,
    SendFailed(Seq<char>),
    SendOptionsFailed(Seq<char>),
    SendTestFailed(Seq<char>),
    IncompleteConfig,
    DispatcherInitFailed(Seq<char>),
}

impl View for TelegramError {
    type V = ErrorView;

    open spec fn view(&self) -> ErrorView {
        match self {
            TelegramError::InvalidApiUrl(e) => ErrorView::InvalidApiUrl(e@),
            TelegramError::UsernameChatId => ErrorView::UsernameChatId,
            TelegramError::InvalidChatId => ErrorView::InvalidChatId,
            TelegramError::EmptyBotToken => ErrorView::EmptyBotToken,
            TelegramError::EmptyChatId => ErrorView::EmptyChatId,
            TelegramError::InvalidTestChatId => ErrorView::InvalidTestChatId,
            TelegramError::SendFailed(e) => ErrorView::SendFailed(e@),
            TelegramError::SendOptionsFailed(e) => ErrorView::SendOptionsFailed(e@),
            TelegramError::SendTestFailed(e) => ErrorView::SendTestFailed(e@),
            TelegramError::IncompleteConfig => ErrorView::IncompleteConfig,
            TelegramError::DispatcherInitFailed(e) => ErrorView::DispatcherInitFailed(e@),
        }
    }
}

/// The words that a user reads for an error.
pub open spec fn error_words(error: ErrorView) -> Seq<char> {
    match error {
        ErrorView::InvalidApiUrl(e) => "无效的API URL格式: "@ + e,
        ErrorView::UsernameChatId => "暂不支持@username格式，请使用数字Chat ID"@,
        ErrorView::InvalidChatId => "无效的Chat ID格式，请使用数字ID"@,
        ErrorView::EmptyBotToken => "Bot Token不能为空"@,
        ErrorView::EmptyChatId => "Chat ID不能为空"@,
        ErrorView::InvalidTestChatId => "Chat ID格式无效，请输入有效的数字ID"@,
        ErrorView::SendFailed(e) => "发送消息失败: "@ + e,
        ErrorView::SendOptionsFailed(e) => "发送选项消息失败: "@ + e,
        ErrorView::SendTestFailed(e) => "发送测试消息失败: "@ + e,
        ErrorView::IncompleteConfig => "Telegram配置不完整"@,
        ErrorView::DispatcherInitFailed(e) => "初始化Telegram调度器失败: "@ + e,
    }
}

impl TelegramError {
    /// The words that a user reads for this error.
    pub fn message(&self) -> (words: String)
        ensures
            words@ == error_words(self@),
    {
        match self {
            TelegramError::InvalidApiUrl(e) => "无效的API URL格式: ".to_owned().concat(e.as_str()),
            TelegramError::UsernameChatId => "暂不支持@username格式，请使用数字Chat ID".to_owned(),
            TelegramError::InvalidChatId => "无效的Chat ID格式，请使用数字ID".to_owned(),
            TelegramError::EmptyBotToken => "Bot Token不能为空".to_owned(),
            TelegramError::EmptyChatId => "Chat ID不能为空".to_owned(),
            TelegramError::InvalidTestChatId => "Chat ID格式无效，请输入有效的数字ID".to_owned(),
            TelegramError::SendFailed(e) => "发送消息失败: ".to_owned().concat(e.as_str()),
            TelegramError::SendOptionsFailed(e) => "发送选项消息失败: ".to_owned().concat(
                e.as_str(),
            ),
            TelegramError::SendTestFailed(e) => "发送测试消息失败: ".to_owned().concat(e.as_str()),
            TelegramError::IncompleteConfig => "Telegram配置不完整".to_owned(),
            TelegramError::DispatcherInitFailed(e) => "初始化Telegram调度器失败: ".to_owned().concat(
                e.as_str(),
            ),
        }
    }
}

} // verus!
