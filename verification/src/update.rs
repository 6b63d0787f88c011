//! What arrives from Telegram and what goes out to it, as plain values.
use crate::keyboard::{ButtonView, InlineKeyboardMarkup};
use vstd::prelude::*;

verus! {

/// A message by its chat and its number in that chat.
#[derive(Debug, Clone, Copy)]
pub struct MessageRef {
    pub chat_id: i64,
    pub message_id: i32,
}

/// A press on a button of an inline keyboard.
#[derive(Debug)]
pub struct CallbackQuery {
    /// The message under which the keyboard stands, where Telegram tells.
    pub message: Option<MessageRef>,
    /// What the button sends back.
    pub data: Option<String>,
}

/// A message in a chat.
#[derive(Debug)]
pub struct Message {
    pub chat_id: i64,
    pub message_id: i32,
    pub text: Option<String>,
    /// The message that this one replies to.
    pub reply_to: Option<i32>,
    /// What the buttons under this message send back, row by row; `None` for a button that sends
    /// nothing back.
    pub buttons: Vec<Vec<Option<String>>>,
}

/// What an update tells.
#[derive(Debug)]
pub enum UpdateKind {
    CallbackQuery(CallbackQuery),
    Message(Message),
    Other,
}

/// How the text of a message is read by Telegram.
#[derive(Debug, Clone, Copy, PartialEq, Eq, Structural)]
pub enum TextFormat {
    /// As it stands.
    Plain,
    /// As MarkdownV2.
    MarkdownV2,
    /// As MarkdownV2, once the text has been converted from plain Markdown.
    ConvertedMarkdown,
}

/// A message to send.
#[derive(Debug)]
pub struct SendRequest {
    pub chat_id: i64,
    pub text: String,
    pub format: TextFormat,
    pub keyboard: Option<InlineKeyboardMarkup>,
}

/// A message to send, by the characters of its texts.
pub struct SendView {
    pub chat_id: i64,
    pub text: Seq<char>,
    pub format: TextFormat,
    pub keyboard: Option<Seq<Seq<ButtonView>>>,
}

impl View for SendRequest {
    type V = SendView;

    open spec fn view(&self) -> SendView {
        SendView {
            chat_id: self.chat_id,
            text: self.text@,
            format: self.format,
            keyboard: match self.keyboard {
                Some(k) => Some(k@),
                None => None,
            },
        }
    }
}

/// A keyboard to show in place of the one under a message.
#[derive(Debug)]
pub struct EditRequest {
    pub chat_id: i64,
    pub message_id: i32,
    pub keyboard: InlineKeyboardMarkup,
}

/// An `EditRequest` by the characters of its texts.
pub struct EditView {
    pub chat_id: i64,
    pub message_id: i32,
    pub keyboard: Seq<Seq<ButtonView>>,
}

impl View for EditRequest {
    type V = EditView;

    open spec fn view(&self) -> EditView {
        EditView {
            chat_id: self.chat_id,
            message_id: self.message_id,
            keyboard: self.keyboard@,
        }
    }
}

/// The characters of an optional edit.
pub open spec fn opt_edit(edit: Option<EditRequest>) -> Option<EditView> {
    match edit {
        Some(e) => Some(e@),
        None => None,
    }
}

/// The number to ask for after the update `update_id`: the one that follows its low 32 bits, read
/// as a signed number.
pub open spec fn offset_after(update_id: u32) -> int {
    if update_id < 0x8000_0000 {
        update_id + 1
    } else {
        update_id - 0x1_0000_0000 + 1
    }
}

/// The number to ask for after the update `update_id`. The number `0x7fff_ffff` has none after it.
pub fn next_offset(update_id: u32) -> (offset: i32)
    requires
        update_id != 0x7fff_ffff,
    ensures
        offset == offset_after(update_id),
{
    if update_id < 0x8000_0000 {
        update_id as i32 + 1
    } else {
        (update_id as i64 - 0x1_0000_0000 + 1) as i32
    }
}

/// The updates of a batch by their numbers, where the batch did not fail.
pub open spec fn opt_numbers(batch: Option<&[u32]>) -> Option<Seq<u32>> {
    match batch {
        Some(ids) => Some(ids@),
        None => None,
    }
}

/// Whether a number follows that of each update.
pub open spec fn all_followed(batch: Option<Seq<u32>>) -> bool {
    batch matches Some(ids) ==> forall|i: int|
        0 <= i < ids.len() ==> #[trigger] ids[i] != 0x7fff_ffff
}

/// The number to ask for after a batch: the one after its last update, or the same again where the
/// batch is empty or failed.
pub open spec fn offset_after_batch(offset: int, batch: Option<Seq<u32>>) -> int {
    match batch {
        Some(ids) if ids.len() > 0 => offset_after(ids.last()),
        _ => offset,
    }
}

/// How far polling has got.
#[derive(Debug)]
pub struct Poller {
    offset: i32,
}

impl View for Poller {
    type V = int;

    /// The number to ask for.
    closed spec fn view(&self) -> int {
        self.offset as int
    }
}

impl Poller {
    /// Polling that begins after the updates that wait, as one look shows them: after the last of
    /// them, or at 0 where none waits or the look failed.
    pub fn after_waiting(waiting: Option<&[u32]>) -> (poller: Self)
        requires
            waiting matches Some(ids) ==> ids@.len() > 0 ==> ids@.last() != 0x7fff_ffff,
        ensures
            poller@ == offset_after_batch(0, opt_numbers(waiting)),
    {
        match waiting {
            Some(ids) => if ids.len() > 0 {
                Poller { offset: next_offset(ids[ids.len() - 1]) }
            } else {
                Poller { offset: 0 }
            },
            None => Poller { offset: 0 },
        }
    }

    /// The number to ask for.
    pub fn offset(&self) -> (offset: i32)
        ensures
            offset == self@,
    {
        self.offset
    }

    /// Takes in the numbers of a batch whose updates are handed on in their order, or `None` where
    /// asking failed. Tells whether to pause before asking again.
    pub fn take_batch(&mut self, batch: Option<&[u32]>) -> (pause: bool)
        requires
            all_followed(opt_numbers(batch)),
        ensures
            final(self)@ == offset_after_batch(old(self)@, opt_numbers(batch)),
            pause == batch is None,
    {
        match batch {
            Some(ids) => {
                if ids.len() > 0 {
                    let last: u32 = ids[ids.len() - 1];
                    assert(opt_numbers(batch)->0[ids@.len() - 1] == last);
                    self.offset = next_offset(last);
                }
                false
            },
            None => true,
        }
    }
}

} // verus!
