//! Inline keyboards: the option buttons of a request, two to a row, above a row of action
//! buttons.
use crate::text::{decimal, decimal_text, list_contains, texts};
use vstd::prelude::*;

verus! {

/// A button that sends `callback_data` back when it is pressed.
#[derive(Debug)]
pub struct InlineKeyboardButton {
    pub text: String,
    pub callback_data: String,
}

/// A keyboard shown under a message, row by row.
#[derive(Debug)]
pub struct InlineKeyboardMarkup {
    pub inline_keyboard: Vec<Vec<InlineKeyboardButton>>,
}

/// What a button shows and what it sends back.
pub struct ButtonView {
    pub text: Seq<char>,
    pub data: Seq<char>,
}

impl View for InlineKeyboardButton {
    type V = ButtonView;

    open spec fn view(&self) -> ButtonView {
        ButtonView { text: self.text@, data: self.callback_data@ }
    }
}

/// The buttons of one row.
pub open spec fn row_view(row: Seq<InlineKeyboardButton>) -> Seq<ButtonView> {
    row.map_values(|b: InlineKeyboardButton| b@)
}

/// The buttons of all rows.
pub open spec fn rows_view(rows: Seq<Vec<InlineKeyboardButton>>) -> Seq<Seq<ButtonView>> {
    rows.map_values(|r: Vec<InlineKeyboardButton>| row_view(r@))
}

impl View for InlineKeyboardMarkup {
    type V = Seq<Seq<ButtonView>>;

    open spec fn view(&self) -> Seq<Seq<ButtonView>> {
        rows_view(self.inline_keyboard@)
    }
}

/// The button of the option at `index`: ticked where the option is selected, and sending back
/// `prefix` and the index.
pub open spec fn option_button(
    options: Seq<Seq<char>>,
    selected: Seq<Seq<char>>,
    prefix: Seq<char>,
    index: int,
) -> ButtonView {
    ButtonView {
        text: if selected.contains(options[index]) {
            "✅ "@ + options[index]
        } else {
            options[index]
        },
        data: prefix + decimal(index as nat),
    }
}

/// The row of options that starts at `index`: two options, or the last one alone.
pub open spec fn option_row(
    options: Seq<Seq<char>>,
    selected: Seq<Seq<char>>,
    prefix: Seq<char>,
    index: int,
) -> Seq<ButtonView> {
    if index + 1 < options.len() {
        seq![
            option_button(options, selected, prefix, index),
            option_button(options, selected, prefix, index + 1),
        ]
    } else {
        seq![option_button(options, selected, prefix, index)]
    }
}

/// The rows of all options, in order.
pub open spec fn option_rows(
    options: Seq<Seq<char>>,
    selected: Seq<Seq<char>>,
    prefix: Seq<char>,
) -> Seq<Seq<ButtonView>> {
    Seq::new(
        ((options.len() + 1) / 2) as nat,
        |r: int| option_row(options, selected, prefix, 2 * r),
    )
}

/// The row of actions: send, after continue where it is enabled.
pub open spec fn action_row(
    continue_reply_enabled: bool,
    continue_data: Seq<char>,
    send_data: Seq<char>,
) -> Seq<ButtonView> {
    let send = ButtonView { text: "↗️ 发送"@, data: send_data };
    if continue_reply_enabled {
        seq![ButtonView { text: "⏩ 继续"@, data: continue_data }, send]
    } else {
        seq![send]
    }
}

/// The keyboard whose option buttons send `prefix` and their index back.
pub open spec fn keyboard_view(
    options: Seq<Seq<char>>,
    selected: Seq<Seq<char>>,
    continue_reply_enabled: bool,
    prefix: Seq<char>,
    continue_data: Seq<char>,
    send_data: Seq<char>,
) -> Seq<Seq<ButtonView>> {
    option_rows(options, selected, prefix).push(
        action_row(continue_reply_enabled, continue_data, send_data),
    )
}

fn make_option_button(
    options: &[String],
    selected: &[String],
    prefix: &str,
    index: usize,
) -> (button: InlineKeyboardButton)
    requires
        index < options@.len(),
    ensures
        button@ == option_button(texts(options@), texts(selected@), prefix@, index as int),
{
    let option = &options[index];
    let text = if list_contains(selected, option.as_str()) {
        "✅ ".to_owned().concat(option.as_str())
    } else {
        option.clone()
    };
    let callback_data = prefix.to_owned().concat(decimal_text(index as u64).as_str());
    InlineKeyboardButton { text, callback_data }
}

/// Builds a keyboard: a button for each option, two to a row, and the row of actions.
pub fn build_keyboard(
    predefined_options: &[String],
    selected_options: &[String],
    continue_reply_enabled: bool,
    prefix: &str,
    continue_data: &str,
    send_data: &str,
) -> (keyboard: InlineKeyboardMarkup)
    ensures
        keyboard@ == keyboard_view(
            texts(predefined_options@),
            texts(selected_options@),
            continue_reply_enabled,
            prefix@,
            continue_data@,
            send_data@,
        ),
{
    let ghost options = texts(predefined_options@);
    let ghost selected = texts(selected_options@);
    let ghost all = option_rows(options, selected, prefix@);
    let n: usize = predefined_options.len();
    let mut rows: Vec<Vec<InlineKeyboardButton>> = Vec::new();
    let mut i: usize = 0;
    while i < n
        invariant
            n == predefined_options@.len(),
            options == texts(predefined_options@),
            selected == texts(selected_options@),
            all == option_rows(options, selected, prefix@),
            i <= n,
            i % 2 == 0 || i == n,
            rows@.len() == (i + 1) / 2,
            rows_view(rows@) == all.take(rows@.len() as int),
        decreases n - i,
    {
        let ghost before = rows@;
        let mut row: Vec<InlineKeyboardButton> = Vec::new();
        row.push(make_option_button(predefined_options, selected_options, prefix, i));
        let mut next: usize = i + 1;
        if next < n {
            row.push(make_option_button(predefined_options, selected_options, prefix, next));
            next += 1;
        }
        assert(row_view(row@) == option_row(options, selected, prefix@, i as int));
        rows.push(row);
        proof {
            assert(rows_view(rows@) == rows_view(before).push(row_view(row@)));
            assert(all[before.len() as int] == option_row(options, selected, prefix@, i as int));
            assert(rows_view(rows@) == all.take(rows@.len() as int));
        }
        i = next;
    }
    let ghost before = rows@;
    let mut actions: Vec<InlineKeyboardButton> = Vec::new();
    if continue_reply_enabled {
        actions.push(
            InlineKeyboardButton {
                text: "⏩ 继续".to_owned(),
                callback_data: continue_data.to_owned(),
            },
        );
    }
    actions.push(
        InlineKeyboardButton { text: "↗️ 发送".to_owned(), callback_data: send_data.to_owned() },
    );
    proof {
        assert(row_view(actions@) == action_row(continue_reply_enabled, continue_data@, send_data@));
    }
    rows.push(actions);
    proof {
        assert(rows_view(rows@) == rows_view(before).push(row_view(actions@)));
        assert(rows_view(before) == all);
    }
    InlineKeyboardMarkup { inline_keyboard: rows }
}

/// Every option has its button, in order: the option at `index` stands in row `index / 2`, at
/// place `index % 2`.
pub proof fn option_button_place(
    options: Seq<Seq<char>>,
    selected: Seq<Seq<char>>,
    continue_reply_enabled: bool,
    prefix: Seq<char>,
    continue_data: Seq<char>,
    send_data: Seq<char>,
    index: int,
)
    requires
        0 <= index < options.len(),
    ensures
        ({
            let rows = keyboard_view(
                options,
                selected,
                continue_reply_enabled,
                prefix,
                continue_data,
                send_data,
            );
            &&& index / 2 < rows.len()
            &&& index % 2 < rows[index / 2].len()
            &&& rows[index / 2][index % 2] == option_button(options, selected, prefix, index)
        }),
{
    assert(2 * (index / 2) + index % 2 == index);
}

/// No row holds more than two buttons, and no row is empty.
pub proof fn rows_are_narrow(
    options: Seq<Seq<char>>,
    selected: Seq<Seq<char>>,
    continue_reply_enabled: bool,
    prefix: Seq<char>,
    continue_data: Seq<char>,
    send_data: Seq<char>,
    row: int,
)
    requires
        0 <= row < keyboard_view(
            options,
            selected,
            continue_reply_enabled,
            prefix,
            continue_data,
            send_data,
        ).len(),
    ensures
        1 <= keyboard_view(
            options,
            selected,
            continue_reply_enabled,
            prefix,
            continue_data,
            send_data,
        )[row].len() <= 2,
{
}

} // verus!
