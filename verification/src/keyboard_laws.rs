//! What a keyboard shows and what its buttons send back, and what toggling does to a selection.
use crate::dispatcher::session_keyboard;
use crate::keyboard::{keyboard_view, ButtonView};
use crate::selection::{toggled, without};
use crate::telegram_core::plain_keyboard;
use crate::text::decimal;
use vstd::prelude::*;

verus! {

/// Every option has a button in its place, ticked exactly where the selection contains the option,
/// whatever else is selected; the button sends the prefix and the index of the option back.
pub proof fn a_button_shows_its_option(
    options: Seq<Seq<char>>,
    selected: Seq<Seq<char>>,
    continue_reply_enabled: bool,
    prefix: Seq<char>,
    continue_data: Seq<char>,
    send_data: Seq<char>,
    index: int,
)
    requires
        0 <= index < options.len(),
    ensures
        ({
            let button = keyboard_view(
                options,
                selected,
                continue_reply_enabled,
                prefix,
                continue_data,
                send_data,
            )[index / 2][index % 2];
            &&& selected.contains(options[index]) ==> button.text == "✅ "@ + options[index]
            &&& !selected.contains(options[index]) ==> button.text == options[index]
            &&& button.data == prefix + decimal(index as nat)
        }),
{
    assert(2 * (index / 2) + index % 2 == index);
}

/// A keyboard has two options to a row, the last one alone where their number is odd, and then one
/// row of actions: send, after continue where it is enabled.
pub proof fn a_keyboard_has_its_rows(
    options: Seq<Seq<char>>,
    selected: Seq<Seq<char>>,
    continue_reply_enabled: bool,
    prefix: Seq<char>,
    continue_data: Seq<char>,
    send_data: Seq<char>,
    row: int,
)
    ensures
        ({
            let rows = keyboard_view(
                options,
                selected,
                continue_reply_enabled,
                prefix,
                continue_data,
                send_data,
            );
            let actions = rows[rows.len() - 1];
            &&& rows.len() == (options.len() + 1) / 2 + 1
            &&& 0 <= row < options.len() / 2 ==> rows[row].len() == 2
            &&& row == options.len() / 2 && options.len() % 2 == 1 ==> rows[row].len() == 1
            &&& actions.len() == if continue_reply_enabled { 2nat } else { 1 }
            &&& actions[actions.len() - 1] == ButtonView { text: "↗️ 发送"@, data: send_data }
            &&& continue_reply_enabled ==> actions[0] == ButtonView {
                text: "⏩ 继续"@,
                data: continue_data,
            }
        }),
{
}

/// The keyboard of a chat that serves one request: its option buttons send `t:` and the index back,
/// its actions `action:continue` and `action:send`.
pub proof fn a_plain_keyboard_sends_indexes(
    options: Seq<Seq<char>>,
    selected: Seq<Seq<char>>,
    continue_reply_enabled: bool,
    index: int,
)
    ensures
        ({
            let rows = plain_keyboard(options, selected, continue_reply_enabled);
            let actions = rows[rows.len() - 1];
            &&& rows.len() == (options.len() + 1) / 2 + 1
            &&& 0 <= index < options.len() ==> {
                let button = rows[index / 2][index % 2];
                &&& selected.contains(options[index]) ==> button.text == "✅ "@ + options[index]
                &&& !selected.contains(options[index]) ==> button.text == options[index]
                &&& button.data == "t:"@ + decimal(index as nat)
            }
            &&& 0 <= index < options.len() / 2 ==> rows[index].len() == 2
            &&& options.len() % 2 == 1 ==> rows[options.len() as int / 2].len() == 1
            &&& actions.len() == if continue_reply_enabled { 2nat } else { 1 }
            &&& actions[actions.len() - 1].data == "action:send"@
            &&& actions[actions.len() - 1].text == "↗️ 发送"@
            &&& continue_reply_enabled ==> actions[0].data == "action:continue"@
            &&& continue_reply_enabled ==> actions[0].text == "⏩ 继续"@
        }),
{
    if 0 <= index < options.len() {
        a_button_shows_its_option(
            options,
            selected,
            continue_reply_enabled,
            "t:"@,
            "action:continue"@,
            "action:send"@,
            index,
        );
    }
}

/// The keyboard of a session: its option buttons send `t:`, the id of the session and the index
/// back, its actions `a:`, the id and `c` or `s`.
pub proof fn a_session_keyboard_sends_its_id(
    id: Seq<char>,
    options: Seq<Seq<char>>,
    selected: Seq<Seq<char>>,
    continue_reply_enabled: bool,
    index: int,
)
    ensures
        ({
            let rows = session_keyboard(id, options, selected, continue_reply_enabled);
            let actions = rows[rows.len() - 1];
            &&& rows.len() == (options.len() + 1) / 2 + 1
            &&& 0 <= index < options.len() ==> {
                let button = rows[index / 2][index % 2];
                &&& selected.contains(options[index]) ==> button.text == "✅ "@ + options[index]
                &&& !selected.contains(options[index]) ==> button.text == options[index]
                &&& button.data == "t:"@ + id + ":"@ + decimal(index as nat)
            }
            &&& 0 <= index < options.len() / 2 ==> rows[index].len() == 2
            &&& options.len() % 2 == 1 ==> rows[options.len() as int / 2].len() == 1
            &&& actions.len() == if continue_reply_enabled { 2nat } else { 1 }
            &&& actions[actions.len() - 1].data == "a:"@ + id + ":s"@
            &&& actions[actions.len() - 1].text == "↗️ 发送"@
            &&& continue_reply_enabled ==> actions[0].data == "a:"@ + id + ":c"@
            &&& continue_reply_enabled ==> actions[0].text == "⏩ 继续"@
        }),
{
    if 0 <= index < options.len() {
        a_button_shows_its_option(
            options,
            selected,
            continue_reply_enabled,
            "t:"@ + id + ":"@,
            "a:"@ + id + ":c"@,
            "a:"@ + id + ":s"@,
            index,
        );
    }
}

/// Toggling an option that is not selected puts it last; toggling one that is selected takes it out
/// from between the others, which stay as they stand.
pub proof fn toggling_puts_last_or_takes_out(
    before: Seq<Seq<char>>,
    option: Seq<char>,
    behind: Seq<Seq<char>>,
)
    requires
        !before.contains(option),
        !behind.contains(option),
    ensures
        toggled(before, option) == before.push(option),
        toggled(before.push(option) + behind, option) == before + behind,
{
    let all = before.push(option) + behind;
    assert(all[before.len() as int] == option);
    lemma_without_around(before, option, behind);
}

proof fn lemma_without_push(list: Seq<Seq<char>>, last: Seq<char>, item: Seq<char>)
    ensures
        without(list.push(last), item) == if last == item {
            without(list, item)
        } else {
            without(list, item).push(last)
        },
{
    reveal(Seq::filter);
    assert(list.push(last).drop_last() == list);
}

proof fn lemma_without_all(list: Seq<Seq<char>>, item: Seq<char>)
    requires
        !list.contains(item),
    ensures
        without(list, item) == list,
    decreases list.len(),
{
    if list.len() > 0 {
        let init = list.drop_last();
        assert forall|i: int| 0 <= i < init.len() implies init[i] != item by {
            assert(list[i] != item);
        }
        lemma_without_all(init, item);
        assert(list[list.len() - 1] != item);
        assert(list == init.push(list.last()));
        lemma_without_push(init, list.last(), item);
    } else {
        reveal(Seq::filter);
    }
}

proof fn lemma_without_around(
    before: Seq<Seq<char>>,
    item: Seq<char>,
    behind: Seq<Seq<char>>,
)
    requires
        !before.contains(item),
        !behind.contains(item),
    ensures
        without(before.push(item) + behind, item) == before + behind,
    decreases behind.len(),
{
    let all = before.push(item) + behind;
    if behind.len() == 0 {
        assert(all == before.push(item));
        lemma_without_push(before, item, item);
        lemma_without_all(before, item);
        assert(before + behind == before);
    } else {
        let init = behind.drop_last();
        assert forall|i: int| 0 <= i < init.len() implies init[i] != item by {
            assert(behind[i] != item);
        }
        lemma_without_around(before, item, init);
        assert(behind[behind.len() - 1] != item);
        assert(all == (before.push(item) + init).push(behind.last()));
        lemma_without_push(before.push(item) + init, behind.last(), item);
        assert(before + behind == (before + init).push(behind.last()));
    }
}

/// Toggling an option twice where it was not selected, or was selected last, leaves the selection
/// as it was; elsewhere it moves the option to the end.
pub proof fn toggling_twice_moves_to_the_end(
    before: Seq<Seq<char>>,
    option: Seq<char>,
    behind: Seq<Seq<char>>,
)
    requires
        !before.contains(option),
        !behind.contains(option),
    ensures
        toggled(toggled(before, option), option) == before,
        toggled(toggled(before.push(option) + behind, option), option) == (before + behind).push(
            option,
        ),
{
    let none = Seq::<Seq<char>>::empty();
    assert(!none.contains(option));
    toggling_puts_last_or_takes_out(before, option, none);
    assert(before.push(option) + none == before.push(option));
    assert(before + none == before);
    toggling_puts_last_or_takes_out(before, option, behind);
    let both = before + behind;
    assert(!both.contains(option)) by {
        if both.contains(option) {
            let i = choose|i: int| 0 <= i < both.len() && both[i] == option;
            if i < before.len() {
                assert(before[i] == option);
            } else {
                assert(behind[i - before.len()] == option);
            }
        }
    }
    toggling_puts_last_or_takes_out(both, option, none);
}

} // verus!
