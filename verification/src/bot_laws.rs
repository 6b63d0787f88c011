//! What a bot is set up with, what it sends, and what presses, texts and errors stand for.
use crate::commands::message_request;
use crate::error::{error_words, ErrorView, TelegramError};
use crate::keyboard_laws::a_plain_keyboard_sends_indexes;
use crate::outside::JsonEntry;
use crate::telegram_core::{
    arrived_after_all, asked_for, callback_action, command_of, connection_test, core_result,
    event_entries, event_of, feedback, good_url, in_chat, message_error, new_core, opt_action,
    opt_event, option_lines, options_error, options_format, options_request, outcome_error,
    outcome_words, parsed_api_url, plain_keyboard, report_result, test_core, test_report,
    text_event, text_request, url_outcome, with_client, ActionEvent, CallbackAction,
    CallbackActionView, CoreView, EventView, TelegramCore, TelegramEvent,
};
use crate::text::{
    decimal, decimal_reads_back, i64_value, is_blank_text, signed_decimal,
    signed_decimal_reads_back, usize_value, without_prefix,
};
use crate::text_laws::{
    a_part_occurs_where_it_stands, a_prefix_comes_off, printable_ascii_is_not_white,
};
use crate::update::{offset_after, CallbackQuery, Message, SendView, TextFormat};
use vstd::prelude::*;

verus! {

/// The address that a bot is set up with, where it has one of its own: the parsed one.
pub open spec fn is_own_address(
    parsed: Option<Result<Seq<char>, Seq<char>>>,
    address: Option<Seq<char>>,
) -> bool {
    match parsed {
        None => address is None,
        Some(Ok(url)) => address == Some(url),
        Some(Err(_)) => false,
    }
}

/// A bot is set up for every chat number, negative ones with their sign, and for the given token and
/// address.
pub proof fn a_bot_is_set_up_for_every_chat(
    bot_token: Seq<char>,
    chat_id: i64,
    parsed: Option<Result<Seq<char>, Seq<char>>>,
    address: Option<Seq<char>>,
)
    requires
        is_own_address(parsed, address),
    ensures
        new_core(bot_token, signed_decimal(chat_id as int), parsed) == Ok::<CoreView, ErrorView>(
            CoreView { bot_token, api_url: address, chat_id },
        ),
{
    lemma_written_chat(chat_id);
}

/// The written number of a chat reads back, and begins with a minus sign or a digit.
proof fn lemma_written_chat(chat_id: i64)
    ensures
        i64_value(signed_decimal(chat_id as int)) == Some(chat_id),
        !"@"@.is_prefix_of(signed_decimal(chat_id as int)),
        !is_blank_text(signed_decimal(chat_id as int)),
{
    let text = signed_decimal(chat_id as int);
    signed_decimal_reads_back(chat_id as int);
    reveal_strlit("@");
    if chat_id < 0 {
        assert(text[0] == '-');
    } else {
        decimal_reads_back(chat_id as nat);
        assert('0' <= text[0] <= '9');
    }
    printable_ascii_is_not_white(text[0]);
    if "@"@.is_prefix_of(text) {
        assert(text[0] == "@"@[0]);
    }
}

/// What a bot is set up with is what was given: its token, its parsed address and the number that
/// the chat reads as. It is refused for a bad address first, then for a user name, then for a chat
/// that is no number, and for nothing else.
pub proof fn a_bot_is_refused_for_its_input(
    bot_token: Seq<char>,
    chat_id: Seq<char>,
    parsed: Option<Result<Seq<char>, Seq<char>>>,
    words: Seq<char>,
)
    ensures
        new_core(bot_token, chat_id, parsed) matches Ok(c) ==> {
            &&& c.bot_token == bot_token
            &&& i64_value(chat_id) == Some(c.chat_id)
            &&& is_own_address(parsed, c.api_url)
        },
        new_core(bot_token, chat_id, Some(Err(words))) == Err::<CoreView, ErrorView>(
            ErrorView::InvalidApiUrl(words),
        ),
        !(parsed matches Some(Err(_))) && chat_id.len() > 0 && chat_id[0] == '@' ==> new_core(
            bot_token,
            chat_id,
            parsed,
        ) == Err::<CoreView, ErrorView>(ErrorView::UsernameChatId),
        !(parsed matches Some(Err(_))) && (chat_id.len() == 0 || chat_id[0] != '@')
            && i64_value(chat_id) is None ==> new_core(bot_token, chat_id, parsed) == Err::<
            CoreView,
            ErrorView,
        >(ErrorView::InvalidChatId),
        !(parsed matches Some(Err(_))) && (chat_id.len() == 0 || chat_id[0] != '@')
            && i64_value(chat_id) is Some ==> new_core(bot_token, chat_id, parsed) is Ok,
{
    reveal_strlit("@");
    if chat_id.len() > 0 && chat_id[0] == '@' {
        assert("@"@.is_prefix_of(chat_id));
    } else if "@"@.is_prefix_of(chat_id) {
        assert(chat_id[0] == "@"@[0]);
    }
}

/// A chat that was found passes the connection test: for every chat number, a token that is not
/// blank and an address that is absent or parses, the test sends its message to exactly that chat.
pub proof fn a_found_chat_passes_the_test(
    bot_token: Seq<char>,
    chat_id: i64,
    parsed: Option<Result<Seq<char>, Seq<char>>>,
    address: Option<Seq<char>>,
)
    requires
        !is_blank_text(bot_token),
        is_own_address(parsed, address),
    ensures
        connection_test(test_core(bot_token, signed_decimal(chat_id as int), parsed)) == Ok::<
            (CoreView, SendView),
            ErrorView,
        >(
            (
                CoreView { bot_token, api_url: address, chat_id },
                SendView {
                    chat_id,
                    text: "🤖 恒境应用测试消息\n\n这是一条来自恒境应用的测试消息，表示Telegram Bot配置成功！"@,
                    format: TextFormat::Plain,
                    keyboard: None,
                },
            ),
        ),
{
    lemma_written_chat(chat_id);
}

/// A connection test is refused for a blank token first, then for a blank chat, then for a bad
/// address, then for a chat that is no number; otherwise it finds what a bot would be set up with.
pub proof fn a_test_is_refused_for_its_input(
    bot_token: Seq<char>,
    chat_id: Seq<char>,
    parsed: Option<Result<Seq<char>, Seq<char>>>,
    words: Seq<char>,
)
    ensures
        is_blank_text(bot_token) ==> test_core(bot_token, chat_id, parsed) == Err::<
            CoreView,
            ErrorView,
        >(ErrorView::EmptyBotToken),
        !is_blank_text(bot_token) && is_blank_text(chat_id) ==> test_core(
            bot_token,
            chat_id,
            parsed,
        ) == Err::<CoreView, ErrorView>(ErrorView::EmptyChatId),
        !is_blank_text(bot_token) && !is_blank_text(chat_id) ==> {
            &&& test_core(bot_token, chat_id, Some(Err(words))) == Err::<CoreView, ErrorView>(
                ErrorView::InvalidApiUrl(words),
            )
            &&& !(parsed matches Some(Err(_))) && i64_value(chat_id) is None ==> test_core(
                bot_token,
                chat_id,
                parsed,
            ) == Err::<CoreView, ErrorView>(ErrorView::InvalidTestChatId)
            &&& !(parsed matches Some(Err(_))) && i64_value(chat_id) is Some ==> {
                let core = test_core(bot_token, chat_id, parsed);
                &&& core is Ok
                &&& core->Ok_0.bot_token == bot_token
                &&& core->Ok_0.chat_id == i64_value(chat_id)->0
                &&& is_own_address(parsed, core->Ok_0.api_url)
            }
        },
        connection_test(Err(ErrorView::InvalidApiUrl(words))) == Err::<
            (CoreView, SendView),
            ErrorView,
        >(ErrorView::InvalidApiUrl(words)),
{
}

/// The errors of a connection test and of a message are those of its bot, and a message goes out
/// from its bot, to its chat, with the text as it was given.
pub proof fn a_prepared_message_is_that_of_its_bot(
    core: CoreView,
    error: ErrorView,
    message: Seq<char>,
    use_markdown: bool,
)
    ensures
        connection_test(Err(error)) == Err::<(CoreView, SendView), ErrorView>(error),
        connection_test(Ok(core)) == Ok::<(CoreView, SendView), ErrorView>(
            (
                core,
                SendView {
                    chat_id: core.chat_id,
                    text: "🤖 恒境应用测试消息\n\n这是一条来自恒境应用的测试消息，表示Telegram Bot配置成功！"@,
                    format: TextFormat::Plain,
                    keyboard: None,
                },
            ),
        ),
        message_request(Err(error), message, use_markdown) == Err::<(CoreView, SendView), ErrorView>(
            error,
        ),
        message_request(Ok(core), message, use_markdown) matches Ok((c, m)) && c == core
            && m.chat_id == core.chat_id && m.text == message && m.keyboard is None && m.format
            == if use_markdown {
            TextFormat::MarkdownV2
        } else {
            TextFormat::Plain
        },
{
}

/// A message goes to its chat with the text as it was given, without a keyboard, and is read as
/// MarkdownV2 only where that was asked for.
pub proof fn a_message_goes_out_as_given(chat_id: i64, message: Seq<char>)
    ensures
        ({
            let plain = text_request(chat_id, message, false);
            let marked = text_request(chat_id, message, true);
            &&& plain.chat_id == chat_id && marked.chat_id == chat_id
            &&& plain.text == message && marked.text == message
            &&& plain.keyboard is None && marked.keyboard is None
            &&& plain.format == TextFormat::Plain
            &&& marked.format == TextFormat::MarkdownV2
        }),
        options_format(true) == TextFormat::ConvertedMarkdown,
        options_format(false) == TextFormat::Plain,
{
}

/// A client with a name stands in brackets above the message; a client without one changes nothing.
pub proof fn a_client_is_named_above_its_message(name: Seq<char>, message: Seq<char>)
    ensures
        with_client(None, message) == message,
        with_client(Some(Seq::empty()), message) == message,
        name.len() > 0 ==> with_client(Some(name), message) == "["@ + name + "]\n\n"@ + message,
{
}

/// The outcome of parsing an address is taken over as it is; only an address that parsed is used.
pub proof fn a_parsed_address_is_taken_over(text: Seq<char>, words: String)
    ensures
        good_url(None) is None,
        good_url(Some(Ok(text))) == Some(text),
        good_url(Some(Err(text))) is None,
        parsed_api_url(None) is None,
        parsed_api_url(Some(text)) == Some(crate::outside::parsed_url(text)),
        url_outcome(None) is None,
        url_outcome(Some(Ok(words))) == Some(Ok::<Seq<char>, Seq<char>>(words@)),
        url_outcome(Some(Err(words))) == Some(Err::<Seq<char>, Seq<char>>(words@)),
{
}

/// The words of a send error tell of an arrival where both marks stand somewhere in them, and only
/// there.
pub proof fn an_arrival_shows_in_two_marks(words: Seq<char>)
    ensures
        arrived_after_all(words) <==> (exists|a: Seq<char>, b: Seq<char>|
            words == #[trigger] (a + "parsing JSON"@ + b)) && (exists|c: Seq<char>, d: Seq<char>|
            words == #[trigger] (c + "\\\"ok\\\":true"@ + d)),
{
    let none = Seq::<char>::empty();
    a_part_occurs_where_it_stands(none, "parsing JSON"@, none, words);
    a_part_occurs_where_it_stands(none, "\\\"ok\\\":true"@, none, words);
    if (exists|a: Seq<char>, b: Seq<char>| words == #[trigger] (a + "parsing JSON"@ + b)) && (
    exists|c: Seq<char>, d: Seq<char>| words == #[trigger] (c + "\\\"ok\\\":true"@ + d)) {
        let (a, b) = choose|a: Seq<char>, b: Seq<char>|
            words == #[trigger] (a + "parsing JSON"@ + b);
        let (c, d) = choose|c: Seq<char>, d: Seq<char>|
            words == #[trigger] (c + "\\\"ok\\\":true"@ + d);
        a_part_occurs_where_it_stands(a, "parsing JSON"@, b, words);
        a_part_occurs_where_it_stands(c, "\\\"ok\\\":true"@, d, words);
    }
}

/// A send that failed is reported with the words of its error; one with options, unless these words
/// tell that the message arrived. A send without an error is not reported.
pub proof fn a_failed_send_is_reported(
    words: Seq<char>,
    outcome: Result<(), String>,
    result: Result<(), TelegramError>,
    report: Result<String, TelegramError>,
)
    ensures
        message_error(None) is None,
        options_error(None) is None,
        message_error(Some(words)) == Some(ErrorView::SendFailed(words)),
        arrived_after_all(words) ==> options_error(Some(words)) is None,
        !arrived_after_all(words) ==> options_error(Some(words)) == Some(
            ErrorView::SendOptionsFailed(words),
        ),
        test_report(None) == Ok::<Seq<char>, ErrorView>(
            "测试消息发送成功！Telegram Bot配置正确。"@,
        ),
        test_report(Some(words)) == Err::<Seq<char>, ErrorView>(ErrorView::SendTestFailed(words)),
        outcome is Ok ==> outcome_words(outcome) is None,
        outcome matches Err(e) ==> outcome_words(outcome) == Some(e@),
        result is Ok ==> outcome_error(result) is None,
        result matches Err(e) ==> outcome_error(result) == Some(e@),
        report matches Ok(w) ==> report_result(report) == Ok::<Seq<char>, ErrorView>(w@),
        report matches Err(e) ==> report_result(report) == Err::<Seq<char>, ErrorView>(e@),
{
}

/// A message with options goes to its chat under the name of its client, is converted where it is
/// Markdown, and shows every option without a tick.
pub proof fn a_message_with_options_goes_out_as_given(
    chat_id: i64,
    name: Seq<char>,
    message: Seq<char>,
    options: Seq<Seq<char>>,
    is_markdown: bool,
    continue_reply_enabled: bool,
    index: int,
)
    ensures
        ({
            let sent = options_request(
                chat_id,
                None,
                message,
                options,
                is_markdown,
                continue_reply_enabled,
            );
            let named = options_request(
                chat_id,
                Some(name),
                message,
                options,
                is_markdown,
                continue_reply_enabled,
            );
            &&& sent.chat_id == chat_id && named.chat_id == chat_id
            &&& sent.text == message
            &&& name.len() > 0 ==> named.text == "["@ + name + "]\n\n"@ + message
            &&& name.len() == 0 ==> named.text == message
            &&& named.format == sent.format && sent.format == if is_markdown {
                TextFormat::ConvertedMarkdown
            } else {
                TextFormat::Plain
            }
            &&& named.keyboard == sent.keyboard
            &&& sent.keyboard == Some(plain_keyboard(options, Seq::empty(), continue_reply_enabled))
            &&& 0 <= index < options.len() ==> sent.keyboard->0[index / 2][index % 2].text
                == options[index]
        }),
{
    a_plain_keyboard_sends_indexes(options, Seq::empty(), continue_reply_enabled, index);
}

/// A press asks for what its data asks for, unless it comes from another chat or has no data; a
/// message stands for what its text stands for, unless it comes from another chat, has no text, or
/// is not newer than the message after which messages count.
pub proof fn what_counts_comes_from_the_chat(
    query: CallbackQuery,
    message: Message,
    chat_id: i64,
    options: Seq<Seq<char>>,
    after: i32,
)
    ensures
        query.data is None || (query.message is Some && query.message->0.chat_id != chat_id)
            ==> asked_for(query, chat_id, options) is None,
        query.data is Some && (query.message is None || query.message->0.chat_id == chat_id)
            ==> asked_for(query, chat_id, options) == callback_action(query.data->0@, options),
        message.text is None || message.chat_id != chat_id ==> event_of(message, chat_id, None)
            is None,
        message.text is Some && message.chat_id == chat_id ==> event_of(message, chat_id, None)
            == Some(text_event(message.text->0@)),
        message.message_id <= after ==> event_of(message, chat_id, Some(after)) is None,
        message.message_id > after ==> event_of(message, chat_id, Some(after)) == event_of(
            message,
            chat_id,
            None,
        ),
{
}

/// Data that is `t:` and the number of an option asks for that option; data that names an option
/// on offer behind `toggle:` asks for that one; the two action texts ask for their actions; and
/// nothing else asks for anything.
pub proof fn data_asks_for_what_it_names(
    options: Seq<Seq<char>>,
    payload: Seq<char>,
    data: Seq<char>,
    index: usize,
)
    ensures
        callback_action("action:send"@, options) == Some(
            CallbackActionView::ActionEvent(ActionEvent::Send),
        ),
        callback_action("action:continue"@, options) == Some(
            CallbackActionView::ActionEvent(ActionEvent::Continue),
        ),
        usize_value(payload) == Some(index) && index < options.len() ==> callback_action(
            "t:"@ + payload,
            options,
        ) == Some(CallbackActionView::OptionToggled(options[index as int])),
        usize_value(payload) is None || usize_value(payload)->0 >= options.len() ==> callback_action(
            "t:"@ + payload,
            options,
        ) is None,
        options.contains(payload) ==> callback_action("toggle:"@ + payload, options) == Some(
            CallbackActionView::OptionToggled(payload),
        ),
        !options.contains(payload) ==> callback_action("toggle:"@ + payload, options) is None,
        data != "action:send"@ && data != "action:continue"@ && !"t:"@.is_prefix_of(data)
            && !"toggle:"@.is_prefix_of(data) ==> callback_action(data, options) is None,
{
    reveal_strlit("action:send");
    reveal_strlit("action:continue");
    reveal_strlit("t:");
    reveal_strlit("toggle:");
    assert("action:send"@.len() != "action:continue"@.len());
    let by_index = "t:"@ + payload;
    let by_name = "toggle:"@ + payload;
    a_prefix_comes_off("t:"@, payload, by_index);
    a_prefix_comes_off("toggle:"@, payload, by_name);
    a_prefix_comes_off("t:"@, payload, data);
    a_prefix_comes_off("toggle:"@, payload, data);
    assert(by_index[0] == 't');
    assert(by_name[0] == 't');
    assert(by_name[1] == 'o');
    assert("action:send"@[0] == 'a');
    assert("action:continue"@[0] == 'a');
    assert(without_prefix(by_name, "t:"@) is None) by {
        if "t:"@.is_prefix_of(by_name) {
            assert(by_name[1] == "t:"@[1]);
        }
    }
}

/// A press belongs to a chat unless its message is known to stand in another.
pub proof fn a_press_belongs_unless_it_is_elsewhere(query: CallbackQuery, chat_id: i64)
    ensures
        query.message is None ==> in_chat(query, chat_id),
        query.message is Some ==> in_chat(query, chat_id) == (query.message->0.chat_id == chat_id),
{
}

/// Six texts are commands, and every other text is a text.
pub proof fn six_texts_are_commands(text: Seq<char>)
    ensures
        command_of("⏩继续"@) == Some(ActionEvent::Continue),
        command_of("/heng_continue"@) == Some(ActionEvent::Continue),
        command_of("/heng-continue"@) == Some(ActionEvent::Continue),
        command_of("↗️发送"@) == Some(ActionEvent::Send),
        command_of("/heng_send"@) == Some(ActionEvent::Send),
        command_of("/heng-send"@) == Some(ActionEvent::Send),
        command_of(text) == Some(ActionEvent::Continue) ==> text == "⏩继续"@ || text
            == "/heng_continue"@ || text == "/heng-continue"@,
        command_of(text) == Some(ActionEvent::Send) ==> text == "↗️发送"@ || text == "/heng_send"@
            || text == "/heng-send"@,
        command_of(text) == Some(ActionEvent::Continue) <==> text_event(text)
            == EventView::ContinuePressed,
        command_of(text) == Some(ActionEvent::Send) <==> text_event(text) == EventView::SendPressed,
        command_of(text) is None ==> text_event(text) == (EventView::TextUpdated { text }),
{
    reveal_strlit("⏩继续");
    reveal_strlit("/heng_continue");
    reveal_strlit("/heng-continue");
    reveal_strlit("↗️发送");
    reveal_strlit("/heng_send");
    reveal_strlit("/heng-send");
    assert("⏩继续"@[0] != "↗️发送"@[0]);
    assert("/heng_continue"@[0] != "↗️发送"@[0]);
    assert("/heng_continue"@.len() != "/heng_send"@.len());
    assert("⏩继续"@[0] != "/heng_send"@[0]);
    assert("/heng-continue"@.len() != "/heng-send"@.len());
}

/// The options of a confirmation stand one to a line, in their order.
pub proof fn options_stand_one_to_a_line(
    before: Seq<Seq<char>>,
    option: Seq<char>,
    behind: Seq<Seq<char>>,
)
    ensures
        option_lines(Seq::empty()) == Seq::<char>::empty(),
        option_lines(seq![option]) == "• "@ + option + "\n"@,
        option_lines(before + behind) == option_lines(before) + option_lines(behind),
    decreases behind.len(),
{
    reveal_with_fuel(option_lines, 2);
    let one = seq![option];
    assert(one.drop_last() == Seq::<Seq<char>>::empty());
    assert(one.last() == option);
    assert(option_lines(one) == "• "@ + option + "\n"@);
    if behind.len() == 0 {
        assert(before + behind == before);
        assert(option_lines(before) + option_lines(behind) == option_lines(before));
    } else {
        options_stand_one_to_a_line(before, option, behind.drop_last());
        let all = before + behind;
        assert(all.drop_last() == before + behind.drop_last());
        assert(all.last() == behind.last());
        assert(option_lines(all) == option_lines(before) + option_lines(behind));
    }
}

/// A confirmation of a send names every selected option and the text, or says that none is
/// selected; one of a continue names the prompt, whatever is selected or entered.
pub proof fn a_confirmation_names_what_was_sent(
    selected: Seq<Seq<char>>,
    user_input: Seq<char>,
    prompt: Seq<char>,
    any: Option<Seq<char>>,
)
    ensures
        ({
            let head = "✅ 发送成功！\n\n📝 选中的选项：\n"@;
            let told = if selected.len() == 0 {
                head + "• 无"@
            } else {
                head + option_lines(selected)
            };
            &&& feedback(selected, Seq::empty(), false, any) == told
            &&& user_input.len() > 0 ==> feedback(selected, user_input, false, any) == told
                + "\n📝 补充说明：\n"@ + user_input
            &&& feedback(selected, user_input, true, Some(prompt))
                == "✅ 发送成功！\n\n📝 选中的选项：\n• ⏩ "@ + prompt
            &&& feedback(selected, user_input, true, None)
                == "✅ 发送成功！\n\n📝 选中的选项：\n• ⏩ "@ + "请按照最佳实践继续"@
        }),
{
    let head = "✅ 发送成功！\n\n📝 选中的选项：\n"@;
    let told = if selected.len() == 0 {
        head + "• 无"@
    } else {
        head + option_lines(selected)
    };
    assert(feedback(selected, Seq::empty(), false, any) == told);
    if user_input.len() > 0 {
        assert(feedback(selected, user_input, false, any) == told + "\n📝 补充说明：\n"@
            + user_input);
    }
}

/// Every selected option and the whole text can be read in the confirmation of a send.
pub proof fn a_confirmation_holds_each_option(
    selected: Seq<Seq<char>>,
    i: int,
    user_input: Seq<char>,
    any: Option<Seq<char>>,
)
    requires
        0 <= i < selected.len(),
    ensures
        crate::text::occurs_in(
            "• "@ + selected[i] + "\n"@,
            feedback(selected, user_input, false, any),
        ),
        user_input.is_suffix_of(feedback(selected, user_input, false, any)),
{
    let head = "✅ 发送成功！\n\n📝 选中的选项：\n"@;
    let a = selected.take(i);
    let o = selected[i];
    let b = selected.skip(i + 1);
    assert(selected == a + (seq![o] + b));
    options_stand_one_to_a_line(a, o, seq![o] + b);
    options_stand_one_to_a_line(seq![o], o, b);
    let line = "• "@ + o + "\n"@;
    let tail = if user_input.len() == 0 {
        Seq::empty()
    } else {
        "\n📝 补充说明：\n"@ + user_input
    };
    let whole = feedback(selected, user_input, false, any);
    let before = head + option_lines(a);
    let behind = option_lines(b) + tail;
    assert(whole == before + line + behind);
    a_part_occurs_where_it_stands(before, line, behind, whole);
    assert(user_input.is_suffix_of(whole)) by {
        if user_input.len() > 0 {
            let rest = head + option_lines(selected) + "\n📝 补充说明：\n"@;
            assert(whole == rest + user_input);
            assert(whole.subrange(rest.len() as int, whole.len() as int) == user_input);
        } else {
            assert(whole.subrange(whole.len() as int, whole.len() as int) == user_input);
        }
    }
}

/// An event is written with its type and each of its fields, and nothing else.
pub proof fn an_event_is_written_with_its_fields(option: Seq<char>, selected: bool)
    ensures
        ({
            let e = event_entries(EventView::OptionToggled { option, selected });
            &&& e.dom() == set!["type"@, "option"@, "selected"@]
            &&& e["type"@] == JsonEntry::Text("option_toggled"@)
            &&& e["option"@] == JsonEntry::Text(option)
            &&& e["selected"@] == JsonEntry::Flag(selected)
        }),
        ({
            let e = event_entries(EventView::TextUpdated { text: option });
            &&& e.dom() == set!["type"@, "text"@]
            &&& e["type"@] == JsonEntry::Text("text_updated"@)
            &&& e["text"@] == JsonEntry::Text(option)
        }),
        event_entries(EventView::ContinuePressed).dom() == set!["type"@],
        event_entries(EventView::ContinuePressed)["type"@] == JsonEntry::Text("continue_pressed"@),
        event_entries(EventView::SendPressed).dom() == set!["type"@],
        event_entries(EventView::SendPressed)["type"@] == JsonEntry::Text("send_pressed"@),
{
    reveal_strlit("type");
    reveal_strlit("option");
    reveal_strlit("selected");
    reveal_strlit("text");
    assert("type"@.len() != "option"@.len());
    assert("type"@.len() != "selected"@.len());
    assert("option"@.len() != "selected"@.len());
    assert("type"@[1] != "text"@[1]);
    assert(event_entries(EventView::OptionToggled { option, selected }).dom() =~= set![
        "type"@,
        "option"@,
        "selected"@,
    ]);
    assert(event_entries(EventView::TextUpdated { text: option }).dom() =~= set!["type"@, "text"@]);
    assert(event_entries(EventView::ContinuePressed).dom() =~= set!["type"@]);
    assert(event_entries(EventView::SendPressed).dom() =~= set!["type"@]);
}

/// The words of an error end with the words of the underlying error, where there is one, and begin
/// with what failed.
pub proof fn an_error_is_put_into_words(e: Seq<char>)
    ensures
        error_words(ErrorView::InvalidApiUrl(e)) == "无效的API URL格式: "@ + e,
        error_words(ErrorView::SendFailed(e)) == "发送消息失败: "@ + e,
        error_words(ErrorView::SendOptionsFailed(e)) == "发送选项消息失败: "@ + e,
        error_words(ErrorView::SendTestFailed(e)) == "发送测试消息失败: "@ + e,
        error_words(ErrorView::DispatcherInitFailed(e)) == "初始化Telegram调度器失败: "@ + e,
        error_words(ErrorView::UsernameChatId) == "暂不支持@username格式，请使用数字Chat ID"@,
        error_words(ErrorView::InvalidChatId) == "无效的Chat ID格式，请使用数字ID"@,
        error_words(ErrorView::EmptyBotToken) == "Bot Token不能为空"@,
        error_words(ErrorView::EmptyChatId) == "Chat ID不能为空"@,
        error_words(ErrorView::InvalidTestChatId) == "Chat ID格式无效，请输入有效的数字ID"@,
        error_words(ErrorView::IncompleteConfig) == "Telegram配置不完整"@,
{
}

/// Results, events and actions are taken for what they are.
pub proof fn results_are_taken_for_what_they_are(
    core: TelegramCore,
    event: TelegramEvent,
    action: CallbackAction,
)
    ensures
        core_result(Ok(core)) == Ok::<CoreView, ErrorView>(core@),
        opt_event(None) is None,
        opt_event(Some(event)) == Some(event@),
        opt_action(None) is None,
        opt_action(Some(action)) == Some(action@),
{
}

/// The number to ask for after an update is the next one, in the signed numbers of 32 bits.
pub proof fn the_next_number_follows(update_id: u32)
    requires
        update_id != 0x7fff_ffff,
    ensures
        i32::MIN <= offset_after(update_id) <= i32::MAX,
        update_id < 0x7fff_ffff ==> offset_after(update_id) == update_id + 1,
        update_id > 0x7fff_ffff ==> offset_after(update_id) == update_id + 1 - 0x1_0000_0000,
{
}

/// The written index of an option reads back as that index.
pub proof fn a_written_index_is_read(index: usize)
    ensures
        usize_value(decimal(index as nat)) == Some(index),
{
    decimal_reads_back(index as nat);
}

} // verus!
