//! What the readings and writings of texts mean: prefixes, occurrences, blankness, numbers, and the
//! parts between colons.
use crate::text::{
    byte_prefix, decimal, digits_value, i64_value, is_blank_text, is_white_space, occurs_in,
    opt_str, opt_text, signed_decimal, signed_value, split_at_colons, split_is_unique, text_result,
    texts, unsigned_value, usize_value, without_prefix,
};
use vstd::arithmetic::div_mod::lemma_div_denominator;
use vstd::arithmetic::power::{lemma_pow0, lemma_pow1, lemma_pow_positive, pow};
use vstd::prelude::*;
use vstd::utf8::{
    decode_utf8_encode_utf8, decode_utf8_split, encode_utf8, encode_utf8_decode_utf8,
    encode_utf8_valid_utf8, is_char_boundary, valid_utf8_split,
};

verus! {

/// The characters of a list of texts are those of its texts, one by one.
pub proof fn a_list_is_read_text_by_text(list: Seq<String>, i: int)
    ensures
        texts(list).len() == list.len(),
        0 <= i < list.len() ==> texts(list)[i] == list[i]@,
{
}

/// The characters of a text that may be missing, or of a text or an error, are those of the text
/// that is there.
pub proof fn a_text_that_is_there_is_read(text: String, borrowed: &str)
    ensures
        opt_text(Some(text)) == Some(text@),
        opt_text(None) is None,
        opt_str(Some(borrowed)) == Some(borrowed@),
        opt_str(None) is None,
        text_result(Ok(text)) == Ok::<Seq<char>, Seq<char>>(text@),
        text_result(Err(text)) == Err::<Seq<char>, Seq<char>>(text@),
{
}

/// A text that was made by putting something behind a prefix gives that something back, and a text
/// that was not made so gives nothing.
pub proof fn a_prefix_comes_off(prefix: Seq<char>, rest: Seq<char>, text: Seq<char>)
    ensures
        without_prefix(prefix + rest, prefix) == Some(rest),
        without_prefix(text, prefix) matches Some(r) ==> text == prefix + r,
        without_prefix(text, prefix) is None ==> text != prefix + rest,
{
    assert((prefix + rest).skip(prefix.len() as int) == rest);
    assert(prefix.is_prefix_of(prefix + rest));
    if prefix.is_prefix_of(text) {
        assert(text == prefix + text.skip(prefix.len() as int));
    }
}

/// A part occurs in a text where something can be put before and behind it to make the text, and
/// only there.
pub proof fn a_part_occurs_where_it_stands(
    before: Seq<char>,
    part: Seq<char>,
    behind: Seq<char>,
    text: Seq<char>,
)
    ensures
        occurs_in(part, before + part + behind),
        occurs_in(part, text) ==> exists|a: Seq<char>, b: Seq<char>| text == #[trigger] (a + part
            + b),
{
    let whole = before + part + behind;
    let i = before.len() as int;
    assert(whole.subrange(i, i + part.len()) == part);
    if occurs_in(part, text) {
        let k = choose|k: int|
            0 <= k && k + part.len() <= text.len() && #[trigger] text.subrange(k, k + part.len())
                == part;
        let a = text.take(k);
        let b = text.skip(k + part.len());
        assert(text == a + part + b);
    }
}

/// A text is blank where its parts are; one character is blank where it is white space.
pub proof fn blankness_goes_by_parts(a: Seq<char>, b: Seq<char>, c: char)
    ensures
        is_blank_text(a + b) == (is_blank_text(a) && is_blank_text(b)),
        is_blank_text(seq![c]) == is_white_space(c),
        is_blank_text(Seq::empty()),
{
    let whole = a + b;
    if is_blank_text(whole) {
        assert forall|i: int| 0 <= i < a.len() implies is_white_space(#[trigger] a[i]) by {
            assert(whole[i] == a[i]);
        }
        assert forall|i: int| 0 <= i < b.len() implies is_white_space(#[trigger] b[i]) by {
            assert(whole[i + a.len()] == b[i]);
        }
    }
    assert(seq![c][0] == c);
}

/// No printable ASCII character is white space.
pub proof fn printable_ascii_is_not_white(c: char)
    requires
        '!' <= c <= '~',
    ensures
        !is_white_space(c),
{
}

/// Whether each character is one of the ten digits, and there is one.
pub open spec fn all_digits(text: Seq<char>) -> bool {
    text.len() > 0 && forall|i: int| 0 <= i < text.len() ==> '0' <= #[trigger] text[i] <= '9'
}

/// The number that digits write has them as its decimal places, and no other place.
pub proof fn digits_are_decimal_places(digits: Seq<char>, k: nat)
    requires
        all_digits(digits),
        k < digits.len(),
    ensures
        digits_value(digits) < pow(10, digits.len()),
        (digits_value(digits) as int / pow(10, k)) % 10 == digits[digits.len() - 1 - k] as int
            - '0' as int,
    decreases digits.len(),
{
    let n = digits_value(digits) as int;
    let init = digits.drop_last();
    let last = digits.last() as int - '0' as int;
    assert(digits[digits.len() - 1] == digits.last());
    assert(0 <= last <= 9);
    lemma_pow0(10);
    lemma_pow1(10);
    reveal(pow);
    if init.len() == 0 {
        assert(digits_value(init) == 0);
        assert(n == last);
        assert(pow(10, digits.len()) == 10);
        assert(n / 1 == n);
    } else {
        assert(all_digits(init));
        let m = digits_value(init) as int;
        assert(n == m * 10 + last);
        if k == 0 {
            digits_are_decimal_places(init, 0);
            assert(n / 1 == n);
        } else {
            digits_are_decimal_places(init, (k - 1) as nat);
            lemma_pow_positive(10, (k - 1) as nat);
            lemma_div_denominator(n, 10, pow(10, (k - 1) as nat));
            assert(pow(10, k) == 10 * pow(10, (k - 1) as nat));
            assert(n / 10 == m);
            assert(init[init.len() - 1 - (k - 1)] == digits[digits.len() - 1 - k]);
        }
        assert(pow(10, digits.len()) == 10 * pow(10, init.len()));
        assert(n < pow(10, digits.len()));
    }
}

/// A number is written with its decimal places as digits, as many as it takes, and without a
/// leading zero.
pub proof fn a_number_is_written_by_its_places(n: nat, k: nat)
    requires
        k < decimal(n).len(),
    ensures
        n < pow(10, decimal(n).len()),
        decimal(n)[decimal(n).len() - 1 - k] as int - '0' as int == (n as int / pow(10, k)) % 10,
        n > 0 ==> decimal(n)[0] != '0',
        n < 10 ==> decimal(n).len() == 1,
    decreases n,
{
    lemma_pow0(10);
    lemma_pow1(10);
    reveal(pow);
    if n < 10 {
        assert(decimal(n).len() == 1);
        assert(n as int / 1 == n);
    } else {
        let m = n / 10;
        let head = decimal(m);
        assert(head.len() >= 1);
        assert(decimal(n) == head.push(decimal(n).last()));
        if k == 0 {
            a_number_is_written_by_its_places(m, 0);
            assert(n as int / 1 == n);
        } else {
            a_number_is_written_by_its_places(m, (k - 1) as nat);
            lemma_pow_positive(10, (k - 1) as nat);
            lemma_div_denominator(n as int, 10, pow(10, (k - 1) as nat));
            assert(pow(10, k) == 10 * pow(10, (k - 1) as nat));
            assert(head[head.len() - 1 - (k - 1)] == decimal(n)[decimal(n).len() - 1 - k]);
        }
        assert(head[0] == decimal(n)[0]);
        assert(pow(10, decimal(n).len()) == 10 * pow(10, head.len()));
    }
}

/// A negative number is written with a minus sign before its size, any other without a sign.
pub proof fn a_sign_is_written_before_the_size(n: nat)
    ensures
        signed_decimal(n as int) == decimal(n),
        n > 0 ==> signed_decimal(-(n as int)) == seq!['-'] + decimal(n),
{
}

/// Digits are read as a number, also behind a sign; nothing else is.
pub proof fn digits_are_read_behind_a_sign(text: Seq<char>)
    ensures
        all_digits(text) ==> {
            let n = digits_value(text);
            &&& unsigned_value(text) == Some(n)
            &&& unsigned_value(seq!['+'] + text) == Some(n)
            &&& signed_value(text) == Some(n as int)
            &&& signed_value(seq!['+'] + text) == Some(n as int)
            &&& signed_value(seq!['-'] + text) == Some(-(n as int))
        },
        !all_digits(text) ==> {
            &&& unsigned_value(seq!['+'] + text) is None
            &&& signed_value(seq!['+'] + text) is None
            &&& signed_value(seq!['-'] + text) is None
            &&& text.len() == 0 || text[0] != '+' ==> unsigned_value(text) is None
            &&& text.len() == 0 || (text[0] != '+' && text[0] != '-') ==> signed_value(text) is None
        },
        unsigned_value(seq!['-'] + text) is None,
{
    assert((seq!['+'] + text).skip(1) == text);
    assert((seq!['-'] + text).skip(1) == text);
    assert((seq!['-'] + text)[0] == '-');
    if all_digits(text) {
        assert('0' <= text[0] <= '9');
    }
}

/// A number is read at a width where it fits, as the number that it is.
pub proof fn a_number_is_read_where_it_fits(text: Seq<char>, v: i64, u: usize)
    ensures
        i64_value(text) == Some(v) <==> signed_value(text) == Some(v as int),
        usize_value(text) == Some(u) <==> unsigned_value(text) == Some(u as nat),
        i64_value(text) is None <==> (signed_value(text) matches Some(n) ==> !(i64::MIN <= n
            <= i64::MAX)),
        usize_value(text) is None <==> (unsigned_value(text) matches Some(n) ==> n > usize::MAX),
{
}

/// Two colons part a text into three: the parts with the colons between them make the text, and the
/// first two hold no colon. A text with fewer colons is not parted.
pub proof fn two_colons_part_a_text(data: Seq<char>, i: int, j: int)
    ensures
        split_at_colons(data) matches Some((a, b, c)) ==> {
            &&& data == a + seq![':'] + b + seq![':'] + c
            &&& !a.contains(':')
            &&& !b.contains(':')
        },
        0 <= i < j < data.len() && data[i] == ':' && data[j] == ':' ==> split_at_colons(data)
            is Some,
        split_at_colons(data) is Some ==> exists|x: int, y: int|
            0 <= x < y < data.len() && #[trigger] data[x] == ':' && #[trigger] data[y] == ':',
{
    if split_at_colons(data) is Some {
        let (a, b, c) = split_at_colons(data)->0;
        let (a0, b0, c0) = choose|a0: Seq<char>, b0: Seq<char>, c0: Seq<char>|
            crate::text::is_split(data, a0, b0, c0);
        split_is_unique(data, a0, b0, c0);
        assert(data[a.len() as int] == ':');
        assert(data[(a.len() + 1 + b.len()) as int] == ':');
    }
    if 0 <= i < j < data.len() && data[i] == ':' && data[j] == ':' {
        let first = lemma_first_colon(data, i);
        let rest = data.skip(first + 1);
        assert(rest[j - first - 1] == ':');
        let second = lemma_first_colon(rest, j - first - 1);
        let a = data.take(first);
        let b = rest.take(second);
        let c = rest.skip(second + 1);
        assert(data == a + seq![':'] + b + seq![':'] + c);
        split_is_unique(data, a, b, c);
    }
}

proof fn lemma_first_colon(text: Seq<char>, i: int) -> (first: int)
    requires
        0 <= i < text.len(),
        text[i] == ':',
    ensures
        0 <= first <= i,
        text[first] == ':',
        forall|k: int| 0 <= k < first ==> #[trigger] text[k] != ':',
    decreases i,
{
    if exists|k: int| 0 <= k < i && text[k] == ':' {
        let k = choose|k: int| 0 <= k < i && text[k] == ':';
        lemma_first_colon(text, k)
    } else {
        i
    }
}

/// A cut after `n` bytes that parts no character leaves the text whose encoding is those `n` bytes,
/// and that text is the beginning of the whole.
pub proof fn a_cut_keeps_its_bytes(text: Seq<char>, n: int)
    requires
        is_char_boundary(encode_utf8(text), n),
    ensures
        encode_utf8(byte_prefix(text, n)) == encode_utf8(text).subrange(0, n),
        byte_prefix(text, n).is_prefix_of(text),
{
    let bytes = encode_utf8(text);
    encode_utf8_valid_utf8(text);
    encode_utf8_decode_utf8(text);
    valid_utf8_split(bytes, n);
    decode_utf8_encode_utf8(bytes.subrange(0, n));
    decode_utf8_split(bytes, n);
}

} // verus!
