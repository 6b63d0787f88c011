//! Text helpers shared by the Telegram and popup modules. Every contract speaks of the
//! characters of a text, that is, of its view.
use vstd::prelude::*;
use vstd::utf8::*;

verus! {

/// The characters of each text of a list.
pub open spec fn texts(list: Seq<String>) -> Seq<Seq<char>> {
    list.map_values(|s: String| s@)
}

/// The characters of an optional text.
pub open spec fn opt_text(text: Option<String>) -> Option<Seq<char>> {
    match text {
        Some(s) => Some(s@),
        None => None,
    }
}

/// The characters of an optional borrowed text.
pub open spec fn opt_str(text: Option<&str>) -> Option<Seq<char>> {
    match text {
        Some(s) => Some(s@),
        None => None,
    }
}

/// The characters of a text or of the words of an error.
pub open spec fn text_result(result: Result<String, String>) -> Result<Seq<char>, Seq<char>> {
    match result {
        Ok(s) => Ok(s@),
        Err(e) => Err(e@),
    }
}

/// `text` without the leading `prefix`, where it has one.
pub open spec fn without_prefix(text: Seq<char>, prefix: Seq<char>) -> Option<Seq<char>> {
    if prefix.is_prefix_of(text) {
        Some(text.skip(prefix.len() as int))
    } else {
        None
    }
}

/// Whether `part` occurs in `text` as a run of consecutive characters.
pub open spec fn occurs_in(part: Seq<char>, text: Seq<char>) -> bool {
    exists|i: int|
        0 <= i && i + part.len() <= text.len() && #[trigger] text.subrange(i, i + part.len())
            == part
}

/// The characters with the Unicode property `White_Space`.
pub open spec fn is_white_space(c: char) -> bool {
    let n = c as u32;
    ||| 0x09 <= n <= 0x0d
    ||| n == 0x20
    ||| n == 0x85
    ||| n == 0xa0
    ||| n == 0x1680
    ||| 0x2000 <= n <= 0x200a
    ||| n == 0x2028
    ||| n == 0x2029
    ||| n == 0x202f
    ||| n == 0x205f
    ||| n == 0x3000
}

/// Whether nothing is left of a text once white space is trimmed from its ends.
pub open spec fn is_blank_text(text: Seq<char>) -> bool {
    forall|i: int| 0 <= i < text.len() ==> is_white_space(#[trigger] text[i])
}

/// Whether `c` is one of the ten ASCII digits.
pub open spec fn is_digit(c: char) -> bool {
    '0' <= c <= '9'
}

/// The number that a run of digits writes in base ten.
pub open spec fn digits_value(digits: Seq<char>) -> nat
    decreases digits.len(),
{
    if digits.len() == 0 {
        0
    } else {
        digits_value(digits.drop_last()) * 10 + (digits.last() as int - '0' as int) as nat
    }
}

/// Whether a text is a non-empty run of digits.
pub open spec fn is_digits(text: Seq<char>) -> bool {
    text.len() > 0 && forall|i: int| 0 <= i < text.len() ==> is_digit(#[trigger] text[i])
}

/// The natural number that a text writes: digits, after at most one plus sign.
pub open spec fn unsigned_value(text: Seq<char>) -> Option<nat> {
    let digits = if text.len() > 0 && text[0] == '+' {
        text.skip(1)
    } else {
        text
    };
    if is_digits(digits) {
        Some(digits_value(digits))
    } else {
        None
    }
}

/// The integer that a text writes: digits, after at most one sign.
pub open spec fn signed_value(text: Seq<char>) -> Option<int> {
    if text.len() > 0 && text[0] == '-' {
        if is_digits(text.skip(1)) {
            Some(-(digits_value(text.skip(1)) as int))
        } else {
            None
        }
    } else {
        match unsigned_value(text) {
            Some(n) => Some(n as int),
            None => None,
        }
    }
}

/// What a text reads as where a `usize` is expected.
pub open spec fn usize_value(text: Seq<char>) -> Option<usize> {
    match unsigned_value(text) {
        Some(n) if n <= usize::MAX => Some(n as usize),
        _ => None,
    }
}

/// What a text reads as where an `i64` is expected.
pub open spec fn i64_value(text: Seq<char>) -> Option<i64> {
    match signed_value(text) {
        Some(n) if i64::MIN <= n <= i64::MAX => Some(n as i64),
        _ => None,
    }
}

/// The digit that stands for `d`.
pub open spec fn digit_char(d: nat) -> char {
    (d + '0' as nat) as char
}

/// The shortest way to write a natural number in base ten.
pub open spec fn decimal(n: nat) -> Seq<char>
    decreases n,
{
    if n < 10 {
        seq![digit_char(n)]
    } else {
        decimal(n / 10).push(digit_char(n % 10))
    }
}

/// The shortest way to write an integer in base ten.
pub open spec fn signed_decimal(n: int) -> Seq<char> {
    if n < 0 {
        seq!['-'] + decimal((-n) as nat)
    } else {
        decimal(n as nat)
    }
}

/// Whether a text holds no colon.
pub open spec fn colon_free(text: Seq<char>) -> bool {
    forall|i: int| 0 <= i < text.len() ==> #[trigger] text[i] != ':'
}

/// Whether `a`, `b` and `c` are the three parts that the first two colons of `data` part.
pub open spec fn is_split(data: Seq<char>, a: Seq<char>, b: Seq<char>, c: Seq<char>) -> bool {
    colon_free(a) && colon_free(b) && data == a + seq![':'] + b + seq![':'] + c
}

/// The three parts that the first two colons of `data` part, where it has two.
pub open spec fn split_at_colons(data: Seq<char>) -> Option<(Seq<char>, Seq<char>, Seq<char>)> {
    if exists|a: Seq<char>, b: Seq<char>, c: Seq<char>| is_split(data, a, b, c) {
        Some(
            choose|parts: (Seq<char>, Seq<char>, Seq<char>)|
                is_split(data, parts.0, parts.1, parts.2),
        )
    } else {
        None
    }
}

/// The text that the first `n` bytes of `text` encode in UTF-8.
pub open spec fn byte_prefix(text: Seq<char>, n: int) -> Seq<char> {
    decode_utf8(encode_utf8(text).subrange(0, n))
}

/// The characters of `text`, in order.
pub fn chars_of(text: &str) -> (out: Vec<char>)
    ensures
        out@ == text@,
{
    let mut out: Vec<char> = Vec::new();
    for c in iter: text.chars()
        invariant
            iter.seq() == text@,
            out@ == text@.take(iter.index() as int),
    {
        out.push(c);
    }
    out
}

/// Whether two texts hold the same characters.
pub fn same_text(a: &str, b: &str) -> (same: bool)
    ensures
        same == (a@ == b@),
{
    a.to_owned() == b.to_owned()
}

/// `text` without the leading `prefix`, where it has one.
pub fn strip_prefix<'a>(text: &'a str, prefix: &str) -> (rest: Option<&'a str>)
    ensures
        opt_str(rest) == without_prefix(text@, prefix@),
{
    let n: usize = prefix.unicode_len();
    let m: usize = text.unicode_len();
    if n > m {
        return None;
    }
    let head = text.substring_char(0, n);
    if same_text(head, prefix) {
        assert(prefix@.is_prefix_of(text@));
        Some(text.substring_char(n, m))
    } else {
        assert(prefix@.is_prefix_of(text@) ==> head@ == prefix@);
        None
    }
}

/// Whether `text` starts with `prefix`.
pub fn starts_with(text: &str, prefix: &str) -> (yes: bool)
    ensures
        yes == prefix@.is_prefix_of(text@),
{
    strip_prefix(text, prefix).is_some()
}

/// Whether `part` occurs in `text`.
pub fn contains_text(text: &str, part: &str) -> (found: bool)
    ensures
        found == occurs_in(part@, text@),
{
    let n: usize = part.unicode_len();
    let m: usize = text.unicode_len();
    if n > m {
        return false;
    }
    let mut i: usize = 0;
    loop
        invariant
            n == part@.len(),
            m == text@.len(),
            i + n <= m,
            forall|j: int| 0 <= j < i ==> #[trigger] text@.subrange(j, j + n) != part@,
        decreases m - i,
    {
        if same_text(text.substring_char(i, i + n), part) {
            return true;
        }
        if i == m - n {
            return false;
        }
        i += 1;
    }
}

/// Whether `list` holds a text with the characters of `wanted`.
pub fn list_contains(list: &[String], wanted: &str) -> (found: bool)
    ensures
        found == texts(list@).contains(wanted@),
{
    let mut i: usize = 0;
    while i < list.len()
        invariant
            i <= list@.len(),
            forall|j: int| 0 <= j < i ==> #[trigger] texts(list@)[j] != wanted@,
        decreases list@.len() - i,
    {
        if same_text(list[i].as_str(), wanted) {
            assert(texts(list@)[i as int] == wanted@);
            return true;
        }
        i += 1;
    }
    false
}

/// A copy of a list of texts.
pub fn clone_list(list: &[String]) -> (out: Vec<String>)
    ensures
        out@ == list@,
{
    let mut out: Vec<String> = Vec::new();
    let mut i: usize = 0;
    while i < list.len()
        invariant
            i <= list@.len(),
            out@ == list@.take(i as int),
        decreases list@.len() - i,
    {
        out.push(list[i].clone());
        i += 1;
    }
    out
}

/// A text has one way only to be parted at its first two colons.
pub proof fn split_is_unique(
    data: Seq<char>,
    a: Seq<char>,
    b: Seq<char>,
    c: Seq<char>,
)
    requires
        is_split(data, a, b, c),
    ensures
        split_at_colons(data) == Some((a, b, c)),
{
    let w = (a, b, c);
    assert(is_split(data, w.0, w.1, w.2));
    let (a2, b2, c2) = split_at_colons(data).unwrap();
    assert(is_split(data, a2, b2, c2));
    assert(data[a.len() as int] == ':' && data[a2.len() as int] == ':');
    assert(forall|i: int| 0 <= i < a.len() ==> data[i] == a[i]);
    assert(forall|i: int| 0 <= i < a2.len() ==> data[i] == a2[i]);
    assert(a.len() == a2.len());
    assert(a == a2);
    let n = a.len() as int + 1;
    assert(forall|i: int| 0 <= i < b.len() ==> data[n + i] == b[i]);
    assert(forall|i: int| 0 <= i < b2.len() ==> data[n + i] == b2[i]);
    assert(data[n + b.len()] == ':' && data[n + b2.len()] == ':');
    assert(b.len() == b2.len());
    assert(b == b2);
    assert(c == data.skip(n + b.len() + 1));
    assert(c2 == data.skip(n + b.len() + 1));
}

/// Parts `data` at its first two colons.
pub fn split_three<'a>(data: &'a str) -> (parts: Option<(&'a str, &'a str, &'a str)>)
    ensures
        match parts {
            Some((a, b, c)) => split_at_colons(data@) == Some((a@, b@, c@)),
            None => split_at_colons(data@) is None,
        },
{
    let chars = chars_of(data);
    let n: usize = chars.len();
    let mut first: usize = 0;
    while first < n && chars[first] != ':'
        invariant
            chars@ == data@,
            n == data@.len(),
            first <= n,
            forall|j: int| 0 <= j < first ==> data@[j] != ':',
        decreases n - first,
    {
        first += 1;
    }
    if first == n {
        assert forall|a: Seq<char>, b: Seq<char>, c: Seq<char>| !is_split(data@, a, b, c) by {
            if is_split(data@, a, b, c) {
                assert(data@[a.len() as int] == ':');
            }
        }
        return None;
    }
    let mut second: usize = first + 1;
    while second < n && chars[second] != ':'
        invariant
            chars@ == data@,
            n == data@.len(),
            first < second <= n,
            forall|j: int| first < j < second ==> data@[j] != ':',
        decreases n - second,
    {
        second += 1;
    }
    if second == n {
        assert forall|a: Seq<char>, b: Seq<char>, c: Seq<char>| !is_split(data@, a, b, c) by {
            if is_split(data@, a, b, c) {
                assert(data@[a.len() as int] == ':');
                assert(data@[(a.len() + 1 + b.len()) as int] == ':');
                assert(forall|i: int| 0 <= i < a.len() ==> data@[i] == a[i]);
                assert(data@[first as int] == ':');
                assert(a.len() == first);
            }
        }
        return None;
    }
    let a = data.substring_char(0, first);
    let b = data.substring_char(first + 1, second);
    let c = data.substring_char(second + 1, n);
    proof {
        assert(data@ == a@ + seq![':'] + b@ + seq![':'] + c@);
        split_is_unique(data@, a@, b@, c@);
    }
    Some((a, b, c))
}

/// The first `n` bytes of `text`, where they end between two characters.
pub fn take_bytes<'a>(text: &'a str, n: usize) -> (head: Option<&'a str>)
    ensures
        match head {
            Some(p) => is_char_boundary(encode_utf8(text@), n as int) && p@ == byte_prefix(
                text@,
                n as int,
            ),
            None => !is_char_boundary(encode_utf8(text@), n as int),
        },
{
    if text.is_char_boundary(n) {
        let (head, _tail) = text.split_at(n);
        proof {
            encode_utf8_decode_utf8(head@);
        }
        Some(head)
    } else {
        None
    }
}

fn white_space(c: char) -> (yes: bool)
    ensures
        yes == is_white_space(c),
{
    let n: u32 = c as u32;
    (0x09 <= n && n <= 0x0d) || n == 0x20 || n == 0x85 || n == 0xa0 || n == 0x1680 || (0x2000 <= n
        && n <= 0x200a) || n == 0x2028 || n == 0x2029 || n == 0x202f || n == 0x205f || n == 0x3000
}

/// Whether `text` holds white space only.
pub fn is_blank(text: &str) -> (blank: bool)
    ensures
        blank == is_blank_text(text@),
{
    let chars = chars_of(text);
    let mut i: usize = 0;
    while i < chars.len()
        invariant
            chars@ == text@,
            i <= chars@.len(),
            forall|j: int| 0 <= j < i ==> is_white_space(#[trigger] text@[j]),
        decreases chars@.len() - i,
    {
        if !white_space(chars[i]) {
            return false;
        }
        i += 1;
    }
    true
}

/// The number written by the digits from `from` on, where there is one and it fits.
fn parse_digits(chars: &Vec<char>, from: usize) -> (value: Option<u64>)
    requires
        from <= chars@.len(),
    ensures
        match value {
            Some(n) => is_digits(chars@.skip(from as int)) && n == digits_value(
                chars@.skip(from as int),
            ),
            None => !is_digits(chars@.skip(from as int)) || digits_value(chars@.skip(from as int))
                > u64::MAX,
        },
{
    let ghost all = chars@.skip(from as int);
    if from == chars.len() {
        return None;
    }
    let mut value: u64 = 0;
    let mut i: usize = from;
    while i < chars.len()
        invariant
            from <= i <= chars@.len(),
            all == chars@.skip(from as int),
            value == digits_value(all.take(i - from)),
            forall|j: int| 0 <= j < i - from ==> is_digit(#[trigger] all[j]),
        decreases chars@.len() - i,
    {
        let c: char = chars[i];
        assert(all[i - from] == c);
        if c < '0' || c > '9' {
            return None;
        }
        let d: u64 = (c as u32 - '0' as u32) as u64;
        proof {
            assert(all.take(i + 1 - from).drop_last() == all.take(i - from));
            lemma_digits_value_grows(all, i + 1 - from);
        }
        if value > (u64::MAX - d) / 10 {
            return None;
        }
        value = value * 10 + d;
        i += 1;
    }
    assert(all.take(i - from) == all);
    Some(value)
}

/// A longer run of digits writes no smaller number.
proof fn lemma_digits_value_grows(digits: Seq<char>, n: int)
    requires
        0 <= n <= digits.len(),
    ensures
        digits_value(digits.take(n)) <= digits_value(digits),
    decreases digits.len(),
{
    if n < digits.len() {
        lemma_digits_value_grows(digits.drop_last(), n);
        assert(digits.drop_last().take(n) == digits.take(n));
    } else {
        assert(digits.take(n) == digits);
    }
}

/// Reads a `usize`: digits, after at most one plus sign.
pub fn parse_usize(text: &str) -> (value: Option<usize>)
    ensures
        value == usize_value(text@),
{
    let chars = chars_of(text);
    let from: usize = if chars.len() > 0 && chars[0] == '+' {
        1
    } else {
        0
    };
    assert(chars@.skip(0) == chars@);
    match parse_digits(&chars, from) {
        Some(n) => if n <= usize::MAX as u64 {
            Some(n as usize)
        } else {
            None
        },
        None => None,
    }
}

/// Reads an `i64`: digits, after at most one sign.
pub fn parse_i64(text: &str) -> (value: Option<i64>)
    ensures
        value == i64_value(text@),
{
    let chars = chars_of(text);
    let negative: bool = chars.len() > 0 && chars[0] == '-';
    let from: usize = if negative || (chars.len() > 0 && chars[0] == '+') {
        1
    } else {
        0
    };
    assert(chars@.skip(0) == chars@);
    match parse_digits(&chars, from) {
        Some(n) => if negative {
            if n <= 0x7fff_ffff_ffff_ffff {
                Some(-(n as i64))
            } else if n == 0x8000_0000_0000_0000 {
                Some(i64::MIN)
            } else {
                None
            }
        } else if n <= 0x7fff_ffff_ffff_ffff {
            Some(n as i64)
        } else {
            None
        },
        None => None,
    }
}

fn digit_text(d: u64) -> (text: &'static str)
    requires
        d < 10,
    ensures
        text@ == seq![digit_char(d as nat)],
{
    proof {
        reveal_strlit("0");
        reveal_strlit("1");
        reveal_strlit("2");
        reveal_strlit("3");
        reveal_strlit("4");
        reveal_strlit("5");
        reveal_strlit("6");
        reveal_strlit("7");
        reveal_strlit("8");
        reveal_strlit("9");
    }
    if d == 0 {
        "0"
    } else if d == 1 {
        "1"
    } else if d == 2 {
        "2"
    } else if d == 3 {
        "3"
    } else if d == 4 {
        "4"
    } else if d == 5 {
        "5"
    } else if d == 6 {
        "6"
    } else if d == 7 {
        "7"
    } else if d == 8 {
        "8"
    } else {
        "9"
    }
}

/// Writes a number in base ten.
pub fn decimal_text(n: u64) -> (text: String)
    ensures
        text@ == decimal(n as nat),
    decreases n,
{
    if n < 10 {
        digit_text(n).to_owned()
    } else {
        let head = decimal_text(n / 10);
        head.concat(digit_text(n % 10))
    }
}

/// Writes an integer in base ten.
pub fn signed_decimal_text(n: i64) -> (text: String)
    ensures
        text@ == signed_decimal(n as int),
{
    if n < 0 {
        proof {
            reveal_strlit("-");
        }
        let magnitude: u64 = if n == i64::MIN {
            0x8000_0000_0000_0000
        } else {
            (-n) as u64
        };
        let text = "-".to_owned().concat(decimal_text(magnitude).as_str());
        assert("-"@ == seq!['-']);
        text
    } else {
        decimal_text(n as u64)
    }
}

/// Writing a number yields digits, and reading them back yields the number.
pub proof fn decimal_reads_back(n: nat)
    ensures
        is_digits(decimal(n)),
        digits_value(decimal(n)) == n,
        unsigned_value(decimal(n)) == Some(n),
    decreases n,
{
    if n >= 10 {
        decimal_reads_back(n / 10);
        let head = decimal(n / 10);
        assert(decimal(n).drop_last() == head);
        assert forall|i: int| 0 <= i < decimal(n).len() implies is_digit(#[trigger] decimal(n)[i]) by {
            if i < head.len() {
                assert(decimal(n)[i] == head[i]);
            }
        }
    } else {
        assert(decimal(n).drop_last() == Seq::<char>::empty());
        reveal_with_fuel(digits_value, 2);
    }
    assert(decimal(n)[0] != '+');
}

/// Writing an integer and reading it back yields the integer.
pub proof fn signed_decimal_reads_back(n: int)
    ensures
        signed_value(signed_decimal(n)) == Some(n),
{
    if n < 0 {
        decimal_reads_back((-n) as nat);
        assert(signed_decimal(n).skip(1) == decimal((-n) as nat));
    } else {
        decimal_reads_back(n as nat);
        assert(is_digit(decimal(n as nat)[0]));
    }
}

} // verus!
