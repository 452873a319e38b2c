//! Text as sequences of characters: comparing, trimming, splitting and building.

use vstd::arithmetic::power::*;
use vstd::prelude::*;
use vstd::string::*;
use vstd::utf8::*;

verus! {

/// Two texts with the same UTF-8 bytes are the same text.
pub proof fn lemma_utf8_injective(a: Seq<char>, b: Seq<char>)
    requires
        encode_utf8(a) == encode_utf8(b),
    ensures
        a == b,
{
    encode_utf8_decode_utf8(a);
    encode_utf8_decode_utf8(b);
}

/// The characters of `text`, in order.
pub fn characters(text: &str) -> (list: Vec<char>)
    ensures
        list@ == text@,
{
    let mut list: Vec<char> = Vec::new();
    for c in it: text.chars()
        invariant
            list@ == it.seq().take(it.index()),
            it.seq() == text@,
    {
        list.push(c);
    }
    list
}

/// Whether two texts hold the same characters.
pub fn same_text(a: &str, b: &str) -> (same: bool)
    ensures
        same == (a@ == b@),
{
    let left = a.as_bytes();
    let right = b.as_bytes();
    if left.len() != right.len() {
        return false;
    }
    for i in 0..left.len()
        invariant
            left@ == encode_utf8(a@),
            right@ == encode_utf8(b@),
            left@.len() == right@.len(),
            forall|j: int| 0 <= j < i ==> left@[j] == right@[j],
    {
        if left[i] != right[i] {
            return false;
        }
    }
    proof {
        assert(left@ =~= right@);
        lemma_utf8_injective(a@, b@);
    }
    true
}

/// The characters with the Unicode `White_Space` property.
pub open spec fn is_whitespace(c: char) -> bool {
    let code = c as u32;
    ||| 0x9 <= code <= 0xd
    ||| code == 0x20
    ||| code == 0x85
    ||| code == 0xa0
    ||| code == 0x1680
    ||| 0x2000 <= code <= 0x200a
    ||| code == 0x2028
    ||| code == 0x2029
    ||| code == 0x202f
    ||| code == 0x205f
    ||| code == 0x3000
}

/// Whether `c` has the Unicode `White_Space` property.
pub fn whitespace(c: char) -> (yes: bool)
    ensures
        yes == is_whitespace(c),
{
    let code: u32 = c as u32;
    (0x9 <= code && code <= 0xd) || code == 0x20 || code == 0x85 || code == 0xa0 || code == 0x1680
        || (0x2000 <= code && code <= 0x200a) || code == 0x2028 || code == 0x2029 || code == 0x202f
        || code == 0x205f || code == 0x3000
}

/// `text` without its leading whitespace.
pub open spec fn trim_start(text: Seq<char>) -> Seq<char>
    decreases text.len(),
{
    if text.len() > 0 && is_whitespace(text[0]) {
        trim_start(text.drop_first())
    } else {
        text
    }
}

/// `text` without its trailing whitespace.
pub open spec fn trim_end(text: Seq<char>) -> Seq<char>
    decreases text.len(),
{
    if text.len() > 0 && is_whitespace(text.last()) {
        trim_end(text.drop_last())
    } else {
        text
    }
}

/// `text` without the whitespace at both ends.
pub open spec fn trimmed(text: Seq<char>) -> Seq<char> {
    trim_end(trim_start(text))
}

proof fn lemma_trim_start(text: Seq<char>, n: int)
    requires
        0 <= n <= text.len(),
        forall|i: int| 0 <= i < n ==> is_whitespace(#[trigger] text[i]),
        n < text.len() ==> !is_whitespace(text[n]),
    ensures
        trim_start(text) == text.skip(n),
    decreases n,
{
    if n > 0 {
        let rest = text.drop_first();
        assert forall|i: int| 0 <= i < n - 1 implies is_whitespace(#[trigger] rest[i]) by {
            assert(rest[i] == text[i + 1]);
        }
        lemma_trim_start(rest, n - 1);
        assert(rest.skip(n - 1) =~= text.skip(n));
    } else {
        assert(text.skip(0) =~= text);
    }
}

proof fn lemma_trim_end(text: Seq<char>, n: int)
    requires
        0 <= n <= text.len(),
        forall|i: int| n <= i < text.len() ==> is_whitespace(#[trigger] text[i]),
        n > 0 ==> !is_whitespace(text[n - 1]),
    ensures
        trim_end(text) == text.take(n),
    decreases text.len(),
{
    if n < text.len() {
        let rest = text.drop_last();
        assert(is_whitespace(text[text.len() - 1]));
        lemma_trim_end(rest, n);
        assert(rest.take(n) =~= text.take(n));
    } else {
        assert(text.take(n) =~= text);
    }
}

/// Trimming leaves a text alone that neither begins nor ends with whitespace.
pub proof fn lemma_trimmed_fixed(text: Seq<char>)
    requires
        text.len() > 0 ==> !is_whitespace(text[0]) && !is_whitespace(text.last()),
    ensures
        trimmed(text) == text,
{
}

/// `text` without the whitespace at both ends.
pub fn trim(text: &str) -> (inner: &str)
    ensures
        inner@ == trimmed(text@),
{
    let list = characters(text);
    let total: usize = list.len();
    let mut from: usize = 0;
    while from < total && whitespace(list[from])
        invariant
            list@ == text@,
            total == list.len(),
            from <= total,
            forall|i: int| 0 <= i < from ==> is_whitespace(#[trigger] list@[i]),
        decreases total - from,
    {
        from = from + 1;
    }
    let mut to: usize = total;
    while from < to && whitespace(list[to - 1])
        invariant
            list@ == text@,
            total == list.len(),
            from <= to <= total,
            forall|i: int| to <= i < total ==> is_whitespace(#[trigger] list@[i]),
        decreases to,
    {
        to = to - 1;
    }
    proof {
        lemma_trim_start(text@, from as int);
        let rest = text@.skip(from as int);
        assert forall|i: int| to - from <= i < rest.len() implies is_whitespace(
            #[trigger] rest[i],
        ) by {
            assert(rest[i] == list@[i + from]);
        }
        lemma_trim_end(rest, to - from);
        assert(rest.take(to - from) =~= text@.subrange(from as int, to as int));
    }
    text.substring_char(from, to)
}

/// Whether `text` holds nothing but whitespace.
pub fn is_blank(text: &str) -> (blank: bool)
    ensures
        blank == (trimmed(text@).len() == 0),
{
    trim(text).is_empty()
}

/// The number of characters that come before the first `sep`; all of them where there is none.
pub open spec fn prefix_len(text: Seq<char>, sep: char) -> nat
    decreases text.len(),
{
    if text.len() == 0 || text[0] == sep {
        0
    } else {
        1 + prefix_len(text.drop_first(), sep)
    }
}

/// `prefix_len` is the position of the first `sep`, or the length.
pub proof fn lemma_prefix_len(text: Seq<char>, sep: char, n: int)
    requires
        0 <= n <= text.len(),
        forall|i: int| 0 <= i < n ==> #[trigger] text[i] != sep,
        n < text.len() ==> text[n] == sep,
    ensures
        prefix_len(text, sep) == n,
    decreases n,
{
    if n > 0 {
        let rest = text.drop_first();
        assert forall|i: int| 0 <= i < n - 1 implies #[trigger] rest[i] != sep by {
            assert(rest[i] == text[i + 1]);
        }
        assert(text[0] != sep);
        lemma_prefix_len(rest, sep, n - 1);
    }
}

/// `prefix_len` is the position of the first `sep`, or the length.
pub proof fn lemma_prefix_len_is_first(text: Seq<char>, sep: char)
    ensures
        prefix_len(text, sep) <= text.len(),
        forall|i: int| 0 <= i < prefix_len(text, sep) ==> #[trigger] text[i] != sep,
        prefix_len(text, sep) < text.len() ==> text[prefix_len(text, sep) as int] == sep,
    decreases text.len(),
{
    if text.len() > 0 && text[0] != sep {
        let rest = text.drop_first();
        lemma_prefix_len_is_first(rest, sep);
        assert forall|i: int| 0 <= i < prefix_len(text, sep) implies #[trigger] text[i] != sep by {
            if i > 0 {
                assert(rest[i - 1] == text[i]);
            }
        }
    }
}

/// The pieces of `text` between one `sep` and the next.
pub open spec fn split_on(text: Seq<char>, sep: char) -> Seq<Seq<char>>
    decreases text.len(),
{
    let n = prefix_len(text, sep) as int;
    if n < text.len() {
        seq![text.take(n)] + split_on(text.skip(n + 1), sep)
    } else {
        seq![text]
    }
}

/// Splitting two texts with a `sep` between them gives the pieces of both.
pub proof fn lemma_split_concat(a: Seq<char>, b: Seq<char>, sep: char)
    ensures
        split_on(a.push(sep) + b, sep) == split_on(a, sep) + split_on(b, sep),
    decreases a.len(),
{
    let whole = a.push(sep) + b;
    let n = prefix_len(a, sep) as int;
    lemma_prefix_len_is_first(a, sep);
    assert forall|i: int| 0 <= i < n implies #[trigger] whole[i] != sep by {
        assert(whole[i] == a[i]);
    }
    assert(whole[n] == sep);
    lemma_prefix_len(whole, sep, n);
    assert(whole.take(n) =~= a.take(n));
    if n < a.len() {
        lemma_split_concat(a.skip(n + 1), b, sep);
        assert(whole.skip(n + 1) =~= a.skip(n + 1).push(sep) + b);
        assert(split_on(whole, sep) =~= split_on(a, sep) + split_on(b, sep));
    } else {
        assert(a.take(n) =~= a);
        assert(whole.skip(n + 1) =~= b);
        assert(split_on(whole, sep) =~= split_on(a, sep) + split_on(b, sep));
    }
}

/// A text without a `sep` is one piece.
pub proof fn lemma_split_single(text: Seq<char>, sep: char)
    requires
        forall|i: int| 0 <= i < text.len() ==> #[trigger] text[i] != sep,
    ensures
        split_on(text, sep) == seq![text],
{
    lemma_prefix_len(text, sep, text.len() as int);
}

/// Whether `good` holds of the first `n` characters.
pub open spec fn holds_up_to(text: Seq<char>, n: nat, good: spec_fn(char) -> bool) -> bool
    decreases n,
{
    n > 0 ==> good(text[n - 1]) && holds_up_to(text, (n - 1) as nat, good)
}

/// `holds_up_to` speaks of each of the characters.
pub proof fn lemma_holds_up_to(text: Seq<char>, n: nat, good: spec_fn(char) -> bool)
    requires
        holds_up_to(text, n, good),
    ensures
        forall|i: int| 0 <= i < n ==> good(#[trigger] text[i]),
    decreases n,
{
    if n > 0 {
        lemma_holds_up_to(text, (n - 1) as nat, good);
    }
}

/// The position of the first `sep` at or after `from`; the length where there is none.
pub fn find_from(list: &Vec<char>, from: usize, sep: char) -> (at: usize)
    requires
        from <= list.len(),
    ensures
        at == from + prefix_len(list@.skip(from as int), sep),
        from <= at <= list.len(),
        at < list.len() ==> list@[at as int] == sep,
{
    let mut at: usize = from;
    while at < list.len() && list[at] != sep
        invariant
            from <= at <= list.len(),
            forall|i: int| from <= i < at ==> #[trigger] list@[i] != sep,
        decreases list.len() - at,
    {
        at = at + 1;
    }
    proof {
        let rest = list@.skip(from as int);
        assert forall|i: int| 0 <= i < at - from implies #[trigger] rest[i] != sep by {
            assert(rest[i] == list@[i + from]);
        }
        lemma_prefix_len(rest, sep, at - from);
    }
    at
}

/// Space, tab, line feed, form feed and carriage return.
pub open spec fn is_ascii_space(c: char) -> bool {
    c == ' ' || c == '\t' || c == '\n' || c == '\x0c' || c == '\r'
}

/// `words` with `word` behind it, unless `word` is empty.
pub open spec fn with_word(words: Seq<Seq<char>>, word: Seq<char>) -> Seq<Seq<char>> {
    if word.len() == 0 {
        words
    } else {
        words.push(word)
    }
}

/// The maximal runs of characters of `text` that are no ASCII whitespace, in order.
pub open spec fn fields(text: Seq<char>) -> Seq<Seq<char>> {
    with_word(closed_fields(text), open_field(text))
}

/// The run that `text` ends in; empty where it ends in ASCII whitespace.
pub open spec fn open_field(text: Seq<char>) -> Seq<char>
    decreases text.len(),
{
    if text.len() == 0 || is_ascii_space(text.last()) {
        seq![]
    } else {
        open_field(text.drop_last()).push(text.last())
    }
}

/// The runs of `text` that ASCII whitespace ends.
pub open spec fn closed_fields(text: Seq<char>) -> Seq<Seq<char>>
    decreases text.len(),
{
    if text.len() == 0 {
        seq![]
    } else if is_ascii_space(text.last()) {
        with_word(closed_fields(text.drop_last()), open_field(text.drop_last()))
    } else {
        closed_fields(text.drop_last())
    }
}

/// What the strings of a list hold.
pub open spec fn texts(list: Seq<String>) -> Seq<Seq<char>> {
    Seq::new(list.len(), |i: int| list[i]@)
}

/// The fields of `text` that ASCII whitespace separates.
pub fn split_fields(text: &str) -> (list: Vec<String>)
    ensures
        texts(list@) == fields(text@),
{
    let source = characters(text);
    let mut list: Vec<String> = Vec::new();
    let mut from: usize = 0;
    let mut at: usize = 0;
    while at < source.len()
        invariant
            source@ == text@,
            from <= at <= source.len(),
            texts(list@) == closed_fields(text@.take(at as int)),
            open_field(text@.take(at as int)) == text@.subrange(from as int, at as int),
        decreases source.len() - at,
    {
        let c = source[at];
        let space: bool = c == ' ' || c == '\t' || c == '\n' || c == '\x0c' || c == '\r';
        let ghost before = list@;
        if space {
            if from < at {
                list.push(text.substring_char(from, at).to_owned());
                assert(texts(list@) =~= texts(before).push(text@.subrange(from as int, at as int)));
            }
            from = at + 1;
        }
        proof {
            let next = text@.take(at + 1);
            assert(next.drop_last() =~= text@.take(at as int));
            assert(next.last() == c);
            if space {
                assert(text@.subrange(from as int, at + 1) =~= seq![]);
            } else {
                assert(text@.subrange(from as int, at + 1) =~= text@.subrange(
                    from as int,
                    at as int,
                ).push(c));
            }
        }
        at = at + 1;
    }
    let ghost before = list@;
    if from < at {
        list.push(text.substring_char(from, at).to_owned());
        assert(texts(list@) =~= texts(before).push(text@.subrange(from as int, at as int)));
    }
    assert(text@.take(at as int) =~= text@);
    list
}

/// The character of a digit.
pub open spec fn digit_char(d: nat) -> char {
    (48 + d) as char
}

/// `n` in decimal notation.
pub open spec fn decimal(n: nat) -> Seq<char>
    decreases n,
{
    if n < 10 {
        seq![digit_char(n)]
    } else {
        decimal(n / 10).push(digit_char(n % 10))
    }
}

fn digit_text(d: u32) -> (text: &'static str)
    requires
        d < 10,
    ensures
        text@ == seq![digit_char(d as nat)],
{
    proof {
        reveal_strlit("0");
        reveal_strlit("1");
        reveal_strlit("2");
        reveal_strlit("3");
        reveal_strlit("4");
        reveal_strlit("5");
        reveal_strlit("6");
        reveal_strlit("7");
        reveal_strlit("8");
        reveal_strlit("9");
    }
    let text: &'static str = if d == 0 {
        "0"
    } else if d == 1 {
        "1"
    } else if d == 2 {
        "2"
    } else if d == 3 {
        "3"
    } else if d == 4 {
        "4"
    } else if d == 5 {
        "5"
    } else if d == 6 {
        "6"
    } else if d == 7 {
        "7"
    } else if d == 8 {
        "8"
    } else {
        "9"
    };
    assert(text@ =~= seq![digit_char(d as nat)]);
    text
}

/// Writes `n` in decimal notation behind `out`.
pub fn append_decimal(out: &mut String, n: u32)
    ensures
        final(out)@ == old(out)@ + decimal(n as nat),
    decreases n,
{
    if n >= 10 {
        append_decimal(out, n / 10);
    }
    out.append(digit_text(n % 10));
    assert(out@ =~= old(out)@ + decimal(n as nat));
}

/// Whether every character is an ASCII digit.
pub open spec fn all_digits(text: Seq<char>) -> bool {
    forall|i: int| 0 <= i < text.len() ==> '0' <= #[trigger] text[i] <= '9'
}

/// The number that a run of digits writes in decimal notation.
pub open spec fn digits_value(text: Seq<char>) -> nat
    decreases text.len(),
{
    if text.len() == 0 {
        0
    } else {
        (digits_value(text.drop_last()) * 10 + (text.last() as u32 - 48)) as nat
    }
}

/// `text` without one leading plus sign.
pub open spec fn unsigned_body(text: Seq<char>) -> Seq<char> {
    if text.len() > 0 && text[0] == '+' {
        text.drop_first()
    } else {
        text
    }
}

/// The number below 2^32 that `text` writes: at least one digit, behind at most one plus sign,
/// and nothing else.
pub open spec fn unsigned_value(text: Seq<char>) -> Option<u32> {
    let body = unsigned_body(text);
    if body.len() > 0 && all_digits(body) && digits_value(body) <= u32::MAX {
        Some(digits_value(body) as u32)
    } else {
        None
    }
}

proof fn lemma_digits_value_grows(text: Seq<char>, n: int)
    requires
        0 <= n <= text.len(),
        all_digits(text),
    ensures
        digits_value(text.take(n)) <= digits_value(text),
    decreases text.len(),
{
    if n == text.len() {
        assert(text.take(n) =~= text);
    } else {
        let rest = text.drop_last();
        lemma_digits_value_grows(rest, n);
        assert(rest.take(n) =~= text.take(n));
        assert('0' <= text[text.len() - 1]);
    }
}

/// Reads an unsigned decimal number below 2^32.
pub fn parse_unsigned(text: &str) -> (number: Option<u32>)
    ensures
        number == unsigned_value(text@),
{
    let list = characters(text);
    let start: usize = if list.len() > 0 && list[0] == '+' { 1 } else { 0 };
    let ghost body = unsigned_body(text@);
    assert(body =~= text@.skip(start as int));
    if start == list.len() {
        return None;
    }
    let mut value: u64 = 0;
    let mut at: usize = start;
    while at < list.len()
        invariant
            start <= at <= list.len(),
            start < list.len(),
            list@ == text@,
            body == unsigned_body(text@),
            body == text@.skip(start as int),
            all_digits(body.take(at - start)),
            value == digits_value(body.take(at - start)),
            value <= u32::MAX,
        decreases list.len() - at,
    {
        let c = list[at];
        assert(c == body[at - start]);
        if c < '0' || c > '9' {
            return None;
        }
        let digit: u64 = c as u64 - 48;
        value = value * 10 + digit;
        proof {
            let next = body.take(at + 1 - start);
            assert(next.drop_last() =~= body.take(at - start));
            assert(next.last() == c);
            assert forall|i: int| 0 <= i < next.len() implies '0' <= #[trigger] next[i] <= '9' by {
                if i < at - start {
                    assert(next[i] == body.take(at - start)[i]);
                }
            }
            if value > u32::MAX && all_digits(body) {
                lemma_digits_value_grows(body, at + 1 - start);
            }
        }
        if value > 0xffff_ffff {
            return None;
        }
        at = at + 1;
    }
    assert(body.take(at - start) =~= body);
    Some(value as u32)
}

/// `c`, in lower case where it is an ASCII letter.
pub open spec fn lower_char(c: char) -> char {
    if 'A' <= c <= 'Z' {
        (c as u32 + 32) as char
    } else {
        c
    }
}

/// `text` with its ASCII letters in lower case.
pub open spec fn ascii_lower(text: Seq<char>) -> Seq<char> {
    text.map_values(|c: char| lower_char(c))
}

/// Whether `text`, with its ASCII letters in lower case, is `expected`.
pub fn lower_is(text: &str, expected: &str) -> (same: bool)
    ensures
        same == (ascii_lower(text@) == expected@),
{
    let left = characters(text);
    let right = characters(expected);
    if left.len() != right.len() {
        return false;
    }
    for i in 0..left.len()
        invariant
            left@ == text@,
            right@ == expected@,
            left.len() == right.len(),
            forall|j: int| 0 <= j < i ==> lower_char(#[trigger] left@[j]) == right@[j],
    {
        let c = left[i];
        let low: char = if 'A' <= c && c <= 'Z' { (c as u8 + 32) as char } else { c };
        if low != right[i] {
            assert(ascii_lower(text@)[i as int] != expected@[i as int]);
            return false;
        }
    }
    assert(ascii_lower(text@) =~= expected@);
    true
}

/// The texts of a list, one behind the other, with `sep` between them.
pub open spec fn joined(list: Seq<Seq<char>>, sep: Seq<char>) -> Seq<char>
    decreases list.len(),
{
    if list.len() == 0 {
        seq![]
    } else if list.len() == 1 {
        list[0]
    } else {
        joined(list.drop_last(), sep) + sep + list.last()
    }
}

/// Joins the strings of a list, with `sep` between them.
pub fn join(list: &Vec<String>, sep: &str) -> (text: String)
    ensures
        text@ == joined(texts(list@), sep@),
{
    let mut text = String::new();
    let ghost all = texts(list@);
    for i in 0..list.len()
        invariant
            all == texts(list@),
            text@ == joined(all.take(i as int), sep@),
    {
        if i > 0 {
            text.append(sep);
        }
        text.append(list[i].as_str());
        proof {
            let next = all.take(i + 1);
            assert(next.drop_last() =~= all.take(i as int));
            assert(next.last() == list@[i as int]@);
            if i == 0 {
                assert(text@ =~= next[0]);
            }
        }
    }
    assert(all.take(list@.len() as int) =~= all);
    text
}

/// Decimal notation has one digit for each power of ten, from the highest one down, with no zero
/// in front of another digit.
#[verifier::spinoff_prover]
pub proof fn law_decimal_notation(n: nat)
    ensures
        ({
            let text = decimal(n);
            &&& text.len() > 0
            &&& n < pow(10, text.len())
            &&& text.len() > 1 ==> pow(10, (text.len() - 1) as nat) <= n
            &&& forall|i: int|
                0 <= i < text.len() ==> '0' <= #[trigger] text[i] <= '9' && text[i] as int - 48 == (
                n as int / pow(10, (text.len() - 1 - i) as nat)) % 10
        }),
    decreases n,
{
    lemma_pow1(10);
    lemma_pow0(10);
    if n >= 10 {
        let front = decimal(n / 10);
        let text = decimal(n);
        law_decimal_notation(n / 10);
        lemma_pow_adds(10, front.len(), 1);
        lemma_pow_adds(10, (front.len() - 1) as nat, 1);
        assert forall|i: int| 0 <= i < text.len() implies '0' <= #[trigger] text[i] <= '9'
            && text[i] as int - 48 == (n as int / pow(10, (text.len() - 1 - i) as nat)) % 10 by {
            if i < front.len() {
                assert(text[i] == front[i]);
                let rest = (front.len() - 1 - i) as nat;
                lemma_pow_adds(10, 1, rest);
                lemma_pow_positive(10, rest);
                vstd::arithmetic::div_mod::lemma_div_denominator(n as int, 10, pow(10, rest));
                assert(n as int / pow(10, (text.len() - 1 - i) as nat) == (n / 10) as int / pow(
                    10,
                    rest,
                ));
            } else {
                assert(pow(10, (text.len() - 1 - i) as nat) == 1);
                assert(n as int / 1 == n);
            }
        }
    }
}

/// A run of digits is worth what its digits are worth: each is the number, without as many of its
/// last places as follow the digit, modulo ten.
#[verifier::spinoff_prover]
pub proof fn law_digits_are_worth_their_places(text: Seq<char>)
    requires
        forall|i: int| 0 <= i < text.len() ==> '0' <= #[trigger] text[i] <= '9',
    ensures
        digits_value(text) < pow(10, text.len()),
        forall|i: int|
            0 <= i < text.len() ==> #[trigger] text[i] as int - 48 == (digits_value(text) as int
                / pow(10, (text.len() - 1 - i) as nat)) % 10,
    decreases text.len(),
{
    lemma_pow1(10);
    lemma_pow0(10);
    if text.len() > 0 {
        let front = text.drop_last();
        let n = digits_value(text) as int;
        assert forall|i: int| 0 <= i < front.len() implies '0' <= #[trigger] front[i] <= '9' by {
            assert(front[i] == text[i]);
        }
        law_digits_are_worth_their_places(front);
        assert('0' <= text[text.len() - 1] <= '9');
        lemma_pow_adds(10, front.len(), 1);
        let v = digits_value(front) as int;
        let d = text.last() as int - 48;
        assert(n == v * 10 + d && 0 <= d < 10);
        assert(n / 10 == v && n % 10 == d);
        assert forall|i: int| 0 <= i < text.len() implies #[trigger] text[i] as int - 48 == (n
            / pow(10, (text.len() - 1 - i) as nat)) % 10 by {
            if i < front.len() {
                assert(text[i] == front[i]);
                let rest = (front.len() - 1 - i) as nat;
                lemma_pow_adds(10, 1, rest);
                lemma_pow_positive(10, rest);
                vstd::arithmetic::div_mod::lemma_div_denominator(n, 10, pow(10, rest));
                assert(n / pow(10, (text.len() - 1 - i) as nat) == v / pow(10, rest));
            } else {
                assert(pow(10, (text.len() - 1 - i) as nat) == 1);
                assert(n / 1 == n);
            }
        }
    }
}

proof fn lemma_decimal_value(n: nat)
    ensures
        all_digits(decimal(n)),
        decimal(n).len() > 0,
        digits_value(decimal(n)) == n,
    decreases n,
{
    law_decimal_notation(n);
    let text = decimal(n);
    if n >= 10 {
        lemma_decimal_value(n / 10);
        assert(text.drop_last() =~= decimal(n / 10));
    } else {
        assert(text.drop_last() =~= seq![]);
        assert(digits_value(seq![]) == 0);
    }
}

/// A number that was written in decimal notation is read back as itself, with or without a plus
/// sign before it.
pub proof fn law_decimal_is_read_back(n: u32)
    ensures
        unsigned_value(decimal(n as nat)) == Some(n),
        unsigned_value(seq!['+'] + decimal(n as nat)) == Some(n),
{
    let text = decimal(n as nat);
    lemma_decimal_value(n as nat);
    assert('0' <= text[0]);
    assert((seq!['+'] + text).drop_first() =~= text);
}

/// A text is read as a number if and only if it is made of digits, at least one, behind at most one
/// plus sign, and these are worth less than 2^32; it is then read as what they are worth.
pub proof fn law_unsigned_numbers(text: Seq<char>, digits: Seq<char>)
    ensures
        unsigned_value(text) is Some ==> {
            &&& text.len() > 0
            &&& '0' <= text[0] <= '9' || text[0] == '+' && text.len() > 1
            &&& forall|i: int| 1 <= i < text.len() ==> '0' <= #[trigger] text[i] <= '9'
        },
        digits.len() > 0 && (forall|i: int|
            0 <= i < digits.len() ==> '0' <= #[trigger] digits[i] <= '9') && (text == digits || text
            == seq!['+'] + digits) ==> match unsigned_value(text) {
            Some(n) => n == digits_value(digits),
            None => digits_value(digits) >= 0x1_0000_0000,
        },
{
    let body = unsigned_body(text);
    if unsigned_value(text) is Some {
        assert('0' <= body[0] <= '9');
        assert forall|i: int| 1 <= i < text.len() implies '0' <= #[trigger] text[i] <= '9' by {
            if text[0] == '+' {
                assert(body[i - 1] == text[i]);
            } else {
                assert(body[i] == text[i]);
            }
        }
    }
    if digits.len() > 0 && all_digits(digits) {
        assert('0' <= digits[0] <= '9');
        assert((seq!['+'] + digits).drop_first() =~= digits);
    }
}

proof fn lemma_fields_concat(a: Seq<char>, space: char, b: Seq<char>)
    requires
        is_ascii_space(space),
    ensures
        closed_fields(a.push(space) + b) == fields(a) + closed_fields(b),
        open_field(a.push(space) + b) == open_field(b),
    decreases b.len(),
{
    let whole = a.push(space) + b;
    if b.len() == 0 {
        assert(whole =~= a.push(space));
        assert(whole.drop_last() =~= a);
        assert(fields(a) + closed_fields(b) =~= fields(a));
    } else {
        assert(whole.drop_last() =~= a.push(space) + b.drop_last());
        assert(whole.last() == b.last());
        lemma_fields_concat(a, space, b.drop_last());
        let closed = closed_fields(b.drop_last());
        let open = open_field(b.drop_last());
        assert(with_word(fields(a) + closed, open) =~= fields(a) + with_word(closed, open));
    }
}

proof fn lemma_one_field(word: Seq<char>)
    requires
        forall|i: int| 0 <= i < word.len() ==> !is_ascii_space(#[trigger] word[i]),
    ensures
        closed_fields(word) == Seq::<Seq<char>>::empty(),
        open_field(word) == word,
    decreases word.len(),
{
    if word.len() > 0 {
        let front = word.drop_last();
        assert forall|i: int| 0 <= i < front.len() implies !is_ascii_space(#[trigger] front[i]) by {
            assert(front[i] == word[i]);
        }
        lemma_one_field(front);
        assert(!is_ascii_space(word[word.len() - 1]));
        assert(front.push(word.last()) =~= word);
    }
}

/// What separates fields is a space, a tab, a line feed, a form feed or a carriage return, and
/// nothing else. The fields of two texts with one of these between them are the fields of both, and
/// a text in which there is none of these is one field; an empty text has no field.
pub proof fn law_fields_are_separated_by_spaces(
    a: Seq<char>,
    space: char,
    b: Seq<char>,
    word: Seq<char>,
)
    requires
        ({
            let code = space as u32;
            code == 9 || code == 10 || code == 12 || code == 13 || code == 32
        }),
        word.len() > 0,
        forall|i: int|
            0 <= i < word.len() ==> {
                let code = #[trigger] word[i] as u32;
                code != 9 && code != 10 && code != 12 && code != 13 && code != 32
            },
    ensures
        fields(a.push(space) + b) == fields(a) + fields(b),
        fields(word) == seq![word],
        fields(seq![]) == Seq::<Seq<char>>::empty(),
{
    lemma_fields_concat(a, space, b);
    let closed = closed_fields(b);
    let open = open_field(b);
    assert(with_word(fields(a) + closed, open) =~= fields(a) + with_word(closed, open));
    assert forall|i: int| 0 <= i < word.len() implies !is_ascii_space(#[trigger] word[i]) by {
        let code = word[i] as u32;
    }
    lemma_one_field(word);
    assert(closed_fields(seq![]).len() == 0);
}

/// The characters that are cut off around a text, by their code points.
pub proof fn law_whitespace(c: char)
    ensures
        is_whitespace(c) <==> {
            let code = c as u32;
            ||| code == 9 || code == 10 || code == 11 || code == 12 || code == 13 || code == 32
            ||| code == 0x85 || code == 0xa0 || code == 0x1680 || code == 0x2028 || code == 0x2029
            ||| code == 0x2000 || code == 0x2001 || code == 0x2002 || code == 0x2003
            ||| code == 0x2004 || code == 0x2005 || code == 0x2006 || code == 0x2007
            ||| code == 0x2008 || code == 0x2009 || code == 0x200a
            ||| code == 0x202f || code == 0x205f || code == 0x3000
        },
{
}

proof fn lemma_trim_start_from(text: Seq<char>) -> (n: int)
    ensures
        0 <= n <= text.len(),
        trim_start(text) == text.skip(n),
        forall|i: int| 0 <= i < n ==> is_whitespace(#[trigger] text[i]),
        n < text.len() ==> !is_whitespace(text[n]),
    decreases text.len(),
{
    if text.len() > 0 && is_whitespace(text[0]) {
        let rest = text.drop_first();
        let n = lemma_trim_start_from(rest);
        assert(rest.skip(n) =~= text.skip(n + 1));
        assert forall|i: int| 0 <= i < n + 1 implies is_whitespace(#[trigger] text[i]) by {
            if i > 0 {
                assert(rest[i - 1] == text[i]);
            }
        }
        n + 1
    } else {
        assert(text.skip(0) =~= text);
        0
    }
}

proof fn lemma_trim_end_to(text: Seq<char>) -> (n: int)
    ensures
        0 <= n <= text.len(),
        trim_end(text) == text.take(n),
        forall|i: int| n <= i < text.len() ==> is_whitespace(#[trigger] text[i]),
        n > 0 ==> !is_whitespace(text[n - 1]),
    decreases text.len(),
{
    if text.len() > 0 && is_whitespace(text.last()) {
        let rest = text.drop_last();
        let n = lemma_trim_end_to(rest);
        assert(rest.take(n) =~= text.take(n));
        assert forall|i: int| n <= i < text.len() implies is_whitespace(#[trigger] text[i]) by {
            if i < rest.len() {
                assert(rest[i] == text[i]);
            }
        }
        n
    } else {
        assert(text.take(text.len() as int) =~= text);
        text.len() as int
    }
}

/// Trimming cuts whitespace off both ends, nothing else and nothing in between, and leaves none
/// there.
pub proof fn law_trimming(text: Seq<char>) -> (cut: (int, int))
    ensures
        0 <= cut.0 <= cut.1 <= text.len(),
        trimmed(text) == text.subrange(cut.0, cut.1),
        forall|i: int|
            0 <= i < cut.0 || cut.1 <= i < text.len() ==> is_whitespace(#[trigger] text[i]),
        cut.0 < cut.1 ==> !is_whitespace(text[cut.0]) && !is_whitespace(text[cut.1 - 1]),
{
    let from = lemma_trim_start_from(text);
    let rest = text.skip(from);
    let n = lemma_trim_end_to(rest);
    assert(rest.take(n) =~= text.subrange(from, from + n));
    assert forall|i: int| 0 <= i < from || from + n <= i < text.len() implies is_whitespace(
        #[trigger] text[i],
    ) by {
        if i >= from + n {
            assert(rest[i - from] == text[i]);
        }
    }
    if n > 0 {
        assert(rest[n - 1] == text[from + n - 1]);
    }
    (from, from + n)
}

/// In lower case the letters from `A` to `Z` become the letters from `a` to `z`, each in its place,
/// and nothing else changes.
pub proof fn law_lower_case(text: Seq<char>, i: int)
    requires
        0 <= i < text.len(),
    ensures
        ascii_lower(text).len() == text.len(),
        65 <= text[i] as u32 <= 90 ==> ascii_lower(text)[i] as u32 == text[i] as u32 + 32,
        !(65 <= text[i] as u32 <= 90) ==> ascii_lower(text)[i] == text[i],
{
}

/// Texts are joined in their order, with the separator between each and the next.
pub proof fn law_joining(list: Seq<Seq<char>>, text: Seq<char>, sep: Seq<char>)
    ensures
        joined(seq![], sep) == Seq::<char>::empty(),
        joined(seq![text], sep) == text,
        list.len() > 0 ==> joined(list.push(text), sep) == joined(list, sep) + sep + text,
{
    assert(list.push(text).drop_last() =~= list);
}

/// What the strings of a list hold is what each of them holds, in order.
pub proof fn law_texts_are_those_of_the_strings(list: Seq<String>, i: int)
    requires
        0 <= i < list.len(),
    ensures
        texts(list).len() == list.len(),
        texts(list)[i] == list[i]@,
{
}

} // verus!
