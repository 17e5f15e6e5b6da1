//! The two small documents that the host and the worker exchange, as
//! bytes: the progress record, one to a line on the worker's output, and
//! the snapshot's metadata file.
//!
//! Each is a JSON object whose members are unsigned numbers. The writers
//! produce one form: the members in one order, numbers in decimal without
//! sign or leading zeros, no white space. The readers take the object
//! token by token, with any white space before, between and after the
//! tokens, and the two members of a progress record in either order.

use vstd::prelude::*;
use crate::progress::Progress;
use crate::text::{
    chars_of,
    decimal,
    decimal_value,
    digits_end,
    is_digit,
    is_digit_exec,
    lemma_decimal_digits,
    lemma_decimal_value,
    lemma_digits_end,
    push_decimal,
    read_decimal,
    scan_digits,
};

verus! {

/// The token that opens an object.
pub const OPEN: &'static str = "{";

/// The token that closes an object.
pub const CLOSE: &'static str = "}";

/// The token between a member's name and its value.
pub const COLON: &'static str = ":";

/// The token between two members.
pub const COMMA: &'static str = ",";

/// The name of the count in a progress record, as a token.
pub const PROGRESS_KEY: &'static str = "\"progress\"";

/// The name of the total in a progress record, as a token.
pub const TOTAL_KEY: &'static str = "\"total\"";

/// The name of the size in the metadata, as a token.
pub const TOTAL_SIZE_KEY: &'static str = "\"total_size\"";

/// Whether `c` is white space between JSON tokens: a space, a tab, a
/// line feed or a carriage return.
pub open spec fn is_space(c: char) -> bool {
    c == ' ' || c == '\t' || c == '\n' || c == '\r'
}

/// The bytes of a text of ASCII characters.
pub open spec fn ascii(text: Seq<char>) -> Seq<u8> {
    Seq::new(text.len(), |i: int| text[i] as u8)
}

/// The characters that stand for `bytes`, one for each byte.
pub open spec fn text_of(bytes: Seq<u8>) -> Seq<char> {
    Seq::new(bytes.len(), |i: int| bytes[i] as char)
}

/// Whether every character of `text` is an ASCII character.
pub open spec fn is_ascii_text(text: Seq<char>) -> bool {
    forall|i: int| 0 <= i < text.len() ==> '\0' <= #[trigger] text[i] <= '\x7f'
}

/// The tokens of the progress record `p`, the count first.
pub open spec fn progress_tokens(p: Progress) -> Seq<Seq<char>> {
    seq![
        OPEN@,
        PROGRESS_KEY@,
        COLON@,
        decimal(p.progress as nat),
        COMMA@,
        TOTAL_KEY@,
        COLON@,
        decimal(p.total as nat),
        CLOSE@,
    ]
}

/// The tokens of the progress record `p`, the total first.
pub open spec fn progress_tokens_swapped(p: Progress) -> Seq<Seq<char>> {
    seq![
        OPEN@,
        TOTAL_KEY@,
        COLON@,
        decimal(p.total as nat),
        COMMA@,
        PROGRESS_KEY@,
        COLON@,
        decimal(p.progress as nat),
        CLOSE@,
    ]
}

/// The tokens of the metadata of a snapshot of `total_size` bytes.
pub open spec fn metadata_tokens(total_size: u64) -> Seq<Seq<char>> {
    seq![OPEN@, TOTAL_SIZE_KEY@, COLON@, decimal(total_size as nat), CLOSE@]
}

/// The tokens from the `k`th on, one after the other with nothing
/// between them.
pub open spec fn written_from(tokens: Seq<Seq<char>>, k: int) -> Seq<char>
    decreases tokens.len() - k,
{
    if k < 0 || k >= tokens.len() {
        Seq::empty()
    } else {
        tokens[k] + written_from(tokens, k + 1)
    }
}

/// The progress record `p` as the writer writes it: its tokens, the
/// count first, with nothing between them.
pub open spec fn progress_json(p: Progress) -> Seq<char> {
    written_from(progress_tokens(p), 0)
}

/// The metadata of a snapshot of `total_size` bytes as the writer writes
/// it: its tokens with nothing between them.
pub open spec fn metadata_json(total_size: u64) -> Seq<char> {
    written_from(metadata_tokens(total_size), 0)
}

/// Where the white space that starts at `from` ends: the first index at
/// or after `from` that holds none, or the length of `s`.
pub open spec fn space_end(s: Seq<char>, from: int) -> int
    decreases s.len() - from,
{
    if 0 <= from < s.len() && is_space(s[from]) {
        space_end(s, from + 1)
    } else {
        from
    }
}

/// Where `token` ends when it is what comes next in `s` at `from`, white
/// space before it set aside; `None` when something else comes next.
pub open spec fn after_token(s: Seq<char>, from: int, token: Seq<char>) -> Option<int> {
    let start = space_end(s, from);
    if 0 <= start && start + token.len() <= s.len() && s.subrange(start, start + token.len()) == token {
        Some(start + token.len())
    } else {
        None
    }
}

/// Whether `s` from `from` on is the tokens from the `k`th on, in order,
/// with any white space before each and after the last, and nothing
/// else.
pub open spec fn reads_from(s: Seq<char>, from: int, tokens: Seq<Seq<char>>, k: int) -> bool
    decreases tokens.len() - k,
{
    if k < 0 || k >= tokens.len() {
        space_end(s, from) == s.len()
    } else {
        match after_token(s, from, tokens[k]) {
            Some(next) => reads_from(s, next, tokens, k + 1),
            None => false,
        }
    }
}

/// Whether `s` is `tokens`, in order, with any white space before,
/// between and after them, and nothing else.
pub open spec fn reads(s: Seq<char>, tokens: Seq<Seq<char>>) -> bool {
    reads_from(s, 0, tokens, 0)
}

/// Whether `bytes` carry the progress record `p`: whether they are its
/// tokens, in one order of the members or the other.
pub open spec fn carries(bytes: Seq<u8>, p: Progress) -> bool {
    reads(text_of(bytes), progress_tokens(p)) || reads(text_of(bytes), progress_tokens_swapped(p))
}

/// Whether `bytes` hold the metadata of a snapshot of `total_size`
/// bytes.
pub open spec fn holds(bytes: Seq<u8>, total_size: u64) -> bool {
    reads(text_of(bytes), metadata_tokens(total_size))
}

/// The progress record that `message` carries, if it carries one.
pub open spec fn record_in(message: Seq<u8>) -> Option<Progress> {
    if exists|p: Progress| carries(message, p) {
        Some(choose|p: Progress| carries(message, p))
    } else {
        None
    }
}

/// The size that the content of a metadata file gives, if it holds one.
pub open spec fn metadata_in(content: Seq<u8>) -> Option<u64> {
    if exists|n: u64| holds(content, n) {
        Some(choose|n: u64| holds(content, n))
    } else {
        None
    }
}

/// Where the first digit at or after `from` stands in `s`, or the length
/// of `s` when there is none.
pub open spec fn digit_start(s: Seq<char>, from: int) -> int
    decreases s.len() - from,
{
    if 0 <= from < s.len() && !is_digit(s[from]) {
        digit_start(s, from + 1)
    } else {
        from
    }
}

/// Whether `token` has a character, and no digit and no white space
/// among its characters.
pub open spec fn is_plain(token: Seq<char>) -> bool {
    &&& token.len() > 0
    &&& forall|i: int| 0 <= i < token.len() ==> !is_digit(#[trigger] token[i]) && !is_space(token[i])
}

proof fn lemma_text_of_ascii(text: Seq<char>)
    requires
        is_ascii_text(text),
    ensures
        text_of(ascii(text)) == text,
{
    assert forall|i: int| 0 <= i < text.len() implies #[trigger] text_of(ascii(text))[i] == text[i] by {
        assert('\0' <= text[i] <= '\x7f');
    }
}

proof fn lemma_decimal_is_ascii(n: nat)
    ensures
        is_ascii_text(decimal(n)),
{
    lemma_decimal_digits(n);
    assert forall|i: int| 0 <= i < decimal(n).len() implies '\0' <= #[trigger] decimal(n)[i] <= '\x7f' by {
        assert(is_digit(decimal(n)[i]));
    }
}

proof fn lemma_literals()
    ensures
        is_plain(OPEN@),
        is_plain(CLOSE@),
        is_plain(COLON@),
        is_plain(COMMA@),
        is_plain(PROGRESS_KEY@),
        is_plain(TOTAL_KEY@),
        is_plain(TOTAL_SIZE_KEY@),
        is_ascii_text(OPEN@),
        is_ascii_text(CLOSE@),
        is_ascii_text(COLON@),
        is_ascii_text(COMMA@),
        is_ascii_text(PROGRESS_KEY@),
        is_ascii_text(TOTAL_KEY@),
        is_ascii_text(TOTAL_SIZE_KEY@),
        PROGRESS_KEY@[1] == 'p',
        TOTAL_KEY@[1] == 't',
        PROGRESS_KEY@.len() == 10,
        TOTAL_KEY@.len() == 7,
{
    reveal_strlit("{");
    reveal_strlit("}");
    reveal_strlit(":");
    reveal_strlit(",");
    reveal_strlit("\"progress\"");
    reveal_strlit("\"total\"");
    reveal_strlit("\"total_size\"");
}

/// What [`space_end`] finds is a run of white space closed by something
/// else or by the end of the sequence.
proof fn lemma_space_end(s: Seq<char>, from: int)
    requires
        0 <= from <= s.len(),
    ensures
        from <= space_end(s, from) <= s.len(),
        forall|i: int| from <= i < space_end(s, from) ==> is_space(#[trigger] s[i]),
        space_end(s, from) == s.len() || !is_space(s[space_end(s, from)]),
    decreases s.len() - from,
{
    if from < s.len() && is_space(s[from]) {
        lemma_space_end(s, from + 1);
    }
}

/// White space up to the end of the sequence is where [`space_end`]
/// stops.
proof fn lemma_space_to_end(s: Seq<char>, from: int)
    requires
        0 <= from <= s.len(),
        forall|i: int| from <= i < s.len() ==> is_space(#[trigger] s[i]),
    ensures
        space_end(s, from) == s.len(),
    decreases s.len() - from,
{
    if from < s.len() {
        lemma_space_to_end(s, from + 1);
    }
}

/// Where nothing is a digit, the first digit is further on.
proof fn lemma_digit_start_skips(s: Seq<char>, from: int, to: int)
    requires
        0 <= from <= to <= s.len(),
        forall|i: int| from <= i < to ==> !is_digit(#[trigger] s[i]),
    ensures
        digit_start(s, from) == digit_start(s, to),
    decreases to - from,
{
    if from < to {
        lemma_digit_start_skips(s, from + 1, to);
    }
}

/// Reading a plain token passes over no digit, and starts on none.
proof fn lemma_plain_token(s: Seq<char>, from: int, token: Seq<char>)
    requires
        0 <= from <= s.len(),
        is_plain(token),
        after_token(s, from, token) is Some,
    ensures
        from < after_token(s, from, token)->0 <= s.len(),
        !is_digit(s[from]),
        digit_start(s, from) == digit_start(s, after_token(s, from, token)->0),
{
    lemma_space_end(s, from);
    let start = space_end(s, from);
    let next = after_token(s, from, token)->0;
    assert forall|i: int| from <= i < next implies !is_digit(#[trigger] s[i]) by {
        if i >= start {
            assert(s.subrange(start, next)[i - start] == token[i - start]);
        }
    }
    lemma_digit_start_skips(s, from, next);
}

/// Reading a numeral that something other than a digit follows finds
/// the number's digits: they are the first run of digits from there on.
proof fn lemma_number_token(s: Seq<char>, from: int, n: nat)
    requires
        0 <= from <= s.len(),
        after_token(s, from, decimal(n)) is Some,
        after_token(s, from, decimal(n))->0 < s.len(),
        !is_digit(s[after_token(s, from, decimal(n))->0]),
    ensures
        from <= digit_start(s, from) < after_token(s, from, decimal(n))->0,
        digits_end(s, digit_start(s, from)) == after_token(s, from, decimal(n))->0,
        s.subrange(digit_start(s, from), after_token(s, from, decimal(n))->0) == decimal(n),
{
    lemma_space_end(s, from);
    lemma_decimal_digits(n);
    let start = space_end(s, from);
    let next = after_token(s, from, decimal(n))->0;
    assert forall|i: int| start <= i < next implies is_digit(#[trigger] s[i]) by {
        assert(s.subrange(start, next)[i - start] == decimal(n)[i - start]);
    }
    assert(is_digit(s[start]));
    lemma_digit_start_skips(s, from, start);
    lemma_digits_end(s, start, next);
}

/// A token that stands at `at` with no white space before it is what
/// comes next there.
proof fn lemma_token_at(s: Seq<char>, at: int, token: Seq<char>)
    requires
        0 <= at,
        at + token.len() <= s.len(),
        token.len() > 0,
        !is_space(token[0]),
        s.subrange(at, at + token.len()) == token,
    ensures
        after_token(s, at, token) == Some(at + token.len()),
{
    assert(s[at] == s.subrange(at, at + token.len())[0]);
}

/// In what reads as an object of two numbers, the numbers are the first
/// two runs of digits.
proof fn lemma_two_numbers(s: Seq<char>, tokens: Seq<Seq<char>>, first: nat, second: nat)
    requires
        tokens.len() == 9,
        reads(s, tokens),
        is_plain(tokens[0]),
        is_plain(tokens[1]),
        is_plain(tokens[2]),
        tokens[3] == decimal(first),
        is_plain(tokens[4]),
        is_plain(tokens[5]),
        is_plain(tokens[6]),
        tokens[7] == decimal(second),
        is_plain(tokens[8]),
    ensures
        ({
            let d1 = digit_start(s, 0);
            let e1 = digits_end(s, d1);
            let d2 = digit_start(s, e1);
            let e2 = digits_end(s, d2);
            &&& 0 <= d1 <= e1 <= d2 <= e2 <= s.len()
            &&& s.subrange(d1, e1) == decimal(first)
            &&& s.subrange(d2, e2) == decimal(second)
        }),
{
    reveal_with_fuel(reads_from, 10);
    let i1 = after_token(s, 0, tokens[0])->0;
    lemma_plain_token(s, 0, tokens[0]);
    let i2 = after_token(s, i1, tokens[1])->0;
    lemma_plain_token(s, i1, tokens[1]);
    let i3 = after_token(s, i2, tokens[2])->0;
    lemma_plain_token(s, i2, tokens[2]);
    let i4 = after_token(s, i3, tokens[3])->0;
    let i5 = after_token(s, i4, tokens[4])->0;
    lemma_plain_token(s, i4, tokens[4]);
    lemma_number_token(s, i3, first);
    let i6 = after_token(s, i5, tokens[5])->0;
    lemma_plain_token(s, i5, tokens[5]);
    let i7 = after_token(s, i6, tokens[6])->0;
    lemma_plain_token(s, i6, tokens[6]);
    let i8 = after_token(s, i7, tokens[7])->0;
    let i9 = after_token(s, i8, tokens[8])->0;
    lemma_plain_token(s, i8, tokens[8]);
    lemma_number_token(s, i7, second);
}

/// In what reads as an object of one number, the number is the first run
/// of digits.
proof fn lemma_one_number(s: Seq<char>, tokens: Seq<Seq<char>>, n: nat)
    requires
        tokens.len() == 5,
        reads(s, tokens),
        is_plain(tokens[0]),
        is_plain(tokens[1]),
        is_plain(tokens[2]),
        tokens[3] == decimal(n),
        is_plain(tokens[4]),
    ensures
        ({
            let d = digit_start(s, 0);
            let e = digits_end(s, d);
            &&& 0 <= d <= e <= s.len()
            &&& s.subrange(d, e) == decimal(n)
        }),
{
    reveal_with_fuel(reads_from, 6);
    let i1 = after_token(s, 0, tokens[0])->0;
    lemma_plain_token(s, 0, tokens[0]);
    let i2 = after_token(s, i1, tokens[1])->0;
    lemma_plain_token(s, i1, tokens[1]);
    let i3 = after_token(s, i2, tokens[2])->0;
    lemma_plain_token(s, i2, tokens[2]);
    let i4 = after_token(s, i3, tokens[3])->0;
    lemma_plain_token(s, i4, tokens[4]);
    lemma_number_token(s, i3, n);
}

/// No text is a record in both orders of its members.
proof fn lemma_one_order(s: Seq<char>, p: Progress, q: Progress)
    requires
        reads(s, progress_tokens(p)),
    ensures
        !reads(s, progress_tokens_swapped(q)),
{
    reveal_with_fuel(reads_from, 3);
    lemma_literals();
    // After the opening token comes the name of the first member, and
    // the two names differ in their second character.
    let start = space_end(s, after_token(s, 0, OPEN@)->0);
    assert(s.subrange(start, start + 10)[1] == 'p');
    if reads(s, progress_tokens_swapped(q)) {
        assert(s.subrange(start, start + 7)[1] == 't');
    }
}

/// Bytes carry one record at most.
pub proof fn lemma_carries_one(bytes: Seq<u8>, p: Progress, q: Progress)
    requires
        carries(bytes, p),
        carries(bytes, q),
    ensures
        p == q,
{
    let s = text_of(bytes);
    lemma_literals();
    lemma_decimal_value(p.progress as nat);
    lemma_decimal_value(p.total as nat);
    lemma_decimal_value(q.progress as nat);
    lemma_decimal_value(q.total as nat);
    if reads(s, progress_tokens(p)) {
        lemma_two_numbers(s, progress_tokens(p), p.progress as nat, p.total as nat);
        if reads(s, progress_tokens(q)) {
            lemma_two_numbers(s, progress_tokens(q), q.progress as nat, q.total as nat);
        } else {
            lemma_one_order(s, p, q);
        }
    } else {
        lemma_two_numbers(s, progress_tokens_swapped(p), p.total as nat, p.progress as nat);
        if reads(s, progress_tokens(q)) {
            lemma_one_order(s, q, p);
        } else {
            lemma_two_numbers(s, progress_tokens_swapped(q), q.total as nat, q.progress as nat);
        }
    }
}

/// Bytes hold the metadata of one size at most.
pub proof fn lemma_holds_one(bytes: Seq<u8>, n: u64, m: u64)
    requires
        holds(bytes, n),
        holds(bytes, m),
    ensures
        n == m,
{
    let s = text_of(bytes);
    lemma_literals();
    lemma_decimal_value(n as nat);
    lemma_decimal_value(m as nat);
    lemma_one_number(s, metadata_tokens(n), n as nat);
    lemma_one_number(s, metadata_tokens(m), m as nat);
}

/// Whether `token` can be written next to others and be found again:
/// whether it has a character, starts with no white space and is ASCII.
pub open spec fn is_token(token: Seq<char>) -> bool {
    token.len() > 0 && !is_space(token[0]) && is_ascii_text(token)
}

/// Tokens written one after the other read as those tokens, with or
/// without white space after them.
proof fn lemma_written_reads(before: Seq<char>, tokens: Seq<Seq<char>>, k: int, tail: Seq<char>)
    requires
        0 <= k <= tokens.len(),
        forall|j: int| k <= j < tokens.len() ==> is_token(#[trigger] tokens[j]),
        forall|i: int| 0 <= i < tail.len() ==> is_space(#[trigger] tail[i]),
    ensures
        reads_from(before + written_from(tokens, k) + tail, before.len() as int, tokens, k),
    decreases tokens.len() - k,
{
    let s = before + written_from(tokens, k) + tail;
    let at = before.len() as int;
    if k < tokens.len() {
        let token = tokens[k];
        assert(is_token(token));
        assert(s.subrange(at, at + token.len()) == token);
        lemma_token_at(s, at, token);
        lemma_written_reads(before + token, tokens, k + 1, tail);
        assert(s == before + token + written_from(tokens, k + 1) + tail);
    } else {
        assert forall|i: int| at <= i < s.len() implies is_space(#[trigger] s[i]) by {
            assert(s[i] == tail[i - at]);
        }
        lemma_space_to_end(s, at);
    }
}

/// Tokens of ASCII characters are written as ASCII text.
proof fn lemma_written_is_ascii(tokens: Seq<Seq<char>>, k: int)
    requires
        0 <= k <= tokens.len(),
        forall|j: int| k <= j < tokens.len() ==> is_token(#[trigger] tokens[j]),
    ensures
        is_ascii_text(written_from(tokens, k)),
    decreases tokens.len() - k,
{
    if k < tokens.len() {
        lemma_written_is_ascii(tokens, k + 1);
        assert(is_token(tokens[k]));
    }
}

proof fn lemma_progress_tokens(p: Progress)
    ensures
        forall|j: int| 0 <= j < 9 ==> is_token(#[trigger] progress_tokens(p)[j]),
{
    lemma_literals();
    lemma_decimal_is_ascii(p.progress as nat);
    lemma_decimal_is_ascii(p.total as nat);
    lemma_decimal_digits(p.progress as nat);
    lemma_decimal_digits(p.total as nat);
    assert(is_digit(decimal(p.progress as nat)[0]));
    assert(is_digit(decimal(p.total as nat)[0]));
}

proof fn lemma_metadata_tokens(n: u64)
    ensures
        forall|j: int| 0 <= j < 5 ==> is_token(#[trigger] metadata_tokens(n)[j]),
{
    lemma_literals();
    lemma_decimal_is_ascii(n as nat);
    lemma_decimal_digits(n as nat);
    assert(is_digit(decimal(n as nat)[0]));
}

proof fn lemma_progress_written(p: Progress, tail: Seq<char>)
    requires
        forall|i: int| 0 <= i < tail.len() ==> is_space(#[trigger] tail[i]),
    ensures
        reads(progress_json(p) + tail, progress_tokens(p)),
{
    lemma_progress_tokens(p);
    lemma_written_reads(Seq::empty(), progress_tokens(p), 0, tail);
    assert(Seq::<char>::empty() + progress_json(p) + tail == progress_json(p) + tail);
}

proof fn lemma_metadata_written(n: u64, tail: Seq<char>)
    requires
        forall|i: int| 0 <= i < tail.len() ==> is_space(#[trigger] tail[i]),
    ensures
        reads(metadata_json(n) + tail, metadata_tokens(n)),
{
    lemma_metadata_tokens(n);
    lemma_written_reads(Seq::empty(), metadata_tokens(n), 0, tail);
    assert(Seq::<char>::empty() + metadata_json(n) + tail == metadata_json(n) + tail);
}

proof fn lemma_progress_json_is_ascii(p: Progress)
    ensures
        is_ascii_text(progress_json(p)),
{
    lemma_progress_tokens(p);
    lemma_written_is_ascii(progress_tokens(p), 0);
}

proof fn lemma_metadata_json_is_ascii(n: u64)
    ensures
        is_ascii_text(metadata_json(n)),
{
    lemma_metadata_tokens(n);
    lemma_written_is_ascii(metadata_tokens(n), 0);
}

/// A record is read back from what was written for it, and from the
/// line that carries it.
pub proof fn lemma_progress_round_trip(p: Progress)
    ensures
        record_in(ascii(progress_json(p))) == Some(p),
        record_in(ascii(progress_json(p)).push(0x0a)) == Some(p),
{
    lemma_progress_json_is_ascii(p);
    lemma_text_of_ascii(progress_json(p));
    let written = ascii(progress_json(p));
    lemma_progress_written(p, Seq::empty());
    assert(progress_json(p) + Seq::<char>::empty() == progress_json(p));
    assert(carries(written, p));
    lemma_carries_one(written, p, choose|q: Progress| carries(written, q));
    let line = written.push(0x0a);
    lemma_progress_written(p, seq!['\n']);
    assert(text_of(line) == progress_json(p) + seq!['\n']);
    assert(carries(line, p));
    lemma_carries_one(line, p, choose|q: Progress| carries(line, q));
}

/// Metadata is read back from what was written for it.
pub proof fn lemma_metadata_round_trip(n: u64)
    ensures
        metadata_in(ascii(metadata_json(n))) == Some(n),
{
    lemma_metadata_json_is_ascii(n);
    lemma_text_of_ascii(metadata_json(n));
    let written = ascii(metadata_json(n));
    lemma_metadata_written(n, Seq::empty());
    assert(metadata_json(n) + Seq::<char>::empty() == metadata_json(n));
    assert(holds(written, n));
    lemma_holds_one(written, n, choose|m: u64| holds(written, m));
}

/// The characters of each of `tokens`.
pub open spec fn token_views(tokens: Seq<Vec<char>>) -> Seq<Seq<char>> {
    Seq::new(tokens.len(), |i: int| tokens[i]@)
}

/// The characters that stand for `bytes`.
fn text_from(bytes: &[u8]) -> (text: Vec<char>)
    ensures
        text@ == text_of(bytes@),
{
    let mut text: Vec<char> = Vec::new();
    let mut i: usize = 0;
    while i < bytes.len()
        invariant
            i <= bytes.len(),
            text@ == text_of(bytes@.take(i as int)),
        decreases bytes.len() - i,
    {
        text.push(bytes[i] as char);
        i += 1;
        assert(text@ =~= text_of(bytes@.take(i as int)));
    }
    assert(bytes@.take(bytes.len() as int) == bytes@);
    text
}

/// The bytes of the ASCII text `text`.
fn bytes_of(text: &Vec<char>) -> (bytes: Vec<u8>)
    requires
        is_ascii_text(text@),
    ensures
        bytes@ == ascii(text@),
{
    let mut bytes: Vec<u8> = Vec::new();
    let mut i: usize = 0;
    while i < text.len()
        invariant
            i <= text.len(),
            is_ascii_text(text@),
            bytes@ == ascii(text@.take(i as int)),
        decreases text.len() - i,
    {
        let c = text[i];
        assert('\0' <= text@[i as int] <= '\x7f');
        bytes.push(c as u8);
        i += 1;
        assert(bytes@ =~= ascii(text@.take(i as int)));
    }
    assert(text@.take(text.len() as int) == text@);
    bytes
}

fn is_space_exec(c: char) -> (space: bool)
    ensures
        space == is_space(c),
{
    c == ' ' || c == '\t' || c == '\n' || c == '\r'
}

/// Where the white space of `text` that starts at `from` ends.
fn skip_space(text: &Vec<char>, from: usize) -> (end: usize)
    requires
        from <= text.len(),
    ensures
        end == space_end(text@, from as int),
        from <= end <= text.len(),
{
    let mut end: usize = from;
    while end < text.len() && is_space_exec(text[end])
        invariant
            from <= end <= text.len(),
            space_end(text@, from as int) == space_end(text@, end as int),
        decreases text.len() - end,
    {
        end += 1;
    }
    end
}

/// Where the first digit of `text` at or after `from` stands.
fn find_digit(text: &Vec<char>, from: usize) -> (at: usize)
    requires
        from <= text.len(),
    ensures
        at == digit_start(text@, from as int),
        from <= at <= text.len(),
{
    let mut at: usize = from;
    while at < text.len() && !is_digit_exec(text[at])
        invariant
            from <= at <= text.len(),
            digit_start(text@, from as int) == digit_start(text@, at as int),
        decreases text.len() - at,
    {
        at += 1;
    }
    at
}

/// Where `token` ends when it comes next in `text` at `from`.
fn read_token(text: &Vec<char>, from: usize, token: &Vec<char>) -> (next: Option<usize>)
    requires
        from <= text.len(),
    ensures
        match next {
            Some(n) => after_token(text@, from as int, token@) == Some(n as int) && n <= text.len(),
            None => after_token(text@, from as int, token@) is None,
        },
{
    let start = skip_space(text, from);
    if token.len() > text.len() - start {
        return None;
    }
    let ghost found = text@.subrange(start as int, start + token.len());
    let mut i: usize = 0;
    while i < token.len()
        invariant
            i <= token.len(),
            start + token.len() <= text.len(),
            start == space_end(text@, from as int),
            found == text@.subrange(start as int, start + token.len()),
            forall|j: int| 0 <= j < i ==> found[j] == token@[j],
        decreases token.len() - i,
    {
        if text[start + i] != token[i] {
            assert(found[i as int] != token@[i as int]);
            return None;
        }
        i += 1;
    }
    assert(found =~= token@);
    Some(start + token.len())
}

/// Whether `text` is `tokens`, with white space before, between and
/// after them.
fn reads_tokens(text: &Vec<char>, tokens: &Vec<Vec<char>>) -> (read: bool)
    ensures
        read == reads(text@, token_views(tokens@)),
{
    let ghost all = token_views(tokens@);
    let mut at: usize = 0;
    let mut k: usize = 0;
    while k < tokens.len()
        invariant
            k <= tokens.len(),
            at <= text.len(),
            all == token_views(tokens@),
            reads(text@, all) == reads_from(text@, at as int, all, k as int),
        decreases tokens.len() - k,
    {
        match read_token(text, at, &tokens[k]) {
            Some(next) => {
                at = next;
            },
            None => {
                return false;
            },
        }
        k += 1;
    }
    skip_space(text, at) == text.len()
}

/// The tokens of the record `p`, the total first when `swapped`.
fn tokens_of_progress(p: Progress, swapped: bool) -> (tokens: Vec<Vec<char>>)
    ensures
        token_views(tokens@) == if swapped {
            progress_tokens_swapped(p)
        } else {
            progress_tokens(p)
        },
{
    let mut count: Vec<char> = Vec::new();
    push_decimal(&mut count, p.progress);
    let mut total: Vec<char> = Vec::new();
    push_decimal(&mut total, p.total);
    let mut tokens: Vec<Vec<char>> = Vec::new();
    tokens.push(chars_of(OPEN));
    if swapped {
        tokens.push(chars_of(TOTAL_KEY));
        tokens.push(chars_of(COLON));
        tokens.push(total);
        tokens.push(chars_of(COMMA));
        tokens.push(chars_of(PROGRESS_KEY));
        tokens.push(chars_of(COLON));
        tokens.push(count);
    } else {
        tokens.push(chars_of(PROGRESS_KEY));
        tokens.push(chars_of(COLON));
        tokens.push(count);
        tokens.push(chars_of(COMMA));
        tokens.push(chars_of(TOTAL_KEY));
        tokens.push(chars_of(COLON));
        tokens.push(total);
    }
    tokens.push(chars_of(CLOSE));
    assert(token_views(tokens@) =~= if swapped {
        progress_tokens_swapped(p)
    } else {
        progress_tokens(p)
    });
    tokens
}

/// The tokens of the metadata of a snapshot of `total_size` bytes.
fn tokens_of_metadata(total_size: u64) -> (tokens: Vec<Vec<char>>)
    ensures
        token_views(tokens@) == metadata_tokens(total_size),
{
    let mut size: Vec<char> = Vec::new();
    push_decimal(&mut size, total_size);
    let mut tokens: Vec<Vec<char>> = Vec::new();
    tokens.push(chars_of(OPEN));
    tokens.push(chars_of(TOTAL_SIZE_KEY));
    tokens.push(chars_of(COLON));
    tokens.push(size);
    tokens.push(chars_of(CLOSE));
    assert(token_views(tokens@) =~= metadata_tokens(total_size));
    tokens
}

/// The number that the run of digits at or after `from` spells, with
/// where the run ends; `None` for a number that does not fit.
fn next_number(text: &Vec<char>, from: usize) -> (found: (Option<u64>, usize))
    requires
        from <= text.len(),
    ensures
        ({
            let start = digit_start(text@, from as int);
            let end = digits_end(text@, start);
            &&& found.1 == end
            &&& from <= start <= end <= text.len()
            &&& match found.0 {
                Some(n) => n == decimal_value(text@.subrange(start, end)),
                None => decimal_value(text@.subrange(start, end)) > u64::MAX,
            }
        }),
{
    let start = find_digit(text, from);
    let end = scan_digits(text, start);
    (read_decimal(text, start, end), end)
}

/// The tokens one after the other, with nothing between them.
fn write_tokens(tokens: &Vec<Vec<char>>) -> (text: Vec<char>)
    ensures
        text@ == written_from(token_views(tokens@), 0),
{
    let ghost all = token_views(tokens@);
    let mut text: Vec<char> = Vec::new();
    let mut k: usize = 0;
    while k < tokens.len()
        invariant
            k <= tokens.len(),
            all == token_views(tokens@),
            text@ + written_from(all, k as int) == written_from(all, 0),
        decreases tokens.len() - k,
    {
        let ghost before = text@;
        let token = &tokens[k];
        let mut i: usize = 0;
        while i < token.len()
            invariant
                i <= token.len(),
                text@ == before + token@.take(i as int),
            decreases token.len() - i,
        {
            text.push(token[i]);
            i += 1;
        }
        proof {
            assert(token@.take(i as int) == token@);
            assert(all[k as int] == token@);
            assert(text@ + written_from(all, k + 1) == before + written_from(all, k as int));
        }
        k += 1;
    }
    assert(text@ + Seq::<char>::empty() == text@);
    text
}

/// The bytes of the progress record `p`.
pub fn encode_progress(p: Progress) -> (bytes: Vec<u8>)
    ensures
        bytes@ == ascii(progress_json(p)),
{
    let text = write_tokens(&tokens_of_progress(p, false));
    proof {
        lemma_progress_json_is_ascii(p);
    }
    bytes_of(&text)
}

/// The line that carries the progress record `p`: its bytes, and a line
/// feed.
pub fn encode_progress_line(p: Progress) -> (line: Vec<u8>)
    ensures
        line@ == ascii(progress_json(p)).push(0x0a),
{
    let mut line = encode_progress(p);
    line.push(0x0a);
    line
}

/// The progress record that `bytes` carry: the one whose tokens they
/// are, white space between the tokens set aside and the members in
/// either order; `None` when they carry no record.
pub fn decode_progress(bytes: &[u8]) -> (record: Option<Progress>)
    ensures
        record == record_in(bytes@),
        match record {
            Some(p) => carries(bytes@, p),
            None => forall|p: Progress| !carries(bytes@, p),
        },
{
    let text = text_from(bytes);
    let (first, end) = next_number(&text, 0);
    let (second, _) = next_number(&text, end);
    proof {
        lemma_literals();
        assert forall|q: Progress| carries(bytes@, q) implies (reads(text@, progress_tokens(q)) && first
            == Some(q.progress) && second == Some(q.total)) || (reads(text@, progress_tokens_swapped(q))
            && first == Some(q.total) && second == Some(q.progress)) by {
            lemma_decimal_value(q.progress as nat);
            lemma_decimal_value(q.total as nat);
            if reads(text@, progress_tokens(q)) {
                lemma_two_numbers(text@, progress_tokens(q), q.progress as nat, q.total as nat);
            } else {
                lemma_two_numbers(text@, progress_tokens_swapped(q), q.total as nat, q.progress as nat);
            }
        }
    }
    let found = match (first, second) {
        (Some(first), Some(second)) => {
            let p = Progress { progress: first, total: second };
            if reads_tokens(&text, &tokens_of_progress(p, false)) {
                Some(p)
            } else {
                let q = Progress { progress: second, total: first };
                if reads_tokens(&text, &tokens_of_progress(q, true)) {
                    Some(q)
                } else {
                    None
                }
            }
        },
        _ => None,
    };
    proof {
        if let Some(p) = found {
            lemma_carries_one(bytes@, p, choose|q: Progress| carries(bytes@, q));
        }
    }
    found
}

/// The bytes of the metadata of a snapshot of `total_size` bytes.
pub fn encode_metadata(total_size: u64) -> (bytes: Vec<u8>)
    ensures
        bytes@ == ascii(metadata_json(total_size)),
{
    let text = write_tokens(&tokens_of_metadata(total_size));
    proof {
        lemma_metadata_json_is_ascii(total_size);
    }
    bytes_of(&text)
}

/// The size that the metadata in `bytes` gives: the one whose tokens
/// they are, white space between the tokens set aside; `None` when they
/// are the metadata of no size.
pub fn decode_metadata(bytes: &[u8]) -> (total_size: Option<u64>)
    ensures
        total_size == metadata_in(bytes@),
        match total_size {
            Some(n) => holds(bytes@, n),
            None => forall|n: u64| !holds(bytes@, n),
        },
{
    let text = text_from(bytes);
    let (size, _) = next_number(&text, 0);
    proof {
        lemma_literals();
        assert forall|m: u64| holds(bytes@, m) implies size == Some(m) by {
            lemma_decimal_value(m as nat);
            lemma_one_number(text@, metadata_tokens(m), m as nat);
        }
    }
    let found = match size {
        Some(n) => if reads_tokens(&text, &tokens_of_metadata(n)) {
            Some(n)
        } else {
            None
        },
        None => None,
    };
    proof {
        if let Some(n) = found {
            lemma_holds_one(bytes@, n, choose|m: u64| holds(bytes@, m));
        }
    }
    found
}

} // verus!
