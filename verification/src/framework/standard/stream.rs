//! The cursor over a message's text that the parser moves along.
//!
//! The cursor is a [`uwl::Stream`]: a text and the number of its bytes that
//! lie behind. What a call on the stream does is not proved here but taken
//! from the stream's source. Each such call stands in a function of its own,
//! marked `external_body`, whose contract says what the call hands back and
//! where it leaves the stream. Everything else in this module is proved from
//! those contracts, among it that a stream which moves past a piece of its text
//! stands between two characters again.
//!
//! A stream slices its text at its offset, and panics where the offset is
//! beyond the text or inside a character. The calls that slice therefore ask
//! for a stream that is [`at_boundary`]. Nothing keeps a stream there: it moves
//! on by whatever number of bytes it is told. The parser's own steps,
//! [`advance`], [`skip_spaces`], [`peek_chars`] and [`peek_word`], take the
//! stream wherever it stands. To them a stream that stands beyond its text or
//! inside a character has nothing ahead.

use uwl::Stream;
use vstd::prelude::*;
use vstd::string::*;
use vstd::utf8::*;

verus! {

/// `uwl::Stream`, of which nothing is seen here but what the two names below
/// stand for.
#[verifier::external_type_specification]
#[verifier::external_body]
pub struct ExStream<'a>(Stream<'a>);

/// The bytes of the text that a stream was made from.
pub uninterp spec fn stream_source(stream: Stream<'_>) -> Seq<u8>;

/// The number of bytes of its source that a stream has behind it.
pub uninterp spec fn stream_offset(stream: Stream<'_>) -> usize;

/// Whether a character counts as whitespace to `char::is_whitespace`.
pub uninterp spec fn whitespace(c: char) -> bool;

/// Whether `at` is a place within the text `source`, at the beginning of a
/// character or at the end of the text.
pub open spec fn boundary(source: Seq<u8>, at: int) -> bool {
    &&& valid_utf8(source)
    &&& 0 <= at <= source.len()
    &&& is_char_boundary(source, at)
}

/// The text that `source` holds from `at` on. From a place beyond the text or
/// inside a character there is nothing to read.
pub open spec fn ahead(source: Seq<u8>, at: int) -> Seq<char> {
    if boundary(source, at) {
        decode_utf8(source.skip(at))
    } else {
        Seq::empty()
    }
}

/// The place that is `amount` bytes behind `at`, as far as an offset can count.
pub open spec fn moved(at: int, amount: int) -> int {
    if at + amount <= usize::MAX {
        at + amount
    } else {
        usize::MAX as int
    }
}

/// Whether the stream stands within its source, at the beginning of a
/// character or at the end of the text.
pub open spec fn at_boundary(stream: Stream<'_>) -> bool {
    boundary(stream_source(stream), stream_offset(stream) as int)
}

/// The text that the stream has ahead of it.
pub open spec fn rest(stream: Stream<'_>) -> Seq<char> {
    ahead(stream_source(stream), stream_offset(stream) as int)
}

/// The place behind the whitespace that stands at `at`.
pub open spec fn past_spaces(source: Seq<u8>, at: int) -> int {
    at + encode_utf8(
        ahead(source, at).take(run_length(ahead(source, at), spaces()) as int),
    ).len()
}

/// The ASCII digits.
pub open spec fn digits() -> Set<char> {
    Set::new(|c: char| '0' <= c <= '9')
}

/// The characters that count as whitespace.
pub open spec fn spaces() -> Set<char> {
    Set::new(|c: char| whitespace(c))
}

/// The characters that do not count as whitespace.
pub open spec fn visibles() -> Set<char> {
    Set::new(|c: char| !whitespace(c))
}

/// What is left of `text` once the whitespace it begins with is gone.
pub open spec fn after_spaces(text: Seq<char>) -> Seq<char> {
    text.skip(run_length(text, spaces()) as int)
}

/// The number of characters at the beginning of `text` that are all among
/// `wanted`.
pub open spec fn run_length(text: Seq<char>, wanted: Set<char>) -> nat
    decreases text.len(),
{
    if text.len() > 0 && wanted.contains(text[0]) {
        1 + run_length(text.skip(1), wanted)
    } else {
        0
    }
}

/// A run ends where the text ends or at the first character that is not wanted.
pub proof fn lemma_run_length_ends(text: Seq<char>, wanted: Set<char>)
    ensures
        run_length(text, wanted) <= text.len(),
        forall|i: int| 0 <= i < run_length(text, wanted) ==> wanted.contains(#[trigger] text[i]),
        run_length(text, wanted) < text.len() ==> !wanted.contains(
            text[run_length(text, wanted) as int],
        ),
    decreases text.len(),
{
    if text.len() > 0 && wanted.contains(text[0]) {
        let tail = text.skip(1);
        lemma_run_length_ends(tail, wanted);
        assert forall|i: int| 0 <= i < run_length(text, wanted) implies wanted.contains(
            #[trigger] text[i],
        ) by {
            if i > 0 {
                assert(text[i] == tail[i - 1]);
            }
        }
        if run_length(text, wanted) < text.len() {
            assert(text[run_length(text, wanted) as int] == tail[run_length(tail, wanted) as int]);
        }
    }
}

/// The place where a run ends tells its length.
pub proof fn lemma_run_length_is(text: Seq<char>, wanted: Set<char>, n: nat)
    requires
        n <= text.len(),
        forall|i: int| 0 <= i < n ==> wanted.contains(#[trigger] text[i]),
        n < text.len() ==> !wanted.contains(text[n as int]),
    ensures
        run_length(text, wanted) == n,
    decreases n,
{
    if n > 0 {
        let tail = text.skip(1);
        assert(wanted.contains(text[0]));
        assert forall|i: int| 0 <= i < n - 1 implies wanted.contains(#[trigger] tail[i]) by {
            assert(tail[i] == text[i + 1]);
        }
        lemma_run_length_is(tail, wanted, (n - 1) as nat);
    }
}

/// Whether a byte is an ASCII digit.
pub fn is_digit(byte: u8) -> (digit: bool)
    ensures
        digit == (0x30 <= byte <= 0x39),
{
    0x30 <= byte && byte <= 0x39
}

/// `char::is_whitespace`: whether `c` has the Unicode property White_Space.
/// Among the ASCII characters those are the blank and the five from the
/// horizontal tab to the carriage return.
#[verifier::external_body]
fn char_is_whitespace(c: char) -> (space: bool)
    ensures
        space == whitespace(c),
        c <= '\u{7f}' ==> space == (c == ' ' || '\t' <= c <= '\r'),
{
    c.is_whitespace()
}

/// Whether a character counts as whitespace.
pub fn is_space(c: char) -> (space: bool)
    ensures
        space == whitespace(c),
        c <= '\u{7f}' ==> space == (c == ' ' || '\t' <= c <= '\r'),
{
    char_is_whitespace(c)
}

/// `str`'s `==`: whether two texts are the same, character by character.
#[verifier::external_body]
pub(crate) fn same_text(a: &str, b: &str) -> (same: bool)
    ensures
        same == (a@ == b@),
{
    a == b
}

/// `uwl::Stream::new`: a stream made from `src`, with nothing of it behind.
#[verifier::external_body]
fn stream_new<'a>(src: &'a str) -> (stream: Stream<'a>)
    ensures
        stream_source(stream) == src.spec_bytes(),
        stream_offset(stream) == 0,
{
    Stream::new(src)
}

/// `uwl::Stream::source`: the text that the stream was made from.
#[verifier::external_body]
fn stream_text<'a>(stream: &Stream<'a>) -> (source: &'a str)
    ensures
        source.spec_bytes() == stream_source(*stream),
{
    stream.source()
}

/// `uwl::Stream::offset`: the number of bytes behind the stream.
#[verifier::external_body]
pub(crate) fn offset_of(stream: &Stream<'_>) -> (offset: usize)
    ensures
        offset == stream_offset(*stream),
{
    stream.offset()
}

/// `uwl::Stream::set`: puts the stream at `pos`, wherever that is.
#[verifier::external_body]
pub(crate) fn set_offset(stream: &mut Stream<'_>, pos: usize)
    ensures
        stream_source(*final(stream)) == stream_source(*old(stream)),
        stream_offset(*final(stream)) == pos,
{
    stream.set(pos)
}

/// `uwl::Stream::increment`: moves the stream on by `amount` bytes without
/// looking at them, by adding `amount` to the offset.
#[verifier::external_body]
pub(crate) fn increment(stream: &mut Stream<'_>, amount: usize)
    requires
        stream_offset(*old(stream)) + amount <= usize::MAX,
    ensures
        stream_source(*final(stream)) == stream_source(*old(stream)),
        stream_offset(*final(stream)) == stream_offset(*old(stream)) + amount,
{
    stream.increment(amount)
}

/// `uwl::Stream::eat`: if the text ahead begins with `m`, moves past it and
/// says so; else stays.
///
/// The stream takes as many characters of the text ahead as `m` has, compares
/// them with `m` and, if they are equal, moves on by their length in bytes.
#[verifier::external_body]
fn stream_eat(stream: &mut Stream<'_>, m: &str) -> (ate: bool)
    requires
        at_boundary(*old(stream)),
    ensures
        stream_source(*final(stream)) == stream_source(*old(stream)),
        ate == m@.is_prefix_of(rest(*old(stream))),
        ate ==> stream_offset(*final(stream)) == stream_offset(*old(stream))
            + m.spec_bytes().len(),
        !ate ==> stream_offset(*final(stream)) == stream_offset(*old(stream)),
{
    stream.eat(m)
}

/// `uwl::Stream::take_while` with [`is_digit`]: moves past the ASCII digits
/// that the text ahead begins with, by their length in bytes, and hands them
/// back.
///
/// The stream goes byte by byte. A byte that is an ASCII digit is a character
/// of its own in UTF-8, and no byte of a longer character is one, so the bytes
/// taken are the digits that lead the text.
#[verifier::external_body]
fn stream_take_digits<'a>(stream: &mut Stream<'a>) -> (taken: &'a str)
    requires
        at_boundary(*old(stream)),
    ensures
        stream_source(*final(stream)) == stream_source(*old(stream)),
        taken@ == rest(*old(stream)).take(run_length(rest(*old(stream)), digits()) as int),
        stream_offset(*final(stream)) == stream_offset(*old(stream)) + taken.spec_bytes().len(),
{
    stream.take_while(|byte| is_digit(byte))
}

/// `uwl::Stream::take_while_char` with [`is_space`]: moves past the whitespace
/// that the text ahead begins with, by its length in bytes, and hands it back.
#[verifier::external_body]
fn stream_take_spaces<'a>(stream: &mut Stream<'a>) -> (taken: &'a str)
    requires
        at_boundary(*old(stream)),
    ensures
        stream_source(*final(stream)) == stream_source(*old(stream)),
        taken@ == rest(*old(stream)).take(run_length(rest(*old(stream)), spaces()) as int),
        stream_offset(*final(stream)) == stream_offset(*old(stream)) + taken.spec_bytes().len(),
{
    stream.take_while_char(|c| is_space(c))
}

/// `uwl::Stream::peek_for_char`: the first `amount` characters of the text
/// ahead, or all of it where it has fewer. The stream stays.
#[verifier::external_body]
fn stream_peek_for_char<'a>(stream: &Stream<'a>, amount: usize) -> (peeked: &'a str)
    requires
        at_boundary(*stream),
    ensures
        amount <= rest(*stream).len() ==> peeked@ == rest(*stream).take(amount as int),
        amount > rest(*stream).len() ==> peeked@ == rest(*stream),
{
    stream.peek_for_char(amount)
}

/// `uwl::Stream::peek_until_char` with [`is_space`]: the text ahead up to its
/// first whitespace, or all of it where it has none. The stream stays.
#[verifier::external_body]
fn stream_peek_word<'a>(stream: &Stream<'a>) -> (peeked: &'a str)
    requires
        at_boundary(*stream),
    ensures
        peeked@ == rest(*stream).take(run_length(rest(*stream), visibles()) as int),
{
    stream.peek_until_char(|c| is_space(c))
}

/// A stream at the beginning of `text`.
pub fn stream_over<'a>(text: &'a str) -> (stream: Stream<'a>)
    ensures
        stream_source(stream) == text.spec_bytes(),
        stream_offset(stream) == 0,
        at_boundary(stream),
        rest(stream) == text@,
{
    broadcast use {encode_utf8_valid_utf8, encode_utf8_decode_utf8};

    let stream = stream_new(text);
    assert(stream_source(stream).skip(0) =~= stream_source(stream));
    stream
}

/// Whether the stream stands within its source and between two characters.
pub fn stands_at_boundary(stream: &Stream<'_>) -> (standing: bool)
    ensures
        standing == at_boundary(*stream),
{
    broadcast use encode_utf8_valid_utf8;

    let source = stream_text(stream);
    let offset = offset_of(stream);
    source.is_char_boundary(offset)
}

/// Moves the stream on by `amount` bytes without looking at them, wherever
/// that leads. An offset that cannot count so far stops at the highest it can
/// hold.
pub(crate) fn advance(stream: &mut Stream<'_>, amount: usize)
    ensures
        stream_source(*final(stream)) == stream_source(*old(stream)),
        stream_offset(*final(stream)) == moved(
            stream_offset(*old(stream)) as int,
            amount as int,
        ),
        stream_source(*old(stream)).len() <= usize::MAX,
{
    let _len = stream_text(stream).as_bytes().len();
    let offset = offset_of(stream);
    if amount <= usize::MAX - offset {
        increment(stream, amount);
    } else {
        set_offset(stream, usize::MAX);
    }
}

/// The first `amount` characters of the text ahead, or all of it where it has
/// fewer. The stream stays.
pub(crate) fn peek_chars<'a>(stream: &Stream<'a>, amount: usize) -> (peeked: &'a str)
    ensures
        amount <= rest(*stream).len() ==> peeked@ == rest(*stream).take(amount as int),
        amount > rest(*stream).len() ==> peeked@ == rest(*stream),
{
    if stands_at_boundary(stream) {
        stream_peek_for_char(stream, amount)
    } else {
        proof {
            reveal_strlit("");
        }
        ""
    }
}

/// The text ahead up to its first whitespace, or all of it where it has none.
/// The stream stays.
pub(crate) fn peek_word<'a>(stream: &Stream<'a>) -> (peeked: &'a str)
    ensures
        peeked@ == rest(*stream).take(run_length(rest(*stream), visibles()) as int),
{
    if stands_at_boundary(stream) {
        stream_peek_word(stream)
    } else {
        proof {
            reveal_strlit("");
        }
        ""
    }
}

/// If the text ahead begins with `m`, moves past it and says so; else stays.
pub(crate) fn eat(stream: &mut Stream<'_>, m: &str) -> (ate: bool)
    requires
        at_boundary(*old(stream)),
    ensures
        stream_source(*final(stream)) == stream_source(*old(stream)),
        ate == m@.is_prefix_of(rest(*old(stream))),
        ate ==> stream_offset(*final(stream)) == stream_offset(*old(stream))
            + m.spec_bytes().len(),
        ate ==> rest(*final(stream)) == rest(*old(stream)).skip(m@.len() as int),
        !ate ==> stream_offset(*final(stream)) == stream_offset(*old(stream)),
        at_boundary(*final(stream)),
{
    let ate = stream_eat(stream, m);
    proof {
        if ate {
            lemma_moved_past(*old(stream), *stream, m@);
        }
    }
    ate
}

/// Moves past the ASCII digits that the text ahead begins with and hands them
/// back.
pub(crate) fn take_digits<'a>(stream: &mut Stream<'a>) -> (taken: &'a str)
    requires
        at_boundary(*old(stream)),
    ensures
        stream_source(*final(stream)) == stream_source(*old(stream)),
        taken@ == rest(*old(stream)).take(run_length(rest(*old(stream)), digits()) as int),
        stream_offset(*final(stream)) == stream_offset(*old(stream)) + taken@.len(),
        rest(*final(stream)) == rest(*old(stream)).skip(taken@.len() as int),
        at_boundary(*final(stream)),
{
    let taken = stream_take_digits(stream);
    proof {
        let text = rest(*old(stream));
        lemma_run_length_ends(text, digits());
        lemma_moved_past(*old(stream), *stream, taken@);
        assert(is_ascii_chars(taken@));
        is_ascii_chars_encode_utf8(taken@);
    }
    taken
}

/// Moves past the whitespace that the text ahead begins with.
pub(crate) fn skip_spaces(stream: &mut Stream<'_>)
    ensures
        stream_source(*final(stream)) == stream_source(*old(stream)),
        rest(*final(stream)) == after_spaces(rest(*old(stream))),
        stream_offset(*final(stream)) == past_spaces(
            stream_source(*old(stream)),
            stream_offset(*old(stream)) as int,
        ),
        at_boundary(*old(stream)) ==> at_boundary(*final(stream)),
{
    if stands_at_boundary(stream) {
        let taken = stream_take_spaces(stream);
        proof {
            lemma_run_length_ends(rest(*old(stream)), spaces());
            lemma_moved_past(*old(stream), *stream, taken@);
        }
    }
}

/// The encoding of two texts in a row is the encoding of the first followed by
/// that of the second, and the place where they meet is between two characters.
proof fn lemma_encode_concat(a: Seq<char>, b: Seq<char>)
    ensures
        encode_utf8(a + b) == encode_utf8(a) + encode_utf8(b),
        is_char_boundary(encode_utf8(a + b), encode_utf8(a).len() as int),
    decreases a.len(),
{
    broadcast use encode_utf8_valid_utf8;

    if a.len() == 0 {
        assert(a + b =~= b);
        assert(encode_utf8(a) + encode_utf8(b) =~= encode_utf8(b));
    } else {
        let whole = a + b;
        lemma_encode_concat(a.drop_first(), b);
        assert(whole.drop_first() =~= a.drop_first() + b);
        assert(whole[0] == a[0]);
        let head = encode_scalar(a[0] as u32);
        assert(encode_utf8(whole) =~= head + encode_utf8(a.drop_first()) + encode_utf8(b));
        assert(encode_utf8(whole) =~= encode_utf8(a) + encode_utf8(b));
        encode_utf8_first_scalar(whole);
        assert(pop_first_scalar(encode_utf8(whole)) =~= encode_utf8(whole.drop_first()));
        assert(encode_utf8(a).len() == head.len() + encode_utf8(a.drop_first()).len());
    }
}

/// A place between two characters of what follows such a place is itself
/// between two characters of the whole.
proof fn lemma_boundary_shift(bytes: Seq<u8>, from: int, by: int)
    requires
        valid_utf8(bytes),
        0 <= from <= bytes.len(),
        is_char_boundary(bytes, from),
        0 <= by <= bytes.len() - from,
        is_char_boundary(bytes.skip(from), by),
    ensures
        is_char_boundary(bytes, from + by),
{
    let tail = bytes.skip(from);
    assert(tail =~= bytes.subrange(from, bytes.len() as int));
    valid_utf8_split(bytes, from);
    if from + by == bytes.len() {
        is_char_boundary_start_end_of_seq(bytes);
    } else if by > 0 {
        is_char_boundary_iff_not_is_continuation_byte(tail, by);
        is_char_boundary_iff_not_is_continuation_byte(bytes, from + by);
        assert(tail[by] == bytes[from + by]);
    }
}

/// A stream that has advanced by the length in bytes of something that the
/// text ahead began with stands between two characters again and has the
/// remainder of the text ahead.
pub proof fn lemma_advanced_past(before: Stream<'_>, after: Stream<'_>, taken: Seq<char>)
    requires
        at_boundary(before),
        stream_source(after) == stream_source(before),
        stream_source(before).len() <= usize::MAX,
        taken.is_prefix_of(rest(before)),
        stream_offset(after) == moved(
            stream_offset(before) as int,
            encode_utf8(taken).len() as int,
        ),
    ensures
        at_boundary(after),
        rest(after) == rest(before).skip(taken.len() as int),
{
    broadcast use encode_utf8_valid_utf8;

    let source = stream_source(before);
    let from = stream_offset(before) as int;
    let ahead = source.skip(from);
    assert(ahead =~= source.subrange(from, source.len() as int));
    valid_utf8_split(source, from);
    let text = rest(before);
    let remainder = text.skip(taken.len() as int);
    assert(text =~= taken + remainder);
    decode_utf8_encode_utf8(ahead);
    lemma_encode_concat(taken, remainder);
    assert(ahead.len() == encode_utf8(taken).len() + encode_utf8(remainder).len());
    lemma_moved_past(before, after, taken);
}

/// A stream that has moved past the beginning of the text ahead, by as many
/// bytes as that beginning takes, stands between two characters again and has
/// the remainder of the text ahead.
proof fn lemma_moved_past(before: Stream<'_>, after: Stream<'_>, taken: Seq<char>)
    requires
        at_boundary(before),
        stream_source(after) == stream_source(before),
        taken.is_prefix_of(rest(before)),
        stream_offset(after) == stream_offset(before) + encode_utf8(taken).len(),
    ensures
        at_boundary(after),
        rest(after) == rest(before).skip(taken.len() as int),
{
    broadcast use encode_utf8_valid_utf8;

    let source = stream_source(before);
    let from = stream_offset(before) as int;
    let ahead = source.skip(from);
    assert(ahead =~= source.subrange(from, source.len() as int));
    valid_utf8_split(source, from);
    let text = rest(before);
    let remainder = text.skip(taken.len() as int);
    assert(text =~= taken + remainder);
    decode_utf8_encode_utf8(ahead);
    lemma_encode_concat(taken, remainder);
    let by = encode_utf8(taken).len() as int;
    assert(ahead.len() == by + encode_utf8(remainder).len());
    lemma_boundary_shift(source, from, by);
    assert(source.skip(from + by) =~= encode_utf8(remainder)) by {
        assert(source.skip(from + by) =~= ahead.skip(by));
        assert(ahead.skip(by) =~= encode_utf8(remainder));
    }
    encode_utf8_decode_utf8(remainder);
}

} // verus!
