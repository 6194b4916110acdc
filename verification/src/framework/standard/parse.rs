//! Finding the prefix and the command in a message.
//!
//! The parser looks at the text ahead of a stream and moves the stream past
//! what it has found. Where the configuration asks to disregard case, a name is
//! found in its lowercase form, and the stream moves on by the length of that
//! form in bytes. That may be another length than that of the text the name was
//! found in, so the stream may come to stand inside a character or beyond its
//! text. The parser goes on from there as it does from the end of the text:
//! with nothing ahead. The contracts give the place of the stream exactly, and
//! say when it is sure to stand between two characters.

pub mod discrepancy;
pub mod map;

use std::borrow::Cow;
use uwl::Stream;
use vstd::prelude::*;
use vstd::string::*;
use vstd::utf8::*;

use crate::client::Context;
use crate::framework::standard::configuration::Configuration;
use crate::framework::standard::parse::discrepancy::{check_discrepancy, discrepancy};
use crate::framework::standard::parse::map::{
    lemma_position_of_holds,
    position_of,
    CommandMap,
    GroupMap,
    Lookup,
    ParseMap,
};
use crate::framework::standard::stream::{
    advance,
    ahead,
    at_boundary,
    digits,
    eat,
    lemma_advanced_past,
    lemma_run_length_ends,
    lemma_run_length_is,
    moved,
    offset_of,
    past_spaces,
    peek_chars,
    rest,
    run_length,
    same_text,
    set_offset,
    skip_spaces,
    stands_at_boundary,
    stream_offset,
    stream_source,
    take_digits,
};
use crate::framework::standard::stream::{peek_word, visibles};
use crate::framework::standard::structures::{Command, CommandGroup, CommonOptions, DispatchError};
use crate::model::channel::Message;

verus! {

/// The lowercase form that `str::to_lowercase` gives a text.
pub uninterp spec fn lowercase_of(text: Seq<char>) -> Seq<char>;

/// `str::to_lowercase`: the lowercase equivalent of `s`, as a new string. It
/// depends on the characters of `s` alone.
#[verifier::external_body]
fn str_to_lowercase(s: &str) -> (lowered: String)
    ensures
        lowered@ == lowercase_of(s@),
{
    s.to_lowercase()
}

/// The form in which a text is compared: in lowercase where the configuration
/// asks to disregard case, else as it stands.
pub open spec fn folded(config: Configuration, text: Seq<char>) -> Seq<char> {
    if config.case_insensitive {
        lowercase_of(text)
    } else {
        text
    }
}

/// Brings `s` into the form in which it is compared. The text is copied only
/// where it has to change.
pub fn to_lowercase<'a>(config: &Configuration, s: &'a str) -> (lowered: Cow<'a, str>)
    ensures
        lowered@ == folded(*config, s@),
        config.case_insensitive <==> lowered is Owned,
{
    if config.case_insensitive {
        Cow::Owned(str_to_lowercase(s))
    } else {
        Cow::Borrowed(s)
    }
}

/// The text of a mention of the user `id`: `<@id>`, or `<@!id>` where it names
/// the user by nickname.
pub open spec fn mention_of(id: Seq<char>, nickname: bool) -> Seq<char> {
    if nickname {
        seq!['<', '@', '!'] + id + seq!['>']
    } else {
        seq!['<', '@'] + id + seq!['>']
    }
}

/// Whether `text` is made of ASCII digits only.
pub open spec fn all_digits(text: Seq<char>) -> bool {
    forall|i: int| 0 <= i < text.len() ==> digits().contains(#[trigger] text[i])
}

/// The number of characters that a mention of the user `id` takes at the
/// beginning of `text`, if `text` begins with one.
pub open spec fn mention_len(text: Seq<char>, id: Seq<char>) -> Option<nat> {
    if !all_digits(id) {
        None
    } else if mention_of(id, false).is_prefix_of(text) {
        Some(id.len() + 3)
    } else if mention_of(id, true).is_prefix_of(text) {
        Some(id.len() + 4)
    } else {
        None
    }
}

/// Parse a mention in the message that is of either the direct (`<@id>`) or
/// nickname (`<@!id>`) syntax, and compare the encoded `id` with the id from
/// [`Configuration::on_mention`] for a match. Returns `Some(<id>)` on success,
/// [`None`] otherwise.
///
/// On success the stream has moved past the mention. Otherwise it stands where
/// it stood.
pub fn mention<'a>(stream: &mut Stream<'a>, config: &Configuration) -> (found: Option<&'a str>)
    ensures
        stream_source(*final(stream)) == stream_source(*old(stream)),
        at_boundary(*old(stream)) ==> at_boundary(*final(stream)),
        found is Some ==> at_boundary(*final(stream)),
        match found {
            Some(id) => {
                &&& config.on_mention matches Some(wanted)
                &&& id@ == wanted@
                &&& mention_len(rest(*old(stream)), wanted@) matches Some(n)
                &&& stream_offset(*final(stream)) == stream_offset(*old(stream)) + n
                &&& rest(*final(stream)) == rest(*old(stream)).skip(n as int)
            },
            None => {
                &&& stream_offset(*final(stream)) == stream_offset(*old(stream))
                &&& config.on_mention matches Some(wanted) ==> mention_len(
                    rest(*old(stream)),
                    wanted@,
                ) is None
            },
        },
{
    let on_mention = match &config.on_mention {
        Some(on_mention) => on_mention.as_str(),
        None => {
            return None;
        },
    };
    let ghost text = rest(*stream);
    let ghost wanted = on_mention@;
    if !stands_at_boundary(stream) {
        assert(mention_of(wanted, false).len() > 0 && mention_of(wanted, true).len() > 0);
        return None;
    }
    proof {
        reveal_strlit("<@");
        reveal_strlit("!");
        reveal_strlit(">");
        is_ascii_chars_encode_utf8("<@"@);
        is_ascii_chars_encode_utf8("!"@);
        is_ascii_chars_encode_utf8(">"@);
    }

    let start = offset_of(stream);

    if !eat(stream, "<@") {
        proof {
            if all_digits(wanted) {
                assert(!mention_of(wanted, false).is_prefix_of(text)) by {
                    if mention_of(wanted, false).is_prefix_of(text) {
                        assert(text[0] == mention_of(wanted, false)[0]);
                        assert(text[1] == mention_of(wanted, false)[1]);
                        assert("<@"@ =~= text.subrange(0, 2));
                    }
                }
                assert(!mention_of(wanted, true).is_prefix_of(text)) by {
                    if mention_of(wanted, true).is_prefix_of(text) {
                        assert(text[0] == mention_of(wanted, true)[0]);
                        assert(text[1] == mention_of(wanted, true)[1]);
                        assert("<@"@ =~= text.subrange(0, 2));
                    }
                }
            }
        }
        return None;
    }
    let ghost opened = rest(*stream);

    // Optional.
    let nickname = eat(stream, "!");
    let ghost named = rest(*stream);

    let id = take_digits(stream);
    let ghost after_id = rest(*stream);
    proof {
        lemma_run_length_ends(named, digits());
    }

    let closed = eat(stream, ">");
    let matching = closed && same_text(id, on_mention);

    proof {
        let lead: int = if nickname {
            3
        } else {
            2
        };
        let id_len = id@.len() as int;
        let wanted_len = wanted.len() as int;
        assert(opened == text.skip(2));
        assert(named == text.skip(lead));
        assert(text.len() >= lead);
        assert(text[0] == '<' && text[1] == '@') by {
            assert("<@"@ =~= text.subrange(0, 2));
            assert(text.subrange(0, 2)[0] == text[0]);
            assert(text.subrange(0, 2)[1] == text[1]);
        }
        if nickname {
            assert(text[2] == '!') by {
                assert("!"@ =~= opened.subrange(0, 1));
                assert(opened.subrange(0, 1)[0] == opened[0]);
            }
        } else {
            assert(text.len() > 2 ==> text[2] != '!') by {
                if text.len() > 2 && text[2] == '!' {
                    assert("!"@ =~= opened.subrange(0, 1));
                }
            }
        }
        assert forall|i: int| 0 <= i < id@.len() implies id@[i] == text[lead + i] by {
            assert(id@[i] == named[i]);
        }
        if matching {
            assert(id@ == wanted);
            assert(after_id == named.skip(id@.len() as int));
            assert(after_id[0] == '>') by {
                assert(">"@ =~= after_id.subrange(0, 1));
                assert(after_id.subrange(0, 1)[0] == after_id[0]);
            }
            assert(text[lead + id_len] == '>');
            assert(all_digits(wanted));
            assert(mention_of(wanted, nickname) =~= text.subrange(
                0,
                mention_of(wanted, nickname).len() as int,
            ));
            if nickname {
                assert(!mention_of(wanted, false).is_prefix_of(text)) by {
                    if mention_of(wanted, false).is_prefix_of(text) {
                        assert(mention_of(wanted, false)[2] == text[2]);
                    }
                }
            }
            assert(rest(*stream) == text.skip(lead + id_len + 1));
        } else if all_digits(wanted) {
            assert(!mention_of(wanted, !nickname).is_prefix_of(text)) by {
                if mention_of(wanted, !nickname).is_prefix_of(text) {
                    assert(mention_of(wanted, !nickname)[2] == text[2]);
                }
            }
            assert(!mention_of(wanted, nickname).is_prefix_of(text)) by {
                let whole = mention_of(wanted, nickname);
                if whole.is_prefix_of(text) {
                    assert forall|i: int| 0 <= i < wanted.len() implies digits().contains(
                        #[trigger] named[i],
                    ) by {
                        assert(named[i] == text[lead + i]);
                        assert(whole[lead + i] == wanted[i]);
                        assert(whole[lead + i] == text[lead + i]);
                    }
                    assert(named[wanted_len] == '>') by {
                        assert(whole[lead + wanted_len] == '>');
                        assert(whole[lead + wanted_len] == text[lead + wanted_len]);
                    }
                    lemma_run_length_is(named, digits(), wanted.len());
                    assert(id@ =~= wanted) by {
                        assert forall|i: int| 0 <= i < wanted.len() implies id@[i] == wanted[i] by {
                            assert(whole[lead + i] == wanted[i]);
                            assert(whole[lead + i] == text[lead + i]);
                        }
                    }
                    assert(after_id == named.skip(wanted.len() as int));
                    assert(">"@ =~= after_id.subrange(0, 1));
                }
            }
        }
    }

    if matching {
        Some(id)
    } else {
        // Backtrack to where we were.
        set_offset(stream, start);
        None
    }
}

/// The text that a copy-on-write text holds.
fn text_of<'b>(text: &'b Cow<'_, str>) -> (held: &'b str)
    ensures
        held@ == text@,
{
    match text {
        Cow::Borrowed(borrowed) => borrowed,
        Cow::Owned(owned) => owned.as_str(),
    }
}

/// The first `amount` characters of `text`, or all of it where it has fewer.
pub open spec fn peek(text: Seq<char>, amount: nat) -> Seq<char> {
    if amount <= text.len() {
        text.take(amount as int)
    } else {
        text
    }
}

/// Whether `text` begins with `prefix`: as many characters of `text` as
/// `prefix` has are, in the form in which texts are compared, `prefix`.
pub open spec fn leads_with(config: Configuration, text: Seq<char>, prefix: Seq<char>) -> bool {
    folded(config, peek(text, prefix.len())) == prefix
}

/// The first of `candidates` that `text` begins with.
pub open spec fn first_leading(
    config: Configuration,
    text: Seq<char>,
    candidates: Seq<Seq<char>>,
) -> Option<Seq<char>>
    decreases candidates.len(),
{
    if candidates.len() == 0 {
        None
    } else {
        match first_leading(config, text, candidates.drop_last()) {
            Some(prefix) => Some(prefix),
            None => if leads_with(config, text, candidates.last()) {
                Some(candidates.last())
            } else {
                None
            },
        }
    }
}

/// The prefixes that a message is held against, in the order in which they are
/// tried: those made for the message, in the form in which texts are compared,
/// then those of the configuration as they stand.
pub open spec fn prefix_candidates(config: Configuration, dynamic: Seq<String>) -> Seq<Seq<char>> {
    Seq::new(dynamic.len(), |i: int| folded(config, dynamic[i]@)) + Seq::new(
        config.prefixes@.len(),
        |i: int| config.prefixes@[i]@,
    )
}

/// Holds the text ahead against one prefix and hands back what matched, in the
/// form in which it was compared.
pub fn try_match<'a>(stream: &Stream<'a>, config: &Configuration, prefix: &str) -> (matched:
    Option<Cow<'a, str>>)
    ensures
        matched is Some == leads_with(*config, rest(*stream), prefix@),
        matched matches Some(found) ==> found@ == prefix@,
{
    let peeked = peek_chars(stream, prefix.unicode_len());
    let peeked = to_lowercase(config, peeked);
    if same_text(prefix, text_of(&peeked)) {
        Some(peeked)
    } else {
        None
    }
}

/// Finds the first prefix that the text ahead begins with. The stream stays.
///
/// `dynamic` holds the prefixes that were made for this message.
pub fn find_prefix<'a>(
    config: &Configuration,
    stream: &Stream<'a>,
    dynamic: &Vec<String>,
) -> (found: Option<Cow<'a, str>>)
    ensures
        match found {
            Some(prefix) => first_leading(
                *config,
                rest(*stream),
                prefix_candidates(*config, dynamic@),
            ) == Some(prefix@),
            None => first_leading(*config, rest(*stream), prefix_candidates(*config, dynamic@))
                is None,
        },
{
    let ghost candidates = prefix_candidates(*config, dynamic@);
    let ghost text = rest(*stream);
    let mut i: usize = 0;
    while i < dynamic.len()
        invariant
            0 <= i <= dynamic.len(),
            text == rest(*stream),
            candidates == prefix_candidates(*config, dynamic@),
            first_leading(*config, text, candidates.take(i as int)) is None,
        decreases dynamic.len() - i,
    {
        proof {
            assert(candidates.take(i + 1).drop_last() =~= candidates.take(i as int));
            assert(candidates.take(i + 1).last() == folded(*config, dynamic@[i as int]@));
        }
        let prefix = to_lowercase(config, dynamic[i].as_str());
        if let Some(matched) = try_match(stream, config, text_of(&prefix)) {
            proof {
                lemma_first_leading_stays(*config, text, candidates, i + 1);
            }
            return Some(matched);
        }
        i = i + 1;
    }
    let mut j: usize = 0;
    while j < config.prefixes.len()
        invariant
            0 <= j <= config.prefixes.len(),
            text == rest(*stream),
            candidates == prefix_candidates(*config, dynamic@),
            first_leading(*config, text, candidates.take(dynamic.len() + j)) is None,
        decreases config.prefixes.len() - j,
    {
        proof {
            let upto = dynamic.len() + j;
            assert(candidates.take(upto + 1).drop_last() =~= candidates.take(upto));
            assert(candidates.take(upto + 1).last() == config.prefixes@[j as int]@);
        }
        if let Some(matched) = try_match(stream, config, config.prefixes[j].as_str()) {
            proof {
                lemma_first_leading_stays(*config, text, candidates, dynamic.len() + j + 1);
            }
            return Some(matched);
        }
        j = j + 1;
    }
    proof {
        assert(candidates.take(dynamic.len() + j) =~= candidates);
    }
    None
}

/// A prefix that is the first to match among the candidates up to some place
/// is the first to match among all of them.
proof fn lemma_first_leading_stays(
    config: Configuration,
    text: Seq<char>,
    candidates: Seq<Seq<char>>,
    upto: int,
)
    requires
        0 <= upto <= candidates.len(),
        first_leading(config, text, candidates.take(upto)) is Some,
    ensures
        first_leading(config, text, candidates) == first_leading(
            config,
            text,
            candidates.take(upto),
        ),
    decreases candidates.len() - upto,
{
    if upto < candidates.len() {
        assert(candidates.take(upto + 1).drop_last() =~= candidates.take(upto));
        lemma_first_leading_stays(config, text, candidates, upto + 1);
    } else {
        assert(candidates.take(upto) =~= candidates);
    }
}

/// The prefix that is found is one that the text begins with.
proof fn lemma_first_leading_leads(
    config: Configuration,
    text: Seq<char>,
    candidates: Seq<Seq<char>>,
)
    ensures
        first_leading(config, text, candidates) matches Some(prefix) ==> leads_with(
            config,
            text,
            prefix,
        ),
    decreases candidates.len(),
{
    if candidates.len() > 0 {
        lemma_first_leading_leads(config, text, candidates.drop_last());
    }
}

/// What [`prefix`] finds in the text that `source` holds from `at` on, and
/// where it leaves the stream.
///
/// A mention of the user that the configuration names goes before every other
/// prefix, and the whitespace behind it is passed. Else the first prefix that
/// the text begins with is found, and the stream moves on by the length in
/// bytes of that prefix in the form in which it was compared, wherever that
/// leads. Then, prefix or none, whitespace is passed if the configuration says
/// so.
pub open spec fn prefix_at(
    source: Seq<u8>,
    at: int,
    config: Configuration,
    dynamic: Seq<String>,
) -> (Option<Seq<char>>, int) {
    let text = ahead(source, at);
    if config.on_mention is Some && mention_len(text, config.on_mention->0@) is Some {
        (
            Some(config.on_mention->0@),
            past_spaces(source, at + mention_len(text, config.on_mention->0@)->0),
        )
    } else {
        match first_leading(config, text, prefix_candidates(config, dynamic)) {
            Some(prefix) => {
                let to = moved(at, encode_utf8(prefix).len() as int);
                if config.with_whitespace.prefixes {
                    (Some(prefix), past_spaces(source, to))
                } else {
                    (Some(prefix), to)
                }
            },
            None => if config.with_whitespace.prefixes {
                (None, past_spaces(source, at))
            } else {
                (None, at)
            },
        }
    }
}

/// Parse a prefix in the message.
///
/// The "prefix" may be one of the following:
/// - A mention (`<@id>`/`<@!id>`)
/// - A dynamically constructed prefix, one of `dynamic`
/// - A static prefix, one of [`Configuration::prefixes`]
/// - Nothing
///
/// In all cases, whitespace after the prefix is cleared.
///
/// A stream that stood between two characters does so again, unless case is
/// disregarded: a prefix in lowercase may take another number of bytes than
/// the text that it was found in.
pub fn prefix<'a>(stream: &mut Stream<'a>, config: &Configuration, dynamic: &Vec<String>) -> (found:
    Option<Cow<'a, str>>)
    ensures
        stream_source(*final(stream)) == stream_source(*old(stream)),
        at_boundary(*old(stream)) && (found is None || !config.case_insensitive) ==> at_boundary(
            *final(stream),
        ),
        (
            match found {
                Some(prefix) => Some(prefix@),
                None => None,
            },
            stream_offset(*final(stream)) as int,
        ) == prefix_at(
            stream_source(*old(stream)),
            stream_offset(*old(stream)) as int,
            *config,
            dynamic@,
        ),
{
    if let Some(id) = mention(stream, config) {
        skip_spaces(stream);
        return Some(Cow::Borrowed(id));
    }
    let prefix = find_prefix(config, stream, dynamic);

    if let Some(prefix) = &prefix {
        advance(stream, text_of(prefix).as_bytes().len());
        proof {
            if at_boundary(*old(stream)) && !config.case_insensitive {
                lemma_first_leading_leads(
                    *config,
                    rest(*old(stream)),
                    prefix_candidates(*config, dynamic@),
                );
                lemma_advanced_past(*old(stream), *stream, prefix@);
            }
        }
    }
    if config.with_whitespace.prefixes {
        skip_spaces(stream);
    }
    prefix
}

/// What the parser found in place of a command.
#[derive(Debug)]
pub enum ParseError {
    /// No command was recognised. Holds the name that was tried, where one was
    /// tried at all.
    UnrecognisedCommand(Option<String>),
    /// The command was recognised, but is not to be run.
    Dispatch { error: DispatchError, command_name: String },
}

/// Whether a parse ended without recognising any command.
pub fn is_unrecognised<T>(res: &Result<T, ParseError>) -> (unrecognised: bool)
    ensures
        unrecognised == (res matches Err(ParseError::UnrecognisedCommand(_))),
{
    match res {
        Err(ParseError::UnrecognisedCommand(_)) => true,
        _ => false,
    }
}

/// What a message asks for.
#[derive(Debug)]
pub enum Invoke {
    /// A command of a group.
    Command { group: &'static CommandGroup, command: &'static Command },
    /// The help command, under this name.
    Help(&'static str),
}

/// What a [`ParseError`] says, as plain values.
pub enum ParseErrorView {
    UnrecognisedCommand(Option<Seq<char>>),
    Dispatch { error: DispatchError, command_name: Seq<char> },
}

impl View for ParseError {
    type V = ParseErrorView;

    open spec fn view(&self) -> ParseErrorView {
        match self {
            ParseError::UnrecognisedCommand(name) => ParseErrorView::UnrecognisedCommand(
                match name {
                    Some(name) => Some(name@),
                    None => None,
                },
            ),
            ParseError::Dispatch { error, command_name } => ParseErrorView::Dispatch {
                error: *error,
                command_name: command_name@,
            },
        }
    }
}

/// What a parse came to, with its error as plain values.
pub open spec fn outcome<T>(parsed: Result<T, ParseError>) -> Result<T, ParseErrorView> {
    match parsed {
        Ok(found) => Ok(found),
        Err(error) => Err(error@),
    }
}

/// `String::pop`: removes the last character of the text, if it has one.
#[verifier::external_body]
fn pop_char(text: &mut String)
    ensures
        final(text)@ == shortened(old(text)@),
{
    text.pop();
}

/// A name without its last character. The empty name stays as it is.
pub open spec fn shortened(name: Seq<char>) -> Seq<char> {
    if name.len() > 0 {
        name.drop_last()
    } else {
        name
    }
}

/// The form in which a name is looked up: the form in which texts are
/// compared where `folding` is set, else as it stands.
pub open spec fn form(config: Configuration, folding: bool, text: Seq<char>) -> Seq<char> {
    if folding {
        folded(config, text)
    } else {
        text
    }
}

/// Brings a name into the form in which it is looked up.
fn formed(config: &Configuration, folding: bool, text: &str) -> (name: String)
    ensures
        name@ == form(*config, folding, text@),
{
    if folding {
        match to_lowercase(config, text) {
            Cow::Borrowed(borrowed) => borrowed.to_owned(),
            Cow::Owned(owned) => owned,
        }
    } else {
        text.to_owned()
    }
}

/// Looks `name` up among `names` and, where it is not found, again without its
/// last character, `tries` times in all. Hands back the name that was found
/// and its place, or what is left of the name after all tries.
pub open spec fn sought(names: Seq<Seq<char>>, name: Seq<char>, tries: nat) -> (
    Seq<char>,
    Option<int>,
)
    decreases tries,
{
    if tries == 0 {
        (name, None)
    } else if position_of(names, name) is Some {
        (name, position_of(names, name))
    } else {
        sought(names, shortened(name), (tries - 1) as nat)
    }
}

/// The name that is handed back is what the name that was tried first begins
/// with.
pub proof fn lemma_sought_shortens(names: Seq<Seq<char>>, name: Seq<char>, tries: nat)
    ensures
        sought(names, name, tries).0.is_prefix_of(name),
    decreases tries,
{
    if tries > 0 && position_of(names, name) is None {
        lemma_sought_shortens(names, shortened(name), (tries - 1) as nat);
        assert(shortened(name).is_prefix_of(name));
    }
}

/// Where names are looked up as they stand, the name that was tried is what
/// the text begins with.
pub proof fn lemma_tried_leads(
    text: Seq<char>,
    names: Seq<Seq<char>>,
    shortest: usize,
    longest: usize,
    by_space: bool,
    config: Configuration,
    folding: bool,
)
    requires
        !(folding && config.case_insensitive),
    ensures
        tried(text, names, shortest, longest, by_space, config, folding).0.is_prefix_of(text),
{
    if by_space {
        lemma_run_length_ends(text, visibles());
    } else {
        let first = peek(text, longest as nat);
        lemma_sought_shortens(names, first, (longest - shortest) as nat);
        assert(first.is_prefix_of(text));
    }
}

/// What is found is found under the name that is handed back with it.
pub proof fn lemma_sought_holds(names: Seq<Seq<char>>, name: Seq<char>, tries: nat)
    ensures
        sought(names, name, tries).1 is Some ==> sought(names, name, tries).1 == position_of(
            names,
            sought(names, name, tries).0,
        ),
    decreases tries,
{
    if tries > 0 && position_of(names, name) is None {
        lemma_sought_holds(names, shortened(name), (tries - 1) as nat);
    }
}

/// An entry that was found stands at a place of the map, under the name that
/// was tried.
pub proof fn lemma_tried_holds(
    text: Seq<char>,
    names: Seq<Seq<char>>,
    shortest: usize,
    longest: usize,
    by_space: bool,
    config: Configuration,
    folding: bool,
)
    ensures
        ({
            let (name, found) = tried(text, names, shortest, longest, by_space, config, folding);
            found matches Some(at) ==> 0 <= at < names.len() && names[at] == name
        }),
{
    let (name, found) = tried(text, names, shortest, longest, by_space, config, folding);
    if !by_space {
        lemma_sought_holds(
            names,
            form(config, folding, peek(text, longest as nat)),
            (longest - shortest) as nat,
        );
    }
    lemma_position_of_holds(names, name);
}

/// The name that the parser tries at the beginning of `text`, and the place of
/// the entry it finds under it.
///
/// By space, the name is the text up to the first whitespace. Otherwise it is
/// as many characters as the longest name has, tried at every length down to
/// one more than the shortest name is taken to have.
pub open spec fn tried(
    text: Seq<char>,
    names: Seq<Seq<char>>,
    shortest: usize,
    longest: usize,
    by_space: bool,
    config: Configuration,
    folding: bool,
) -> (Seq<char>, Option<int>) {
    if by_space {
        let name = form(config, folding, text.take(run_length(text, visibles()) as int));
        (name, position_of(names, name))
    } else {
        sought(names, form(config, folding, peek(text, longest as nat)), (longest - shortest) as nat)
    }
}

/// Tries to find an entry of `map` under the name that the text ahead begins
/// with. The stream stays.
pub fn try_parse<M: ParseMap>(
    stream: &Stream<'_>,
    map: &M,
    by_space: bool,
    config: &Configuration,
    folding: bool,
) -> (found: (String, Option<usize>))
    requires
        by_space || map.shortest() <= map.longest(),
    ensures
        (
            found.0@,
            match found.1 {
                Some(at) => Some(at as int),
                None => None,
            },
        ) == tried(
            rest(*stream),
            map.names(),
            map.shortest(),
            map.longest(),
            by_space,
            *config,
            folding,
        ),
{
    if by_space {
        let n = formed(config, folding, peek_word(stream));
        let o = map.get(n.as_str());
        (n, o)
    } else {
        let mut n = formed(config, folding, peek_chars(stream, map.max_length()));
        let tries = map.max_length() - map.min_length();
        let ghost first = n@;
        let mut tried: usize = 0;
        while tried < tries
            invariant
                0 <= tried <= tries,
                !by_space,
                tries == map.longest() - map.shortest(),
                first == form(*config, folding, peek(rest(*stream), map.longest() as nat)),
                sought(map.names(), first, tries as nat) == sought(
                    map.names(),
                    n@,
                    (tries - tried) as nat,
                ),
            decreases tries - tried,
        {
            let o = map.get(n.as_str());
            if o.is_some() {
                return (n, o);
            }
            pop_char(&mut n);
            tried = tried + 1;
        }
        (n, None)
    }
}

/// Whether `name` is among the names of commands that are switched off.
pub fn is_disabled(config: &Configuration, name: &String) -> (disabled: bool)
    ensures
        disabled == exists|i: int|
            0 <= i < config.disabled_commands@.len() && (
            #[trigger] config.disabled_commands@[i])@ == name@,
{
    let mut i: usize = 0;
    while i < config.disabled_commands.len()
        invariant
            0 <= i <= config.disabled_commands.len(),
            forall|j: int| 0 <= j < i ==> (#[trigger] config.disabled_commands@[j])@ != name@,
        decreases config.disabled_commands.len() - i,
    {
        if same_text(config.disabled_commands[i].as_str(), name.as_str()) {
            return true;
        }
        i = i + 1;
    }
    false
}

/// Whether `name` is switched off.
pub open spec fn disabled(config: Configuration, name: Seq<char>) -> bool {
    exists|i: int|
        0 <= i < config.disabled_commands@.len() && (#[trigger] config.disabled_commands@[i])@
            == name
}

/// What [`parse_cmd`] finds in the text that `source` holds from `at` on, and
/// where it leaves the stream.
///
/// A name that is switched off is refused before it is looked up. A command
/// that is found is passed, with the whitespace behind it if the configuration
/// says so, and held against its restrictions; then its sub-commands are tried
/// in the same way, and the deepest one that is recognised is the command. The
/// stream moves on by the length in bytes of the name in the form in which it
/// was looked up, wherever that leads.
pub open spec fn parse_cmd_at(
    source: Seq<u8>,
    at: int,
    ctx: Context,
    msg: Message,
    config: Configuration,
    map: CommandMap,
) -> (Result<&'static Command, ParseErrorView>, int)
    decreases map,
{
    let (name, found) = tried(
        ahead(source, at),
        map.names(),
        map.min_length,
        map.max_length,
        config.by_space,
        config,
        true,
    );
    let unrecognised = (Err(ParseErrorView::UnrecognisedCommand(Some(name))), at);
    if disabled(config, name) {
        (
            Err(
                ParseErrorView::Dispatch {
                    error: DispatchError::CommandDisabled,
                    command_name: name,
                },
            ),
            at,
        )
    } else if found is Some && 0 <= found->0 < map.cmds@.len() {
        let entry = map.cmds@[found->0];
        let behind = moved(at, encode_utf8(name).len() as int);
        let to = if config.with_whitespace.commands {
            past_spaces(source, behind)
        } else {
            behind
        };
        match discrepancy(ctx, msg, config, entry.command.options.restrictions()) {
            Err(error) => (Err(ParseErrorView::Dispatch { error, command_name: name }), to),
            Ok(_) => if entry.map.cmds@.len() == 0 {
                (Ok(entry.command), to)
            } else {
                match parse_cmd_at(source, to, ctx, msg, config, entry.map) {
                    (Err(ParseErrorView::UnrecognisedCommand(Some(_))), then) => (
                        Ok(entry.command),
                        then,
                    ),
                    deeper => deeper,
                }
            },
        }
    } else {
        unrecognised
    }
}

/// Finds the command that the text ahead names, among the commands of `map` and
/// their sub-commands.
pub fn parse_cmd(
    stream: &mut Stream<'_>,
    ctx: &Context,
    msg: &Message,
    config: &Configuration,
    map: &CommandMap,
) -> (parsed: Result<&'static Command, ParseError>)
    requires
        map.valid(config.by_space),
    ensures
        stream_source(*final(stream)) == stream_source(*old(stream)),
        at_boundary(*old(stream)) && !config.case_insensitive ==> at_boundary(*final(stream)),
        (outcome(parsed), stream_offset(*final(stream)) as int) == parse_cmd_at(
            stream_source(*old(stream)),
            stream_offset(*old(stream)) as int,
            *ctx,
            *msg,
            *config,
            *map,
        ),
        parsed matches Ok(command) ==> command.options.names@.len() > 0,
    decreases map,
{
    let (n, r) = try_parse(stream, map, config.by_space, config, true);

    if is_disabled(config, &n) {
        return Err(
            ParseError::Dispatch { error: DispatchError::CommandDisabled, command_name: n },
        );
    }
    if let Some(i) = r {
        proof {
            lemma_tried_holds(
                rest(*stream),
                map.names(),
                map.min_length,
                map.max_length,
                config.by_space,
                *config,
                true,
            );
            assert(map.names().len() == map.cmds@.len());
        }
        let entry = &map.cmds[i];
        let cmd: &'static Command = entry.command;

        advance(stream, n.as_str().as_bytes().len());
        proof {
            if at_boundary(*old(stream)) && !config.case_insensitive {
                lemma_tried_leads(
                    rest(*old(stream)),
                    map.names(),
                    map.min_length,
                    map.max_length,
                    config.by_space,
                    *config,
                    true,
                );
                lemma_advanced_past(*old(stream), *stream, n@);
            }
        }
        if config.with_whitespace.commands {
            skip_spaces(stream);
        }
        if let Err(error) = check_discrepancy(ctx, msg, config, cmd.options) {
            return Err(ParseError::Dispatch { error, command_name: n });
        }
        if entry.map.is_empty() {
            return Ok(cmd);
        }
        return match parse_cmd(stream, ctx, msg, config, &entry.map) {
            Err(ParseError::UnrecognisedCommand(Some(_))) => Ok(cmd),
            res => res,
        };
    }
    Err(ParseError::UnrecognisedCommand(Some(n)))
}

/// What [`parse_group`] finds in the text that `source` holds from `at` on,
/// and where it leaves the stream.
///
/// A group that is found is passed, with the whitespace behind it if the
/// configuration says so, and held against its restrictions; then its
/// sub-groups are tried in the same way, and the deepest one that is recognised
/// is the group. Prefixes of groups are looked up as they stand, whatever the
/// configuration says of case.
pub open spec fn parse_group_at(
    source: Seq<u8>,
    at: int,
    ctx: Context,
    msg: Message,
    config: Configuration,
    map: GroupMap,
) -> (Result<(&'static CommandGroup, CommandMap), ParseErrorView>, int)
    decreases map,
{
    let (name, found) = tried(
        ahead(source, at),
        map.names(),
        map.min_length,
        map.max_length,
        config.by_space,
        config,
        false,
    );
    let unrecognised = (Err(ParseErrorView::UnrecognisedCommand(None)), at);
    if found is Some && 0 <= found->0 < map.groups@.len() {
        let entry = map.groups@[found->0];
        let behind = moved(at, encode_utf8(name).len() as int);
        let to = if config.with_whitespace.groups {
            past_spaces(source, behind)
        } else {
            behind
        };
        match discrepancy(ctx, msg, config, entry.group.options.restrictions()) {
            Err(error) => (Err(ParseErrorView::Dispatch { error, command_name: name }), to),
            Ok(_) => if entry.map.groups@.len() == 0 {
                (Ok((entry.group, entry.commands)), to)
            } else {
                match parse_group_at(source, to, ctx, msg, config, entry.map) {
                    (Err(ParseErrorView::UnrecognisedCommand(None)), then) => (
                        Ok((entry.group, entry.commands)),
                        then,
                    ),
                    deeper => deeper,
                }
            },
        }
    } else {
        unrecognised
    }
}

/// Finds the group that the text ahead names, among the groups of `map` and
/// their sub-groups, and hands it back with its commands.
pub fn parse_group<'m>(
    stream: &mut Stream<'_>,
    ctx: &Context,
    msg: &Message,
    config: &Configuration,
    map: &'m GroupMap,
) -> (parsed: Result<(&'static CommandGroup, &'m CommandMap), ParseError>)
    requires
        map.valid(config.by_space),
    ensures
        stream_source(*final(stream)) == stream_source(*old(stream)),
        at_boundary(*old(stream)) ==> at_boundary(*final(stream)),
        (
            match parsed {
                Ok((group, commands)) => Ok((group, *commands)),
                Err(error) => Err(error@),
            },
            stream_offset(*final(stream)) as int,
        ) == parse_group_at(
            stream_source(*old(stream)),
            stream_offset(*old(stream)) as int,
            *ctx,
            *msg,
            *config,
            *map,
        ),
        parsed matches Ok((group, commands)) ==> group.valid() && commands.valid(config.by_space),
    decreases map,
{
    let (n, o) = try_parse(stream, map, config.by_space, config, false);

    if let Some(i) = o {
        proof {
            lemma_tried_holds(
                rest(*stream),
                map.names(),
                map.min_length,
                map.max_length,
                config.by_space,
                *config,
                false,
            );
            assert(map.names().len() == map.groups@.len());
        }
        let entry = &map.groups[i];
        let group: &'static CommandGroup = entry.group;

        advance(stream, n.as_str().as_bytes().len());
        proof {
            if at_boundary(*old(stream)) {
                lemma_tried_leads(
                    rest(*old(stream)),
                    map.names(),
                    map.min_length,
                    map.max_length,
                    config.by_space,
                    *config,
                    false,
                );
                lemma_advanced_past(*old(stream), *stream, n@);
            }
        }
        if config.with_whitespace.groups {
            skip_spaces(stream);
        }
        if let Err(error) = check_discrepancy(ctx, msg, config, group.options) {
            return Err(ParseError::Dispatch { error, command_name: n });
        }
        if entry.map.is_empty() {
            return Ok((group, &entry.commands));
        }
        return match parse_group(stream, ctx, msg, config, &entry.map) {
            Err(ParseError::UnrecognisedCommand(None)) => Ok((group, &entry.commands)),
            res => res,
        };
    }
    Err(ParseError::UnrecognisedCommand(None))
}

/// What [`handle_command`] finds in the text that `source` holds from `at` on,
/// and where it leaves the stream.
///
/// Where no command of the group is found, or the one found is not to be run,
/// the command that the group falls back to takes its place, if the group has
/// one and the author may use it.
pub open spec fn handle_command_at(
    source: Seq<u8>,
    at: int,
    ctx: Context,
    msg: Message,
    config: Configuration,
    map: CommandMap,
    group: &'static CommandGroup,
) -> (Result<Invoke, ParseErrorView>, int) {
    match parse_cmd_at(source, at, ctx, msg, config, map) {
        (Ok(command), to) => (Ok(Invoke::Command { group, command }), to),
        (Err(err), to) => match group.options.default_command {
            Some(command) => match discrepancy(
                ctx,
                msg,
                config,
                command.options.restrictions(),
            ) {
                Err(error) => (
                    Err(
                        ParseErrorView::Dispatch {
                            error,
                            command_name: command.options.names@[0]@,
                        },
                    ),
                    to,
                ),
                Ok(_) => (Ok(Invoke::Command { group, command }), to),
            },
            None => (Err(err), to),
        },
    }
}

/// Finds the command of `group` that the text ahead names, or falls back to
/// the group's default command.
pub fn handle_command(
    stream: &mut Stream<'_>,
    ctx: &Context,
    msg: &Message,
    config: &Configuration,
    map: &CommandMap,
    group: &'static CommandGroup,
) -> (handled: Result<Invoke, ParseError>)
    requires
        map.valid(config.by_space),
        group.valid(),
    ensures
        stream_source(*final(stream)) == stream_source(*old(stream)),
        at_boundary(*old(stream)) && !config.case_insensitive ==> at_boundary(*final(stream)),
        (outcome(handled), stream_offset(*final(stream)) as int) == handle_command_at(
            stream_source(*old(stream)),
            stream_offset(*old(stream)) as int,
            *ctx,
            *msg,
            *config,
            *map,
            group,
        ),
        handled matches Ok(Invoke::Command { command, .. }) ==> command.options.names@.len() > 0,
        !(handled matches Ok(Invoke::Help(_))),
{
    match parse_cmd(stream, ctx, msg, config, map) {
        Ok(command) => Ok(Invoke::Command { group, command }),
        Err(err) => match group.options.default_command {
            Some(command) => {
                if let Err(error) = check_discrepancy(ctx, msg, config, command.options) {
                    return Err(
                        ParseError::Dispatch {
                            error,
                            command_name: command.options.names[0].to_owned(),
                        },
                    );
                }
                Ok(Invoke::Command { group, command })
            },
            None => Err(err),
        },
    }
}

/// What [`handle_group`] finds in the text that `source` holds from `at` on,
/// and where it leaves the stream: a group, and then a command of it.
pub open spec fn handle_group_at(
    source: Seq<u8>,
    at: int,
    ctx: Context,
    msg: Message,
    config: Configuration,
    map: GroupMap,
) -> (Result<Invoke, ParseErrorView>, int) {
    match parse_group_at(source, at, ctx, msg, config, map) {
        (Ok((group, commands)), to) => handle_command_at(
            source,
            to,
            ctx,
            msg,
            config,
            commands,
            group,
        ),
        (Err(error), to) => (Err(error), to),
    }
}

/// Finds the group that the text ahead names, and then the command of that
/// group that follows.
pub fn handle_group(
    stream: &mut Stream<'_>,
    ctx: &Context,
    msg: &Message,
    config: &Configuration,
    map: &GroupMap,
) -> (handled: Result<Invoke, ParseError>)
    requires
        map.valid(config.by_space),
    ensures
        stream_source(*final(stream)) == stream_source(*old(stream)),
        at_boundary(*old(stream)) && !config.case_insensitive ==> at_boundary(*final(stream)),
        (outcome(handled), stream_offset(*final(stream)) as int) == handle_group_at(
            stream_source(*old(stream)),
            stream_offset(*old(stream)) as int,
            *ctx,
            *msg,
            *config,
            *map,
        ),
        handled matches Ok(Invoke::Command { command, .. }) ==> command.options.names@.len() > 0,
        !(handled matches Ok(Invoke::Help(_))),
{
    match parse_group(stream, ctx, msg, config, map) {
        Ok((group, map)) => handle_command(stream, ctx, msg, config, map, group),
        Err(error) => Err(error),
    }
}

/// The name under which a parse recognised something, if it did: the main
/// name of the command it found, the name of the help command, or the name
/// that was refused.
pub open spec fn recognised_name(res: Result<Invoke, ParseErrorView>) -> Option<Seq<char>> {
    match res {
        Ok(Invoke::Command { command, .. }) => Some(command.options.names@[0]@),
        Ok(Invoke::Help(name)) => Some(name@),
        Err(ParseErrorView::UnrecognisedCommand(_)) => None,
        Err(ParseErrorView::Dispatch { command_name, .. }) => Some(command_name),
    }
}

/// The name under which a parse recognised something, if it did.
fn command_name_if_recognised(res: &Result<Invoke, ParseError>) -> (name: Option<String>)
    requires
        res matches Ok(Invoke::Command { command, .. }) ==> command.options.names@.len() > 0,
    ensures
        match name {
            Some(name) => recognised_name(outcome(*res)) == Some(name@),
            None => recognised_name(outcome(*res)) is None,
        },
{
    match res {
        Ok(Invoke::Command { command, .. }) => Some(command.options.names[0].to_owned()),
        Ok(Invoke::Help(name)) => Some((*name).to_owned()),
        Err(ParseError::UnrecognisedCommand(_)) => None,
        Err(ParseError::Dispatch { command_name, .. }) => Some(command_name.clone()),
    }
}

/// Whether the text that `source` holds from `at` on begins with the name
/// `name` of the help command.
pub open spec fn asks_for_help(
    source: Seq<u8>,
    at: int,
    config: Configuration,
    name: Seq<char>,
) -> bool {
    leads_with(config, ahead(source, at), name)
}

/// The place of the first of `names`, from `from` on, that the text asks for
/// help by.
pub open spec fn help_from(
    source: Seq<u8>,
    at: int,
    config: Configuration,
    names: Seq<&'static str>,
    from: int,
) -> Option<int>
    decreases names.len() - from,
{
    if from < 0 || from >= names.len() {
        None
    } else if asks_for_help(source, at, config, names[from]@) {
        Some(from)
    } else {
        help_from(source, at, config, names, from + 1)
    }
}

/// What a group that was recognised under `name` comes to once the group that
/// it was found in without a prefix is held against its restrictions.
pub open spec fn within(
    res: Result<Invoke, ParseErrorView>,
    name: Seq<char>,
    ctx: Context,
    msg: Message,
    config: Configuration,
    group: &'static CommandGroup,
) -> Result<Invoke, ParseErrorView> {
    match discrepancy(ctx, msg, config, group.options.restrictions()) {
        Err(error) => Err(ParseErrorView::Dispatch { error, command_name: name }),
        Ok(_) => res,
    }
}

/// What the groups from `from` on find in the text that `source` holds from
/// `at` on, and where they leave the stream.
///
/// The groups are tried in their order, and the first that recognises
/// something decides. `last` is what is handed back if none does: what the
/// last group without a prefix came to, or else the last group of all.
pub open spec fn groups_from(
    source: Seq<u8>,
    at: int,
    ctx: Context,
    msg: Message,
    config: Configuration,
    groups: Seq<(&'static CommandGroup, Lookup)>,
    from: int,
    last: Result<Invoke, ParseErrorView>,
    prefixless: bool,
) -> (Result<Invoke, ParseErrorView>, int)
    decreases groups.len() - from,
{
    if from < 0 || from >= groups.len() {
        (last, at)
    } else {
        let group = groups[from].0;
        match groups[from].1 {
            Lookup::WithPrefixes(map) => {
                let (res, to) = handle_group_at(source, at, ctx, msg, config, map);
                if res matches Err(ParseErrorView::UnrecognisedCommand(_)) {
                    groups_from(
                        source,
                        to,
                        ctx,
                        msg,
                        config,
                        groups,
                        from + 1,
                        if prefixless {
                            last
                        } else {
                            res
                        },
                        prefixless,
                    )
                } else {
                    (res, to)
                }
            },
            Lookup::Prefixless(subgroups, commands) => {
                let (res, to) = handle_group_at(source, at, ctx, msg, config, subgroups);
                match recognised_name(res) {
                    Some(name) => (within(res, name, ctx, msg, config, group), to),
                    None => {
                        let (res, to) = handle_command_at(
                            source,
                            to,
                            ctx,
                            msg,
                            config,
                            commands,
                            group,
                        );
                        match recognised_name(res) {
                            Some(name) => (within(res, name, ctx, msg, config, group), to),
                            None => groups_from(
                                source,
                                to,
                                ctx,
                                msg,
                                config,
                                groups,
                                from + 1,
                                res,
                                true,
                            ),
                        }
                    },
                }
            },
        }
    }
}

/// What [`command`] finds in the text that `source` holds from `at` on, and
/// where it leaves the stream.
///
/// The names of the help command go before everything else. The stream moves
/// past the first one that the text begins with, by its length in bytes, and
/// past the whitespace behind it.
pub open spec fn command_at(
    source: Seq<u8>,
    at: int,
    ctx: Context,
    msg: Message,
    groups: Seq<(&'static CommandGroup, Lookup)>,
    config: Configuration,
    help: Option<Seq<&'static str>>,
) -> (Result<Invoke, ParseErrorView>, int) {
    if help is Some && help_from(source, at, config, help->0, 0) is Some {
        let name = help->0[help_from(source, at, config, help->0, 0)->0];
        (Ok(Invoke::Help(name)), past_spaces(source, moved(at, encode_utf8(name@).len() as int)))
    } else {
        groups_from(
            source,
            at,
            ctx,
            msg,
            config,
            groups,
            0,
            Err(ParseErrorView::UnrecognisedCommand(None)),
            false,
        )
    }
}

/// A name of the help command that the text begins with is found before any
/// group is looked at: whatever the groups hold and whoever wrote the message,
/// the first such name is what [`command`] answers with.
pub proof fn lemma_help_goes_first(
    source: Seq<u8>,
    at: int,
    ctx: Context,
    msg: Message,
    groups: Seq<(&'static CommandGroup, Lookup)>,
    config: Configuration,
    names: Seq<&'static str>,
    i: int,
)
    requires
        0 <= i < names.len(),
        leads_with(config, ahead(source, at), names[i]@),
    ensures
        help_from(source, at, config, names, 0) matches Some(first) && 0 <= first <= i
            && asks_for_help(source, at, config, names[first]@) && command_at(
            source,
            at,
            ctx,
            msg,
            groups,
            config,
            Some(names),
        ).0 == Ok::<Invoke, ParseErrorView>(Invoke::Help(names[first])),
{
    lemma_help_from_finds(source, at, config, names, 0, i);
}

/// The search for a name of the help command stops at the first that fits.
proof fn lemma_help_from_finds(
    source: Seq<u8>,
    at: int,
    config: Configuration,
    names: Seq<&'static str>,
    from: int,
    i: int,
)
    requires
        0 <= from <= i < names.len(),
        asks_for_help(source, at, config, names[i]@),
    ensures
        help_from(source, at, config, names, from) matches Some(first) && from <= first <= i
            && asks_for_help(source, at, config, names[first]@),
    decreases i - from,
{
    if !asks_for_help(source, at, config, names[from]@) {
        lemma_help_from_finds(source, at, config, names, from + 1, i);
    }
}

/// Whether every group of `groups`, and everything it is found by, can be
/// searched.
pub open spec fn all_valid(groups: Seq<(&'static CommandGroup, Lookup)>, by_space: bool) -> bool {
    forall|i: int|
        0 <= i < groups.len() ==> (#[trigger] groups[i]).0.valid() && groups[i].1.valid(by_space)
}

/// Finds out whether every group of `groups`, and everything it is found by,
/// can be searched.
pub fn are_valid(groups: &[(&'static CommandGroup, Lookup)], by_space: bool) -> (valid: bool)
    ensures
        valid == all_valid(groups@, by_space),
{
    let mut i: usize = 0;
    while i < groups.len()
        invariant
            0 <= i <= groups@.len(),
            forall|j: int|
                0 <= j < i ==> (#[trigger] groups@[j]).0.valid() && groups@[j].1.valid(by_space),
        decreases groups@.len() - i,
    {
        let entry = &groups[i];
        if !entry.0.is_valid() || !entry.1.is_valid(by_space) {
            return false;
        }
        i = i + 1;
    }
    true
}

/// Parse a command from the message.
///
/// The "command" may be:
/// 1. A *help command* that provides a friendly browsing interface of all
///    groups and commands, explaining what each of them are, how they are laid
///    out and how to invoke them. There can only one help command registered,
///    but might have many names defined for invocation of itself.
///
/// 2. A command defined under another command or a group, which may also
///    belong to another group and so on. To invoke this command, all names and
///    prefixes of its parent commands and groups must be specified before it.
pub fn command(
    ctx: &Context,
    msg: &Message,
    stream: &mut Stream<'_>,
    groups: &[(&'static CommandGroup, Lookup)],
    config: &Configuration,
    help_was_set: Option<&[&'static str]>,
) -> (invoked: Result<Invoke, ParseError>)
    requires
        all_valid(groups@, config.by_space),
    ensures
        stream_source(*final(stream)) == stream_source(*old(stream)),
        at_boundary(*old(stream)) && !config.case_insensitive ==> at_boundary(*final(stream)),
        (outcome(invoked), stream_offset(*final(stream)) as int) == command_at(
            stream_source(*old(stream)),
            stream_offset(*old(stream)) as int,
            *ctx,
            *msg,
            groups@,
            *config,
            match help_was_set {
                Some(names) => Some(names@),
                None => None,
            },
        ),
{
    let ghost source = stream_source(*stream);
    let ghost at = stream_offset(*stream) as int;

    // Precedence is taken over commands named as one of the help names.
    if let Some(names) = help_was_set {
        let mut i: usize = 0;
        while i < names.len()
            invariant
                0 <= i <= names@.len(),
                stream_source(*stream) == source,
                stream_offset(*stream) == at,
                help_from(source, at, *config, names@, 0) == help_from(
                    source,
                    at,
                    *config,
                    names@,
                    i as int,
                ),
                help_was_set == Some(names),
                source == stream_source(*old(stream)),
                at == stream_offset(*old(stream)),
            decreases names@.len() - i,
        {
            let name: &'static str = names[i];
            if let Some(n) = try_match(stream, config, name) {
                let ghost before = *stream;
                advance(stream, text_of(&n).as_bytes().len());
                proof {
                    if at_boundary(before) && !config.case_insensitive {
                        lemma_advanced_past(before, *stream, n@);
                    }
                }
                skip_spaces(stream);
                return Ok(Invoke::Help(name));
            }
            i = i + 1;
        }
    }
    let mut last: Result<Invoke, ParseError> = Err(ParseError::UnrecognisedCommand(None));
    let mut is_prefixless = false;

    let mut i: usize = 0;
    while i < groups.len()
        invariant
            0 <= i <= groups@.len(),
            all_valid(groups@, config.by_space),
            at_boundary(*old(stream)) && !config.case_insensitive ==> at_boundary(*stream),
            stream_source(*stream) == source,
            source == stream_source(*old(stream)),
            command_at(
                source,
                at,
                *ctx,
                *msg,
                groups@,
                *config,
                match help_was_set {
                    Some(names) => Some(names@),
                    None => None,
                },
            ) == groups_from(
                source,
                stream_offset(*stream) as int,
                *ctx,
                *msg,
                *config,
                groups@,
                i as int,
                outcome(last),
                is_prefixless,
            ),
            at == stream_offset(*old(stream)),
        decreases groups@.len() - i,
    {
        let entry = &groups[i];
        let group: &'static CommandGroup = entry.0;
        assert(entry.0.valid() && entry.1.valid(config.by_space));
        match &entry.1 {
            // Includes [group] itself.
            Lookup::WithPrefixes(map) => {
                let res = handle_group(stream, ctx, msg, config, map);

                if !is_unrecognised(&res) {
                    return res;
                }
                if !is_prefixless {
                    last = res;
                }
            },
            Lookup::Prefixless(subgroups, commands) => {
                is_prefixless = true;

                let res = handle_group(stream, ctx, msg, config, subgroups);

                if let Some(command_name) = command_name_if_recognised(&res) {
                    if let Err(error) = check_discrepancy(ctx, msg, config, group.options) {
                        return Err(ParseError::Dispatch { error, command_name });
                    }
                    return res;
                }
                let res = handle_command(stream, ctx, msg, config, commands, group);

                if let Some(command_name) = command_name_if_recognised(&res) {
                    if let Err(error) = check_discrepancy(ctx, msg, config, group.options) {
                        return Err(ParseError::Dispatch { error, command_name });
                    }
                    return res;
                }
                last = res;
            },
        }
        i = i + 1;
    }
    last
}

} // verus!
