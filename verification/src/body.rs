//! Turning the mentions of a text into placeholders.

use vstd::prelude::*;
use vstd::string::StrSliceExecFns;

use crate::chat::{Channel, Member};
use crate::mentions::lower_names;
use crate::text::{
    is_alphanumeric, is_white_space, same_text, skip_chars, starts_with, take_chars, to_chars,
    to_lowercase,
};

#[allow(unused_imports)]
use crate::mentions::{lowered_names, texts};
#[allow(unused_imports)]
use crate::text::{alphanumeric, is_prefix, lowercase, white_space};

verus! {

/// The character that stands for a mention.
pub const PLACEHOLDER: char = '\u{FFFC}';

#[derive(Clone, Copy, PartialEq, Eq, Structural, Debug)]
pub enum AssociatedValue {
    MentionUuid(u128),
}

/// What the characters from `start` up to `end` of a text stand for.
#[derive(Clone, Copy, PartialEq, Eq, Structural, Debug)]
pub struct BodyRange {
    pub start: u16,
    pub end: u16,
    pub value: AssociatedValue,
}

/// One character of a text whose mentions are found.
#[derive(Clone, Copy, PartialEq, Eq, Structural, Debug)]
pub enum Piece {
    Plain(char),
    Mention(u128),
}

impl Piece {
    /// How the piece is written.
    pub open spec fn written(self) -> char {
        match self {
            Piece::Plain(c) => c,
            Piece::Mention(_) => PLACEHOLDER,
        }
    }
}

/// The character `c` as a piece.
pub open spec fn plain(c: char) -> Piece {
    Piece::Plain(c)
}

/// The ASCII characters that are neither letters, digits, control characters nor the space.
pub open spec fn ascii_punctuation(c: char) -> bool {
    '!' <= c <= '/' || ':' <= c <= '@' || '[' <= c <= '`' || '{' <= c <= '~'
}

/// Whether `c` ends a name, if it follows it; `alnum` tells whether it is a letter or a number. Of
/// the ASCII characters white space and punctuation do, of the others all but letters and numbers.
pub open spec fn word_end(c: char, alnum: bool) -> bool {
    if c <= '\u{7f}' {
        white_space(c) || ascii_punctuation(c)
    } else {
        !alnum
    }
}

/// A name that ends before character `k` of `rest` ends there as a word: the text ends there too, or
/// a character follows that ends a name.
pub open spec fn boundary_at(rest: Seq<char>, k: int) -> bool {
    k < rest.len() ==> word_end(rest[k], alphanumeric(rest[k]))
}

/// The first `k` characters of `rest`, which are `begun` in lower case, are the name `lowered`.
pub open spec fn name_ends(rest: Seq<char>, k: int, begun: Seq<char>, lowered: Seq<char>) -> bool {
    begun == lowered && boundary_at(rest, k)
}

/// The first `k` characters of `rest` are the name `lowered`, whatever the case of the letters.
pub open spec fn spells(rest: Seq<char>, lowered: Seq<char>, k: int) -> bool {
    0 <= k <= rest.len() && name_ends(rest, k, lowercase(rest.take(k)), lowered)
}

/// `rest` starts with the name `lowered`, whatever the case of the letters.
pub open spec fn names_member(rest: Seq<char>, lowered: Seq<char>) -> bool {
    is_prefix(lowered, lowercase(rest)) && exists|k: int| #[trigger] spells(rest, lowered, k)
}

/// The name `lowered` at the start of `rest` ends before character `k`, and not before.
pub open spec fn first_spells(rest: Seq<char>, lowered: Seq<char>, k: int) -> bool {
    spells(rest, lowered, k) && forall|j: int| 0 <= j < k ==> !#[trigger] spells(rest, lowered, j)
}

/// How many characters of `rest` are the name `lowered` that it starts with.
pub open spec fn name_end(rest: Seq<char>, lowered: Seq<char>) -> int {
    choose|k: int| #[trigger] first_spells(rest, lowered, k)
}

/// The first of the names `lowered` that `rest` starts with.
pub open spec fn first_named(rest: Seq<char>, lowered: Seq<Seq<char>>) -> Option<int>
    decreases lowered.len(),
{
    if lowered.len() == 0 {
        None
    } else {
        match first_named(rest, lowered.drop_last()) {
            Some(i) => Some(i),
            None => if names_member(rest, lowered.last()) {
                Some(lowered.len() - 1)
            } else {
                None
            },
        }
    }
}

/// The pieces of `text`. An `@` before the name of a member is a mention, and the characters of the
/// name belong to it.
pub open spec fn pieces(text: Seq<char>, members: Seq<Member>) -> Seq<Piece>
    decreases text.len(),
{
    if text.len() == 0 {
        Seq::empty()
    } else {
        let rest = text.drop_first();
        let lowered = lowered_names(members);
        match first_named(rest, lowered) {
            Some(i) if text[0] == '@' => seq![Piece::Mention(members[i].id)] + pieces(
                behind(rest, name_end(rest, lowered[i])),
                members,
            ),
            _ => seq![plain(text[0])] + pieces(rest, members),
        }
    }
}

/// What is left of `s` behind `n` characters.
pub open spec fn behind(s: Seq<char>, n: int) -> Seq<char> {
    if n <= 0 {
        s
    } else if n <= s.len() {
        s.skip(n)
    } else {
        Seq::empty()
    }
}

/// The text that `pieces` make up.
pub open spec fn written_text(pieces: Seq<Piece>) -> Seq<char> {
    Seq::new(pieces.len(), |i: int| pieces[i].written())
}

/// Where the mentions are in the text that `pieces` make up.
pub open spec fn body_ranges(pieces: Seq<Piece>) -> Seq<BodyRange>
    decreases pieces.len(),
{
    if pieces.len() == 0 {
        Seq::empty()
    } else {
        let rest = body_ranges(pieces.drop_last());
        match pieces.last() {
            Piece::Plain(_) => rest,
            Piece::Mention(id) => rest.push(
                BodyRange {
                    start: (pieces.len() - 1) as u16,
                    end: pieces.len() as u16,
                    value: AssociatedValue::MentionUuid(id),
                },
            ),
        }
    }
}

/// Whether the first `k` characters of `rest`, which are `begun` in lower case, are the name
/// `lowered`.
pub fn is_name_end(rest: &Vec<char>, k: usize, begun: &str, lowered: &str) -> (r: bool)
    requires
        k <= rest@.len(),
    ensures
        r == name_ends(rest@, k as int, begun@, lowered@),
{
    is_boundary(rest, k) && same_text(begun, lowered)
}

/// Whether `c` ends a name, if it follows it; `alnum` tells whether it is a letter or a number.
pub fn ends_word(c: char, alnum: bool) -> (r: bool)
    ensures
        r == word_end(c, alnum),
{
    if c <= '\u{7f}' {
        is_white_space(c) || ('!' <= c && c <= '/') || (':' <= c && c <= '@') || ('[' <= c && c
            <= '`') || ('{' <= c && c <= '~')
    } else {
        !alnum
    }
}

/// Whether a name that ends before character `k` of `rest` ends there as a word.
fn is_boundary(rest: &Vec<char>, k: usize) -> (r: bool)
    requires
        k <= rest@.len(),
    ensures
        r == boundary_at(rest@, k as int),
{
    k == rest.len() || ends_word(rest[k], is_alphanumeric(rest[k]))
}

/// How many characters of `rest` are the name `lowered`, if it starts with it.
fn find_name_end(rest: &str, lowered: &str) -> (r: Option<usize>)
    ensures
        r is Some <==> exists|k: int| #[trigger] spells(rest@, lowered@, k),
        r matches Some(k) ==> k <= rest@.len() && k == name_end(rest@, lowered@) && spells(
            rest@,
            lowered@,
            k as int,
        ),
{
    let chars = to_chars(rest);
    let mut k: usize = 0;
    loop
        invariant
            k <= chars.len(),
            chars@ == rest@,
            forall|j: int| 0 <= j < k ==> !#[trigger] spells(rest@, lowered@, j),
        decreases chars.len() - k,
    {
        if is_boundary(&chars, k) {
            let begun = to_lowercase(take_chars(rest, k));
            if is_name_end(&chars, k, begun.as_str(), lowered) {
                proof {
                    assert(spells(rest@, lowered@, k as int));
                    lemma_name_end(rest@, lowered@, k as int);
                }
                return Some(k);
            }
        }
        assert(!spells(rest@, lowered@, k as int));
        if k == chars.len() {
            return None;
        }
        k = k + 1;
    }
}

/// A name has one first end.
pub proof fn lemma_name_end(rest: Seq<char>, lowered: Seq<char>, k: int)
    requires
        first_spells(rest, lowered, k),
    ensures
        name_end(rest, lowered) == k,
{
    let end = name_end(rest, lowered);
    assert(first_spells(rest, lowered, end));
    if end < k {
        assert(!spells(rest, lowered, end));
    } else if k < end {
        assert(!spells(rest, lowered, k));
    }
}

/// Where a name ends at all, it has a first end.
pub proof fn lemma_name_end_exists(rest: Seq<char>, lowered: Seq<char>, k: int)
    requires
        spells(rest, lowered, k),
    ensures
        first_spells(rest, lowered, name_end(rest, lowered)),
    decreases k,
{
    if exists|j: int| 0 <= j < k && #[trigger] spells(rest, lowered, j) {
        let j = choose|j: int| 0 <= j < k && #[trigger] spells(rest, lowered, j);
        lemma_name_end_exists(rest, lowered, j);
    } else {
        assert(first_spells(rest, lowered, k));
    }
}

/// The index of the first of the names `lowered` that `rest` starts with, and how many characters of
/// `rest` are that name.
pub fn find_named(rest: &str, lowered: &Vec<String>) -> (r: Option<(usize, usize)>)
    ensures
        r is Some <==> first_named(rest@, texts(lowered@)) is Some,
        r matches Some((i, end)) ==> {
            &&& i < lowered@.len()
            &&& first_named(rest@, texts(lowered@)) == Some(i as int)
            &&& end <= rest@.len()
            &&& end == name_end(rest@, lowered@[i as int]@)
        },
{
    let ghost all = texts(lowered@);
    let rest_lower = to_lowercase(rest);
    let mut i: usize = 0;
    while i < lowered.len()
        invariant
            i <= lowered.len(),
            all == texts(lowered@),
            rest_lower@ == lowercase(rest@),
            first_named(rest@, all.take(i as int)) is None,
        decreases lowered.len() - i,
    {
        assert(all.take(i + 1).drop_last() =~= all.take(i as int));
        if starts_with(rest_lower.as_str(), lowered[i].as_str()) {
            if let Some(end) = find_name_end(rest, lowered[i].as_str()) {
                proof {
                    lemma_first_named_found(rest@, all, i as int);
                }
                return Some((i, end));
            }
        }
        i = i + 1;
    }
    assert(all.take(all.len() as int) =~= all);
    None
}

/// The first name that fits is the same among more names.
proof fn lemma_first_named_found(rest: Seq<char>, lowered: Seq<Seq<char>>, i: int)
    requires
        0 <= i < lowered.len(),
        first_named(rest, lowered.take(i + 1)) == Some(i),
    ensures
        first_named(rest, lowered) == Some(i),
    decreases lowered.len(),
{
    if i + 1 == lowered.len() {
        assert(lowered.take(i + 1) =~= lowered);
    } else {
        assert(lowered.drop_last().take(i + 1) =~= lowered.take(i + 1));
        lemma_first_named_found(rest, lowered.drop_last(), i);
    }
}

/// The pieces of `text`.
fn find_pieces(members: &Vec<Member>, text: &str) -> (r: Vec<Piece>)
    ensures
        r@ == pieces(text@, members@),
{
    let lowered = lower_names(members);
    let chars = to_chars(text);
    let mut r: Vec<Piece> = Vec::new();
    let mut i: usize = 0;
    assert(text@.skip(0) =~= text@);
    while i < chars.len()
        invariant
            i <= chars.len(),
            chars@ == text@,
            lowered@.len() == members@.len(),
            texts(lowered@) == lowered_names(members@),
            r@ + pieces(text@.skip(i as int), members@) == pieces(text@, members@),
        decreases chars.len() - i,
    {
        let ghost left = text@.skip(i as int);
        let ghost done = r@;
        let rest = skip_chars(text, i + 1);
        assert(left.drop_first() =~= rest@);
        let mut next: usize = i + 1;
        if chars[i] == '@' {
            match find_named(rest, &lowered) {
                Some((k, end)) => {
                    next = next + end;
                    r.push(Piece::Mention(members[k].id));
                    proof {
                        assert(texts(lowered@)[k as int] == lowered@[k as int]@);
                        assert(behind(rest@, end as int) =~= text@.skip(next as int));
                        assert(pieces(left, members@) == seq![Piece::Mention(members@[k as int].id)]
                            + pieces(text@.skip(next as int), members@));
                    }
                },
                None => {
                    r.push(Piece::Plain('@'));
                    assert(pieces(left, members@) == seq![plain('@')] + pieces(
                        rest@,
                        members@,
                    ));
                },
            }
        } else {
            let c = chars[i];
            r.push(Piece::Plain(c));
            assert(left[0] == c);
            assert(pieces(left, members@) == seq![plain(c)] + pieces(
                rest@,
                members@,
            ));
        }
        assert(r@ + pieces(text@.skip(next as int), members@) =~= done + pieces(left, members@));
        i = next;
    }
    assert(text@.skip(i as int) =~= Seq::<char>::empty());
    assert(r@ + Seq::<Piece>::empty() =~= r@);
    r
}

/// The text that `pieces` make up, and where the mentions are in it.
pub fn write_pieces(pieces: &Vec<Piece>) -> (r: (String, Vec<BodyRange>))
    requires
        pieces@.len() <= u16::MAX,
    ensures
        r.0@ == written_text(pieces@),
        r.1@ == body_ranges(pieces@),
{
    let mut text = String::new();
    let mut ranges: Vec<BodyRange> = Vec::new();
    let mut i: usize = 0;
    while i < pieces.len()
        invariant
            i <= pieces.len() <= u16::MAX,
            text@ == written_text(pieces@.take(i as int)),
            ranges@ == body_ranges(pieces@.take(i as int)),
        decreases pieces.len() - i,
    {
        assert(pieces@.take(i + 1).drop_last() =~= pieces@.take(i as int));
        match pieces[i] {
            Piece::Plain(c) => {
                text.push(c);
            },
            Piece::Mention(id) => {
                text.push(PLACEHOLDER);
                ranges.push(
                    BodyRange {
                        start: i as u16,
                        end: (i + 1) as u16,
                        value: AssociatedValue::MentionUuid(id),
                    },
                );
            },
        }
        assert(text@ =~= written_text(pieces@.take(i + 1)));
        i = i + 1;
    }
    assert(pieces@.take(pieces@.len() as int) =~= pieces@);
    (text, ranges)
}

/// Replaces the mentions of `members` in `input` by placeholders. Returns the text and what the
/// placeholders in it stand for. The text must have no more characters than a range can count.
pub fn parse_mentions_with_members(members: &Vec<Member>, input: String) -> (r: (
    String,
    Vec<BodyRange>,
))
    requires
        pieces(input@, members@).len() <= u16::MAX,
    ensures
        r.0@ == written_text(pieces(input@, members@)),
        r.1@ == body_ranges(pieces(input@, members@)),
{
    let found = find_pieces(members, input.as_str());
    write_pieces(&found)
}

/// The pieces of a text that is sent to `channel`, where it has members to mention.
pub open spec fn channel_pieces(channel: Channel, input: Seq<char>) -> Seq<Piece> {
    match channel.mentionable() {
        Some(members) => pieces(input, members),
        None => plain_pieces(input),
    }
}

/// The pieces of a text without a mention.
pub open spec fn plain_pieces(input: Seq<char>) -> Seq<Piece> {
    input.map_values(|c: char| plain(c))
}

/// The text can be counted by the ranges, if there is anyone to mention.
pub open spec fn can_parse_mentions(channel: Channel, input: Seq<char>) -> bool {
    channel.mentionable() is Some ==> channel_pieces(channel, input).len() <= u16::MAX
}

/// Plain pieces are the text, without a mention.
pub(crate) proof fn lemma_plain_pieces(input: Seq<char>)
    ensures
        written_text(plain_pieces(input)) == input,
        body_ranges(plain_pieces(input)) == Seq::<BodyRange>::empty(),
    decreases input.len(),
{
    assert(written_text(plain_pieces(input)) =~= input);
    if input.len() > 0 {
        let less = input.drop_last();
        lemma_plain_pieces(less);
        assert(plain_pieces(input).drop_last() =~= plain_pieces(less));
    }
}

/// Replaces the mentions of those who can be mentioned in `channel` by placeholders. Returns the
/// text and what the placeholders in it stand for.
pub fn parse_mentions(channel: &Channel, input: String) -> (r: (String, Vec<BodyRange>))
    requires
        can_parse_mentions(*channel, input@),
    ensures
        r.0@ == written_text(channel_pieces(*channel, input@)),
        r.1@ == body_ranges(channel_pieces(*channel, input@)),
{
    match channel.mentionable_members() {
        Some(members) => parse_mentions_with_members(&members, input),
        None => {
            proof {
                lemma_plain_pieces(input@);
            }
            (input, Vec::new())
        },
    }
}

/// Whether the text that is left of `input` can be counted by the ranges.
pub fn mentions_fit(channel: &Channel, input: &str) -> (r: bool)
    ensures
        r == can_parse_mentions(*channel, input@),
{
    match channel.mentionable_members() {
        Some(members) => find_pieces(&members, input).len() <= u16::MAX as usize,
        None => true,
    }
}

} // verus!
