//! What holds of the mentions in a text that is sent.

use vstd::prelude::*;

#[allow(unused_imports)]
use crate::body::{
    ascii_punctuation, behind, body_ranges, can_parse_mentions, channel_pieces, first_named,
    first_spells, lemma_name_end, lemma_plain_pieces, name_end, name_ends, names_member, pieces,
    spells, word_end, written_text, BodyRange, Piece,
};
#[allow(unused_imports)]
use crate::chat::{Channel, Member};
#[allow(unused_imports)]
use crate::laws::{lemma_body_ranges, lemma_first_named, pieces_are_no_more_than_characters};
#[allow(unused_imports)]
use crate::mentions::lowered_names;
#[allow(unused_imports)]
use crate::text::{alphanumeric, ascii_lowercase, is_ascii_text, is_prefix, lowercase, white_space};

verus! {

/// `c` may follow a name: in ASCII white space and punctuation may, beyond it all but letters and
/// numbers.
pub open spec fn may_follow_name(c: char) -> bool {
    if c <= '\u{7f}' {
        white_space(c) || ascii_punctuation(c)
    } else {
        !alphanumeric(c)
    }
}

/// The first `k` characters of `rest` are `name`, whatever the case of the letters, and nothing
/// follows or something that may follow a name.
pub open spec fn is_named(rest: Seq<char>, name: Seq<char>, k: int) -> bool {
    &&& 0 <= k <= rest.len()
    &&& lowercase(rest.take(k)) == lowercase(name)
    &&& is_prefix(lowercase(name), lowercase(rest))
    &&& k < rest.len() ==> may_follow_name(rest[k])
}

/// No beginning of `rest` is `name`.
pub open spec fn is_not_named(rest: Seq<char>, name: Seq<char>) -> bool {
    forall|k: int| !#[trigger] is_named(rest, name, k)
}

proof fn lemma_named(rest: Seq<char>, name: Seq<char>)
    ensures
        names_member(rest, lowercase(name)) <==> !is_not_named(rest, name),
        is_prefix(lowercase(name), lowercase(rest)) ==> forall|k: int|
            spells(rest, lowercase(name), k) <==> #[trigger] is_named(rest, name, k),
{
    let lowered = lowercase(name);
    if names_member(rest, lowered) {
        let k = choose|k: int| #[trigger] spells(rest, lowered, k);
        assert(is_named(rest, name, k));
    }
    if !is_not_named(rest, name) {
        let k = choose|k: int| #[trigger] is_named(rest, name, k);
        assert(spells(rest, lowered, k));
    }
}

/// In ASCII, a name ends before white space and before punctuation, and before nothing else. Beyond it,
/// a name ends before what is told to be no letter and no number. Besides, what is before must be the
/// name.
pub proof fn names_end_before_other_characters(
    rest: Seq<char>,
    k: int,
    alnum: bool,
    begun: Seq<char>,
    lowered: Seq<char>,
)
    requires
        0 <= k < rest.len(),
    ensures
        rest[k] <= '\u{7f}' ==> (word_end(rest[k], alnum) <==> white_space(rest[k])
            || ascii_punctuation(rest[k])),
        rest[k] > '\u{7f}' ==> (word_end(rest[k], alnum) <==> !alnum),
        name_ends(rest, k, begun, lowered) <==> begun == lowered && word_end(
            rest[k],
            alphanumeric(rest[k]),
        ),
        name_ends(rest, rest.len() as int, begun, lowered) <==> begun == lowered,
{
}

/// Of an empty text there is nothing, and a character that is no `@` is kept, whatever follows.
pub proof fn other_characters_are_kept(c: char, rest: Seq<char>, members: Seq<Member>)
    ensures
        pieces(Seq::empty(), members) == Seq::<Piece>::empty(),
        c != '@' ==> pieces(seq![c] + rest, members) == seq![Piece::Plain(c)] + pieces(rest, members),
{
    assert((seq![c] + rest).drop_first() =~= rest);
}

/// An `@` behind which no name of a member stands is kept.
pub proof fn at_without_name_is_kept(rest: Seq<char>, members: Seq<Member>)
    requires
        forall|i: int| 0 <= i < members.len() ==> is_not_named(rest, (#[trigger] members[i]).name@),
    ensures
        pieces(seq!['@'] + rest, members) == seq![Piece::Plain('@')] + pieces(rest, members),
{
    let lowered = lowered_names(members);
    let text = seq!['@'] + rest;
    assert(text.drop_first() =~= rest);
    lemma_first_named(rest, lowered);
    if let Some(i) = first_named(rest, lowered) {
        lemma_named_first(rest, lowered);
        lemma_named(rest, members[i].name@);
        assert(is_not_named(rest, members[i].name@));
    }
}

proof fn lemma_named_first(rest: Seq<char>, lowered: Seq<Seq<char>>)
    ensures
        first_named(rest, lowered) matches Some(i) ==> names_member(rest, lowered[i]),
    decreases lowered.len(),
{
    if lowered.len() > 0 {
        let less = lowered.drop_last();
        lemma_named_first(rest, less);
        lemma_first_named(rest, less);
        if let Some(i) = first_named(rest, less) {
            assert(less[i] == lowered[i]);
        }
    }
}

/// An `@` with the name of a member behind it is a mention of the first member whose name stands
/// there. It takes the characters that are the name, and none of those that follow.
pub proof fn at_with_name_is_a_mention(rest: Seq<char>, members: Seq<Member>, i: int, k: int)
    requires
        0 <= i < members.len(),
        is_named(rest, members[i].name@, k),
        forall|l: int| 0 <= l < k ==> !#[trigger] is_named(rest, members[i].name@, l),
        forall|j: int| 0 <= j < i ==> is_not_named(rest, (#[trigger] members[j]).name@),
    ensures
        pieces(seq!['@'] + rest, members) == seq![Piece::Mention(members[i].id)] + pieces(
            rest.skip(k),
            members,
        ),
{
    let lowered = lowered_names(members);
    let text = seq!['@'] + rest;
    let name = members[i].name@;
    assert(text.drop_first() =~= rest);
    lemma_named(rest, name);
    assert(!is_not_named(rest, name));
    assert(names_member(rest, lowered[i]));
    lemma_first_named(rest, lowered);
    lemma_named_first(rest, lowered);
    let named = first_named(rest, lowered);
    if named is None {
        assert(!names_member(rest, lowered[i]));
    }
    let j = named->0;
    if j < i {
        lemma_named(rest, members[j].name@);
        assert(is_not_named(rest, members[j].name@));
    } else if i < j {
        assert(!names_member(rest, lowered[i]));
    }
    assert forall|l: int| 0 <= l < k implies !#[trigger] spells(rest, lowered[i], l) by {
        assert(!is_named(rest, name, l));
    }
    assert(first_spells(rest, lowered[i], k));
    lemma_name_end(rest, lowered[i], k);
    assert(behind(rest, k) =~= rest.skip(k));
}

/// Where an `@` is taken for a mention, it is one of a member whose name stands behind it: what
/// follows the name may follow a name.
pub proof fn mentions_are_followed_by_names(rest: Seq<char>, members: Seq<Member>)
    requires
        pieces(seq!['@'] + rest, members)[0] is Mention,
    ensures
        exists|i: int, k: int|
            0 <= i < members.len() && #[trigger] is_named(rest, members[i].name@, k) && pieces(
                seq!['@'] + rest,
                members,
            ) == seq![Piece::Mention(members[i].id)] + pieces(rest.skip(k), members),
{
    let lowered = lowered_names(members);
    let text = seq!['@'] + rest;
    assert(text.drop_first() =~= rest);
    lemma_first_named(rest, lowered);
    lemma_named_first(rest, lowered);
    if first_named(rest, lowered) is None {
        assert(pieces(text, members)[0] == crate::body::plain('@'));
    }
    let i = first_named(rest, lowered)->0;
    let k = name_end(rest, lowered[i]);
    assert(spells(rest, lowered[i], k));
    lemma_named(rest, members[i].name@);
    assert(behind(rest, k) =~= rest.skip(k));
    assert(is_named(rest, members[i].name@, k));
}

/// What follows the name in a mention, if anything follows, is white space or punctuation in ASCII,
/// and no letter and no number beyond it.
pub proof fn mentions_end_as_words(rest: Seq<char>, members: Seq<Member>)
    requires
        pieces(seq!['@'] + rest, members)[0] is Mention,
    ensures
        exists|i: int, k: int|
            0 <= i < members.len() && 0 <= k <= rest.len() && lowercase(#[trigger] rest.take(k))
                == lowercase((#[trigger] members[i]).name@) && (k < rest.len() && rest[k] <= '\u{7f}'
                ==> white_space(rest[k]) || ascii_punctuation(rest[k])) && (k < rest.len() && rest[k]
                > '\u{7f}' ==> !alphanumeric(rest[k])) && pieces(seq!['@'] + rest, members) == seq![
                Piece::Mention(members[i].id),
            ] + pieces(rest.skip(k), members),
{
    mentions_are_followed_by_names(rest, members);
    let (i, k) = choose|i: int, k: int|
        0 <= i < members.len() && #[trigger] is_named(rest, members[i].name@, k) && pieces(
            seq!['@'] + rest,
            members,
        ) == seq![Piece::Mention(members[i].id)] + pieces(rest.skip(k), members);
    assert(lowercase(rest.take(k)) == lowercase(members[i].name@));
}

/// In ASCII, a name with a letter or a digit right behind it is not that name: no beginning of the
/// text is it, so that an `@` before it is no mention of a member of that name.
pub proof fn longer_words_are_other_names(name: Seq<char>, c: char, tail: Seq<char>)
    requires
        is_ascii_text(name),
        is_ascii_text(tail),
        c <= '\u{7f}',
        'a' <= c <= 'z' || 'A' <= c <= 'Z' || '0' <= c <= '9',
    ensures
        is_not_named(name + seq![c] + tail, name),
{
    let rest = name + seq![c] + tail;
    let n = name.len() as int;
    assert forall|k: int| !#[trigger] is_named(rest, name, k) by {
        if is_named(rest, name, k) {
            assert(is_ascii_text(rest));
            assert(is_ascii_text(rest.take(k)));
            assert(ascii_lowercase(rest.take(k)).len() == k);
            assert(ascii_lowercase(name).len() == n);
            assert(k == n);
            assert(rest[n] == c);
        }
    }
}

/// In ASCII, an `@` with the name of the only member behind it, and a letter or a digit right behind
/// that, is no mention, however long the name is.
pub proof fn longer_words_are_no_mentions(m: Member, c: char, tail: Seq<char>)
    requires
        is_ascii_text(m.name@),
        is_ascii_text(tail),
        c <= '\u{7f}',
        'a' <= c <= 'z' || 'A' <= c <= 'Z' || '0' <= c <= '9',
    ensures
        ({
            let rest = m.name@ + seq![c] + tail;
            pieces(seq!['@'] + rest, seq![m]) == seq![Piece::Plain('@')] + pieces(rest, seq![m])
        }),
{
    longer_words_are_other_names(m.name@, c, tail);
    at_without_name_is_kept(m.name@ + seq![c] + tail, seq![m]);
}

/// In ASCII, an `@` with the name of the only member behind it, and then nothing, white space or
/// punctuation, is a mention of that member, however the letters are written, and what follows the
/// name is kept.
pub proof fn names_are_mentions(m: Member, name: Seq<char>, tail: Seq<char>)
    requires
        is_ascii_text(m.name@),
        is_ascii_text(name),
        is_ascii_text(tail),
        lowercase(name) == lowercase(m.name@),
        tail.len() > 0 ==> white_space(tail[0]) || ascii_punctuation(tail[0]),
    ensures
        pieces(seq!['@'] + (name + tail), seq![m]) == seq![Piece::Mention(m.id)] + pieces(
            tail,
            seq![m],
        ),
{
    let rest = name + tail;
    let n = name.len() as int;
    assert(is_ascii_text(rest));
    assert(rest.take(n) =~= name);
    assert(lowercase(name).len() == n);
    assert(lowercase(rest).take(n) =~= lowercase(name));
    assert(is_named(rest, m.name@, n));
    assert forall|l: int| 0 <= l < n implies !#[trigger] is_named(rest, m.name@, l) by {
        assert(is_ascii_text(rest.take(l)));
        assert(ascii_lowercase(rest.take(l)).len() == l);
    }
    at_with_name_is_a_mention(rest, seq![m], 0, n);
    assert(rest.skip(n) =~= tail);
}

/// A piece is one character of the text that is sent: a character that is kept is that character, and
/// a mention is the placeholder.
pub proof fn pieces_are_written_one_by_one(parts: Seq<Piece>)
    ensures
        written_text(parts).len() == parts.len(),
        forall|i: int|
            #![trigger parts[i]]
            #![trigger written_text(parts)[i]]
            0 <= i < parts.len() ==> written_text(parts)[i] == (match parts[i] {
                Piece::Plain(c) => c,
                Piece::Mention(_) => '\u{fffc}',
            }),
{
}

/// There is a range for each mention and no other: it is the place of the placeholder, from its
/// number up to the next, with the user who is mentioned. The ranges are in order.
pub proof fn ranges_are_the_places_of_mentions(parts: Seq<Piece>)
    requires
        parts.len() <= u16::MAX,
    ensures
        forall|r: BodyRange| #[trigger]
            body_ranges(parts).contains(r) <==> r.start < parts.len() && r.end == r.start + 1
                && parts[r.start as int] == Piece::Mention(r.value->MentionUuid_0),
        forall|i: int, j: int|
            #![trigger body_ranges(parts)[i], body_ranges(parts)[j]]
            0 <= i < j < body_ranges(parts).len() ==> body_ranges(parts)[i].start < body_ranges(
                parts,
            )[j].start,
{
    lemma_body_ranges(parts);
    assert forall|i: int, j: int|
        #![trigger body_ranges(parts)[i], body_ranges(parts)[j]]
        0 <= i < j < body_ranges(parts).len() implies body_ranges(parts)[i].start < body_ranges(
        parts,
    )[j].start by {
        assert(body_ranges(parts).contains(body_ranges(parts)[i]));
    }
}

/// In a group mentions of its members are found, in a conversation with one user those of that user.
/// In a group whose members are not known the text is kept as it is.
pub proof fn channel_tells_who_is_mentioned(channel: Channel, input: Seq<char>)
    ensures
        channel.group_members matches Some(members) ==> channel_pieces(channel, input) == pieces(
            input,
            members@,
        ),
        channel.group_members is None && channel.id is User ==> channel_pieces(channel, input)
            == pieces(input, seq![Member { id: channel.id->User_0, name: channel.peer_name }]),
        channel.group_members is None && channel.id is Group ==> {
            &&& written_text(channel_pieces(channel, input)) == input
            &&& body_ranges(channel_pieces(channel, input)) == Seq::<BodyRange>::empty()
        },
{
    lemma_plain_pieces(input);
}

/// A text is refused only for having more pieces than a range can count, where mentions are looked for
/// at all. One of no more characters than that is not refused.
pub proof fn only_long_texts_are_refused(channel: Channel, input: Seq<char>)
    ensures
        channel.group_members is None && channel.id is Group ==> can_parse_mentions(channel, input),
        channel.group_members is Some || channel.id is User ==> (can_parse_mentions(channel, input)
            <==> channel_pieces(channel, input).len() <= 65535),
        input.len() <= 65535 ==> can_parse_mentions(channel, input),
{
    if let Some(members) = channel.mentionable() {
        pieces_are_no_more_than_characters(input, members);
    }
}

} // verus!
