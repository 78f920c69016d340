//! What holds of the input handling as a whole.

pub mod bindings;
pub mod boxes;
pub mod commands;
pub mod completing;
pub mod linking;
pub mod mentioning;
pub mod messages;
pub mod popups;
pub mod pressing;
pub mod sending;

use vstd::prelude::*;

#[allow(unused_imports)]
use vstd::arithmetic::div_mod::{
    lemma_add_mod_noop_right, lemma_mod_add_multiples_vanish, lemma_small_mod,
};

#[allow(unused_imports)]
use crate::actions::{
    after_open_effects, chosen_reaction, deletion_effects, editing_started, open_effects, reacted,
    reaction_effects,
};
#[allow(unused_imports)]
use crate::app::{AppView, MentionCompletionStyle, MentionCycleView};
#[allow(unused_imports)]
use crate::attachments::{
    clean_text, cut_links, gives_attachment, giving, linked_path, linked_paths, matches_fit,
    Fetched,
};
#[allow(unused_imports)]
use crate::body::{
    ascii_punctuation, behind, body_ranges, boundary_at, first_named, first_spells,
    lemma_name_end_exists, name_end, names_member, spells, pieces, plain, plain_pieces,
    written_text, AssociatedValue, BodyRange, Piece, PLACEHOLDER,
};
#[allow(unused_imports)]
use crate::chat::{Channel, Context, Member, Message, MessageId};
#[allow(unused_imports)]
use crate::command::{Command, DirectionVertical, MoveAmountVisual, Widget, WindowMode};
#[allow(unused_imports)]
use crate::completion::{
    can_complete_with, can_cycle, completed_with, cycle_continues, cycled, lemma_name_ends,
    next_index, readline_completed, roster, Completion,
};
#[allow(unused_imports)]
use crate::dispatch::{
    bound_command, changed, channel_chosen, command_step, completion_step, cycle_kept, first_bound,
    key_step, modes, popup_step, react_step, reaction_step, unbound_step,
};
#[allow(unused_imports)]
use crate::effect::{Effect, OpenTarget};
#[allow(unused_imports)]
use crate::input::{lemma_completed, InputView};
#[allow(unused_imports)]
use crate::keys::{combination, KeyCode, KeyEvent, KeyEventKind};
#[allow(unused_imports)]
use crate::mentions::{
    lemma_last_shared, lowered_beginnings, lowered_names, matching, mention_start, select_by_name,
    shared_len, starts_all, typed_name,
};
#[allow(unused_imports)]
use crate::popup::{popup_accepted, popup_down, popup_up};
#[allow(unused_imports)]
use crate::send::{composed, taken};
#[allow(unused_imports)]
use crate::text::{
    ascii_lower, ascii_lowercase, between_bytes, byte_len, char_boundary, chars_before, from_byte,
    is_ascii_text, is_prefix, white_space, lemma_byte_len_concat, lemma_byte_len_split,
    lemma_starts_at_unique, lowercase, starts_at, trimmed, trimmed_end,
};

verus! {

/// What several names are completed to is the longest beginning of the first that all of them start
/// with, whatever the case of the letters.
pub proof fn shared_beginning_is_longest(name: Seq<char>, lowered: Seq<Seq<char>>)
    ensures
        0 <= shared_len(name, lowered) <= name.len(),
        starts_all(lowercase(name.take(shared_len(name, lowered))), lowered),
        forall|j: int|
            0 <= j <= name.len() && starts_all(lowercase(#[trigger] name.take(j)), lowered) ==> j
                <= shared_len(name, lowered),
{
    let beginnings = lowered_beginnings(name);
    let n = shared_len(name, lowered);
    lemma_last_shared(beginnings, lowered);
    if n == 0 {
        let none = lowercase(name.take(0));
        assert(name.take(0) =~= Seq::<char>::empty());
        assert(none =~= Seq::<char>::empty());
        assert forall|i: int| 0 <= i < lowered.len() implies is_prefix(
            none,
            #[trigger] lowered[i],
        ) by {
            assert(lowered[i].take(0) =~= none);
        }
    }
    assert forall|j: int|
        0 <= j <= name.len() && starts_all(lowercase(#[trigger] name.take(j)), lowered) implies j
        <= n by {
        assert(beginnings[j] == lowercase(name.take(j)));
    }
}

/// In ASCII, several names are completed to the longest text that all of them start with.
pub proof fn shared_beginning_is_common_prefix(members: Seq<Member>, p: Seq<char>)
    requires
        members.len() > 0,
        is_ascii_text(members[0].name@),
        starts_all(p, lowered_names(members)),
    ensures
        p.len() <= shared_len(members[0].name@, lowered_names(members)),
{
    let name = members[0].name@;
    let lowered = lowered_names(members);
    let n = p.len() as int;
    assert(is_prefix(p, lowered[0]));
    assert(lowered[0] == ascii_lowercase(name));
    assert(is_ascii_text(name.take(n)));
    assert(ascii_lowercase(name.take(n)) =~= ascii_lowercase(name).take(n));
    shared_beginning_is_longest(name, lowered);
}

proof fn lemma_selected(members: Seq<Member>, lowered: Seq<Seq<char>>, prefix: Seq<char>, m: Member)
    requires
        lowered.len() >= members.len(),
    ensures
        select_by_name(members, lowered, prefix).contains(m) <==> exists|i: int|
            0 <= i < members.len() && #[trigger] members[i] == m && is_prefix(prefix, lowered[i]),
    decreases members.len(),
{
    if members.len() > 0 {
        let less = members.drop_last();
        let last = members.len() - 1;
        let before = select_by_name(less, lowered, prefix);
        let now = select_by_name(members, lowered, prefix);
        lemma_selected(less, lowered, prefix, m);
        if before.contains(m) {
            let i = choose|i: int|
                0 <= i < less.len() && #[trigger] less[i] == m && is_prefix(prefix, lowered[i]);
            assert(members[i] == m);
            let j = choose|j: int| 0 <= j < before.len() && before[j] == m;
            assert(now[j] == m);
        }
        if members[last] == m && is_prefix(prefix, lowered[last]) {
            assert(now[now.len() - 1] == m);
        }
        if now.contains(m) && !before.contains(m) {
            let j = choose|j: int| 0 <= j < now.len() && now[j] == m;
            if j < before.len() {
                assert(before[j] == m);
            }
            assert(members[last] == m);
        }
        if exists|i: int|
            0 <= i < members.len() && #[trigger] members[i] == m && is_prefix(prefix, lowered[i]) {
            let i = choose|i: int|
                0 <= i < members.len() && #[trigger] members[i] == m && is_prefix(
                    prefix,
                    lowered[i],
                );
            if i < last {
                assert(less[i] == m);
            }
        }
    }
}

/// Those who are offered for what is typed of a mention are the members whose names start with it,
/// whatever the case of the letters, and nobody else.
pub proof fn matching_are_those_who_start_so(members: Seq<Member>, partial: Seq<char>, m: Member)
    ensures
        matching(members, partial).contains(m) <==> members.contains(m) && is_prefix(
            lowercase(partial),
            lowercase(m.name@),
        ),
{
    let lowered = lowered_names(members);
    lemma_selected(members, lowered, lowercase(partial), m);
    if members.contains(m) {
        let i = choose|i: int| 0 <= i < members.len() && members[i] == m;
        assert(lowered[i] == lowercase(m.name@));
    }
}

/// Accepting an entry of the mention popup leaves the text up to the `@` and the text behind the
/// cursor as they are, and the member's name with a space between them, before the cursor.
pub proof fn accepted_name_stands_before_cursor(app: AppView, i: usize)
    requires
        app.input.cursor <= app.input.data.len(),
        app.popup_fits(),
        app.popup is Some,
        app.popup->0.selected == Some(i),
    ensures
        popup_accepted(app).popup is None,
        popup_accepted(app).input.before() == app.input.data.take(
            chars_before(app.input.data, app.popup->0.at_byte_pos + 1),
        ) + app.popup->0.matches[i as int].name@ + seq![' '],
        popup_accepted(app).input.after() == app.input.after(),
{
    let popup = app.popup->0;
    let k = chars_before(app.input.data, popup.at_byte_pos + 1);
    assert(starts_at(app.input.data, k, popup.at_byte_pos + 1));
    let name = popup.matches[i as int].name@;
    let new = popup_accepted(app).input;
    assert(new.before() =~= app.input.data.take(k) + name + seq![' ']);
    assert(new.after() =~= app.input.after());
}

/// The state after the tab key was pressed `n` times in the style that goes through the names.
pub open spec fn tabbed(app: AppView, channel: Option<Channel>, n: nat) -> AppView
    decreases n,
{
    if n == 0 {
        app
    } else {
        cycled(tabbed(app, channel, (n - 1) as nat), channel).app
    }
}

/// Once a name is put in, each further tab puts the next of the matching names in its place, the
/// first again behind the last.
pub proof fn tabs_go_through_names(app: AppView, channel: Option<Channel>, n: nat)
    requires
        app.input.cursor <= app.input.data.len(),
        app.cycle_fits(),
        cycle_continues(app),
        can_cycle(app, channel),
        app.cycle->0.matches.len() <= usize::MAX,
    ensures
        cycle_continues(tabbed(app, channel, n)),
        can_cycle(tabbed(app, channel, n), channel),
        cycled(tabbed(app, channel, n), channel).outcome == (Completion {
            handled: true,
            bell: false,
        }),
        n > 0 ==> {
            let cycle = app.cycle->0;
            let index = (cycle.index + n) % cycle.matches.len() as int;
            tabbed(app, channel, n) == AppView {
                input: app.input.replaced_from(
                    chars_before(app.input.data, cycle.at_byte_pos + 1),
                    cycle.matches[index]@,
                ),
                cycle: Some(MentionCycleView { index: index as usize, ..cycle }),
                ..app
            }
        },
    decreases n,
{
    if n > 0 {
        let before = tabbed(app, channel, (n - 1) as nat);
        tabs_go_through_names(app, channel, (n - 1) as nat);
        let cycle = app.cycle->0;
        let len = cycle.matches.len() as int;
        let k = chars_before(app.input.data, cycle.at_byte_pos + 1);
        assert(starts_at(app.input.data, k, cycle.at_byte_pos + 1));
        if app.input.cursor < k {
            crate::text::lemma_byte_len_take_grows(app.input.data, app.input.cursor as int, k);
        }
        assert(before.input.data.take(k) =~= app.input.data.take(k));
        lemma_starts_at_unique(before.input.data, k, cycle.at_byte_pos + 1);
        lemma_add_mod_noop_right(1, cycle.index + n - 1, len);
        let old_index = before.cycle->0.index as int;
        let index = next_index(old_index, len);
        lemma_small_mod(cycle.index as nat, len as nat);
        assert(0 <= (cycle.index + n - 1) % len < len);
        assert(old_index == (cycle.index + n - 1) % len);
        assert(index == (cycle.index + n) % len);
        let name = cycle.matches[index]@;
        let now = tabbed(app, channel, n);
        assert(before.input.after() =~= app.input.after());
        assert(now.input.data =~= app.input.data.take(k) + name + app.input.after());
        assert(now.input =~= app.input.replaced_from(k, name));
        assert(now.input.data.take(k) =~= app.input.data.take(k));
        assert(now.input.before() =~= app.input.data.take(k) + name);
        lemma_byte_len_concat(app.input.data.take(k), name);
        lemma_starts_at_unique(now.input.data, k, cycle.at_byte_pos + 1);
    }
}

/// As many tabs as there are names bring everything back, the text, the cursor and the cycle, if the
/// text before the cursor is the name that the cycle stands at. Each of them is taken for a
/// completion, and none but the name behind the `@` is touched by it.
pub proof fn tabs_come_round(app: AppView, channel: Option<Channel>)
    requires
        app.input.cursor <= app.input.data.len(),
        app.cycle_fits(),
        cycle_continues(app),
        can_cycle(app, channel),
        app.cycle->0.matches.len() <= usize::MAX,
        app.input.data.subrange(
            chars_before(app.input.data, app.cycle->0.at_byte_pos + 1),
            app.input.cursor as int,
        ) == app.cycle->0.matches[app.cycle->0.index as int]@,
    ensures
        tabbed(app, channel, app.cycle->0.matches.len()) == app,
        forall|n: nat|
            #![trigger tabbed(app, channel, n)]
            {
                let cycle = app.cycle->0;
                let k = chars_before(app.input.data, cycle.at_byte_pos + 1);
                let index = (cycle.index + n) % cycle.matches.len() as int;
                &&& cycled(tabbed(app, channel, n), channel).outcome == (Completion {
                    handled: true,
                    bell: false,
                })
                &&& tabbed(app, channel, n).input.before() == app.input.data.take(k)
                    + cycle.matches[index]@
                &&& tabbed(app, channel, n).input.after() == app.input.after()
            },
{
    let cycle = app.cycle->0;
    let len = cycle.matches.len() as int;
    let k = chars_before(app.input.data, cycle.at_byte_pos + 1);
    let name = cycle.matches[cycle.index as int]@;
    assert(starts_at(app.input.data, k, cycle.at_byte_pos + 1));
    if app.input.cursor < k {
        crate::text::lemma_byte_len_take_grows(app.input.data, app.input.cursor as int, k);
    }
    lemma_small_mod(cycle.index as nat, len as nat);
    lemma_mod_add_multiples_vanish(cycle.index as int, len);
    tabs_go_through_names(app, channel, len as nat);
    assert(app.input.data.take(k) + name + app.input.after() =~= app.input.data);
    assert(app.input.replaced_from(k, name) =~= app.input);
    assert(tabbed(app, channel, len as nat) =~= app);
    assert forall|n: nat|
        #![trigger tabbed(app, channel, n)]
        {
            let index = (cycle.index + n) % len;
            &&& cycled(tabbed(app, channel, n), channel).outcome == (Completion {
                handled: true,
                bell: false,
            })
            &&& tabbed(app, channel, n).input.before() == app.input.data.take(k)
                + cycle.matches[index]@
            &&& tabbed(app, channel, n).input.after() == app.input.after()
        } by {
        tabs_go_through_names(app, channel, n);
        let index = (cycle.index + n) % len;
        let now = tabbed(app, channel, n).input;
        if n == 0 {
            assert(now.before() =~= app.input.data.take(k) + name);
        } else {
            assert(now.before() =~= app.input.data.take(k) + cycle.matches[index]@);
            assert(now.after() =~= app.input.after());
        }
    }
}

/// The first tab puts the rest of the first matching name in, right before the cursor, and further
/// tabs go on from there, if several names match.
pub proof fn first_tab_starts_cycle(app: AppView, channel: Option<Channel>)
    requires
        app.input.cursor <= app.input.data.len(),
        app.input.idx() <= usize::MAX,
        !cycle_continues(app),
        can_cycle(app, channel),
        mention_start(app.input.before()) is Some,
        roster(app, channel) is Some,
        matching(
            roster(app, channel)->0,
            typed_name(app.input.before(), mention_start(app.input.before())->0),
        ).len() > 1,
    ensures
        ({
            let partial = typed_name(app.input.before(), mention_start(app.input.before())->0);
            let found = matching(roster(app, channel)->0, partial);
            let rest = from_byte(found[0].name@, byte_len(partial) as int);
            let new = cycled(app, channel).app;
            &&& new.input.before() == app.input.before() + rest
            &&& new.input.after() == app.input.after()
            &&& cycle_continues(new)
            &&& can_cycle(new, channel)
        }),
{
    let before = app.input.before();
    let start = mention_start(before)->0;
    let partial = typed_name(before, start);
    let found = matching(roster(app, channel)->0, partial);
    let name = found[0].name@;
    let rest = from_byte(name, byte_len(partial) as int);
    lemma_completed(app.input, rest);
    lemma_name_ends(before, start, name);
    lemma_byte_len_concat(before, rest);
    lemma_byte_len_split(before, start);
    let new = cycled(app, channel).app;
    assert(new.cycle->0.matches[0] == found[0].name);
    assert(new.input.data.take(start + 1) =~= before.take(start + 1)) by {
        assert(new.input.before().take(start + 1) =~= before.take(start + 1));
        assert(new.input.data.take(start + 1) =~= new.input.before().take(start + 1));
    }
    lemma_starts_at_unique(
        new.input.data,
        start + 1,
        byte_len(before.take(start)) as int + 1,
    );
}

/// The only matching name is completed, with a space behind it, right before the cursor.
pub proof fn only_name_is_completed(
    input: InputView,
    partial: Seq<char>,
    members: Seq<Member>,
    shared: int,
)
    requires
        input.cursor <= input.data.len(),
        members.len() == 1,
        can_complete_with(partial, members),
    ensures
        ({
            let rest = from_byte(members[0].name@, byte_len(partial) as int);
            let new = completed_with(input, partial, members, shared).input;
            &&& new.before() == input.before() + rest + seq![' ']
            &&& new.after() == input.after()
            &&& byte_len(partial) + byte_len(rest) == byte_len(members[0].name@)
        }),
{
    let name = members[0].name@;
    let rest = from_byte(name, byte_len(partial) as int);
    lemma_completed(input, rest.push(' '));
    assert(input.before() + rest.push(' ') =~= input.before() + rest + seq![' ']);
    let k = chars_before(name, byte_len(partial) as int);
    assert(starts_at(name, k, byte_len(partial) as int));
    lemma_byte_len_split(name, k);
}

/// Several matching names are completed as far as they agree, right before the cursor: what is typed
/// and what is put in are together as long as the characters that they agree in.
pub proof fn several_names_are_completed_as_far_as_they_agree(
    input: InputView,
    partial: Seq<char>,
    members: Seq<Member>,
    shared: int,
)
    requires
        input.cursor <= input.data.len(),
        members.len() > 1,
        0 <= shared <= members[0].name@.len(),
        byte_len(members[0].name@.take(shared)) > byte_len(partial),
        char_boundary(members[0].name@, byte_len(partial) as int),
    ensures
        ({
            let name = members[0].name@;
            let rest = name.subrange(chars_before(name, byte_len(partial) as int), shared);
            let new = completed_with(input, partial, members, shared).input;
            &&& new.before() == input.before() + rest
            &&& new.after() == input.after()
            &&& byte_len(partial) + byte_len(rest) == byte_len(name.take(shared))
        }),
{
    let typed = byte_len(partial) as int;
    let name = members[0].name@;
    let k = chars_before(name, typed);
    assert(starts_at(name, k, typed));
    if shared < k {
        crate::text::lemma_byte_len_take_grows(name, shared, k);
    }
    let rest = name.subrange(k, shared);
    lemma_completed(input, rest);
    assert(name.take(shared) =~= name.take(k) + rest);
    lemma_byte_len_concat(name.take(k), rest);
}

proof fn lemma_body_ranges(parts: Seq<Piece>)
    requires
        parts.len() <= u16::MAX,
    ensures
        forall|r: BodyRange| #[trigger]
            body_ranges(parts).contains(r) <==> r.start < parts.len() && r.end == r.start + 1
                && parts[r.start as int] == Piece::Mention(r.value->MentionUuid_0),
        forall|i: int, j: int|
            0 <= i < j < body_ranges(parts).len() ==> (#[trigger] body_ranges(parts)[i]).end <= (
            #[trigger] body_ranges(parts)[j]).start,
    decreases parts.len(),
{
    if parts.len() > 0 {
        let less = parts.drop_last();
        let last = parts.len() - 1;
        lemma_body_ranges(less);
        let before = body_ranges(less);
        let now = body_ranges(parts);
        assert forall|r: BodyRange| #[trigger] now.contains(r) <==> r.start < parts.len() && r.end
            == r.start + 1 && parts[r.start as int] == Piece::Mention(r.value->MentionUuid_0) by {
            assert(before.contains(r) <==> r.start < less.len() && r.end == r.start + 1
                && less[r.start as int] == Piece::Mention(r.value->MentionUuid_0));
            if let Piece::Mention(id) = parts.last() {
                let new = BodyRange {
                    start: last as u16,
                    end: parts.len() as u16,
                    value: AssociatedValue::MentionUuid(id),
                };
                assert(now == before.push(new));
                assert(now[before.len() as int] == new);
                if before.contains(r) {
                    let j = choose|j: int| 0 <= j < before.len() && before[j] == r;
                    assert(now[j] == r);
                }
                if now.contains(r) && r != new {
                    let j = choose|j: int| 0 <= j < now.len() && now[j] == r;
                    assert(before[j] == r);
                }
                if r.start < parts.len() && r.end == r.start + 1 && parts[r.start as int]
                    == Piece::Mention(r.value->MentionUuid_0) && r.start == last {
                    assert(r == new);
                }
            }
        }
        assert forall|i: int, j: int| 0 <= i < j < now.len() implies (#[trigger] now[i]).end <= (
        #[trigger] now[j]).start by {
            if parts.last() is Mention {
                assert(before.contains(before[i]));
                if j < before.len() {
                    assert(now[j] == before[j]);
                }
                assert(now[i] == before[i]);
            }
        }
    }
}

proof fn lemma_mentioned_are_members(text: Seq<char>, members: Seq<Member>, i: int)
    requires
        0 <= i < pieces(text, members).len(),
        pieces(text, members)[i] is Mention,
    ensures
        exists|m: Member| #[trigger]
            members.contains(m) && pieces(text, members)[i] == Piece::Mention(m.id),
    decreases text.len(),
{
    let rest = text.drop_first();
    let lowered = lowered_names(members);
    let named = first_named(rest, lowered);
    if named is Some && text[0] == '@' {
        let k = named->0;
        lemma_first_named(rest, lowered);
        if i == 0 {
            assert(members.contains(members[k]));
        } else {
            lemma_mentioned_are_members(behind(rest, name_end(rest, lowered[k])), members, i - 1);
        }
    } else if i > 0 {
        lemma_mentioned_are_members(rest, members, i - 1);
    }
}

proof fn lemma_first_named(rest: Seq<char>, lowered: Seq<Seq<char>>)
    ensures
        first_named(rest, lowered) matches Some(i) ==> {
            &&& 0 <= i < lowered.len()
            &&& first_spells(rest, lowered[i], name_end(rest, lowered[i]))
            &&& forall|j: int| 0 <= j < i ==> !names_member(rest, #[trigger] lowered[j])
        },
        first_named(rest, lowered) is None ==> forall|j: int|
            0 <= j < lowered.len() ==> !names_member(rest, #[trigger] lowered[j]),
    decreases lowered.len(),
{
    if lowered.len() > 0 {
        let less = lowered.drop_last();
        lemma_first_named(rest, less);
        assert forall|j: int| 0 <= j < less.len() implies #[trigger] lowered[j] == less[j] by {}
        if first_named(rest, less) is None && names_member(rest, lowered.last()) {
            let k = choose|k: int| #[trigger] spells(rest, lowered.last(), k);
            lemma_name_end_exists(rest, lowered.last(), k);
        }
    }
}

/// The ranges of a text that is sent are in order and do not overlap. Each is one character wide,
/// stands at a placeholder, and is a mention of a member. Every mention has one.
pub proof fn ranges_are_placeholders_of_members(text: Seq<char>, members: Seq<Member>)
    requires
        pieces(text, members).len() <= u16::MAX,
    ensures
        forall|i: int, j: int|
            #![trigger body_ranges(pieces(text, members))[i], body_ranges(pieces(text, members))[j]]
            0 <= i < j < body_ranges(pieces(text, members)).len() ==> body_ranges(
                pieces(text, members),
            )[i].end <= body_ranges(pieces(text, members))[j].start,
        forall|r: BodyRange| #[trigger]
            body_ranges(pieces(text, members)).contains(r) ==> {
                &&& r.end == r.start + 1
                &&& r.end <= written_text(pieces(text, members)).len()
                &&& written_text(pieces(text, members))[r.start as int] == PLACEHOLDER
                &&& exists|m: Member| #[trigger]
                    members.contains(m) && r.value == AssociatedValue::MentionUuid(m.id)
            },
        forall|i: int|
            0 <= i < pieces(text, members).len() && (#[trigger] pieces(text, members)[i]) is Mention
                ==> body_ranges(pieces(text, members)).contains(
                BodyRange {
                    start: i as u16,
                    end: (i + 1) as u16,
                    value: AssociatedValue::MentionUuid(pieces(text, members)[i]->Mention_0),
                },
            ),
{
    let parts = pieces(text, members);
    lemma_body_ranges(parts);
    assert forall|i: int|
        0 <= i < parts.len() && (#[trigger] parts[i]) is Mention implies body_ranges(
        parts,
    ).contains(
        BodyRange {
            start: i as u16,
            end: (i + 1) as u16,
            value: AssociatedValue::MentionUuid(parts[i]->Mention_0),
        },
    ) by {
        let r = BodyRange {
            start: i as u16,
            end: (i + 1) as u16,
            value: AssociatedValue::MentionUuid(parts[i]->Mention_0),
        };
        assert(r.start == i && r.end == i + 1);
    }
    assert forall|r: BodyRange| #[trigger] body_ranges(parts).contains(r) implies {
        &&& r.end == r.start + 1
        &&& r.end <= written_text(parts).len()
        &&& written_text(parts)[r.start as int] == PLACEHOLDER
        &&& exists|m: Member| #[trigger]
            members.contains(m) && r.value == AssociatedValue::MentionUuid(m.id)
    } by {
        lemma_mentioned_are_members(text, members, r.start as int);
        let m = choose|m: Member| #[trigger]
            members.contains(m) && parts[r.start as int] == Piece::Mention(m.id);
        assert(members.contains(m));
        assert(r.value == AssociatedValue::MentionUuid(m.id));
    }
}

/// A text without an `@` is sent as it is.
pub proof fn text_without_at_is_kept(text: Seq<char>, members: Seq<Member>)
    requires
        !text.contains('@'),
    ensures
        written_text(pieces(text, members)) == text,
        body_ranges(pieces(text, members)) == Seq::<BodyRange>::empty(),
{
    let none = Seq::<char>::empty();
    text_before_at_is_kept(text, none, members);
    assert(text + none =~= text);
    assert(plain_pieces(text) + pieces(none, members) =~= plain_pieces(text));
    crate::body::lemma_plain_pieces(text);
}

/// What stands before the first `@` is sent as it is, whatever follows.
pub proof fn text_before_at_is_kept(a: Seq<char>, rest: Seq<char>, members: Seq<Member>)
    requires
        !a.contains('@'),
    ensures
        pieces(a + rest, members) == plain_pieces(a) + pieces(rest, members),
    decreases a.len(),
{
    if a.len() == 0 {
        assert(a + rest =~= rest);
        assert(plain_pieces(a) + pieces(rest, members) =~= pieces(rest, members));
    } else {
        let b = a.drop_first();
        assert(a[0] != '@') by {
            assert(a.contains(a[0]));
        }
        assert(!b.contains('@')) by {
            if b.contains('@') {
                let i = choose|i: int| 0 <= i < b.len() && b[i] == '@';
                assert(a[i + 1] == '@');
            }
        }
        text_before_at_is_kept(b, rest, members);
        assert((a + rest).drop_first() =~= b + rest);
        assert(pieces(a + rest, members) == seq![plain(a[0])] + pieces(b + rest, members));
        assert(plain_pieces(a) =~= seq![plain(a[0])] + plain_pieces(b));
        assert(pieces(a + rest, members) =~= plain_pieces(a) + pieces(rest, members));
    }
}

/// An `@` is a mention just where the name of a member follows. It is a mention of the first such
/// member, and takes the `@` and the characters that are the name, whatever the case of the letters,
/// and nothing of what follows.
pub proof fn mention_takes_its_name(rest: Seq<char>, members: Seq<Member>)
    ensures
        first_named(rest, lowered_names(members)) is None ==> {
            &&& pieces(seq!['@'] + rest, members) == seq![plain('@')] + pieces(rest, members)
            &&& forall|j: int|
                0 <= j < members.len() ==> !names_member(
                    rest,
                    lowercase((#[trigger] members[j]).name@),
                )
        },
        first_named(rest, lowered_names(members)) matches Some(i) ==> {
            let k = name_end(rest, lowercase(members[i].name@));
            &&& 0 <= i < members.len()
            &&& 0 <= k <= rest.len()
            &&& lowercase(rest.take(k)) == lowercase(members[i].name@)
            &&& boundary_at(rest, k)
            &&& pieces(seq!['@'] + rest, members) == seq![Piece::Mention(members[i].id)] + pieces(
                rest.skip(k),
                members,
            )
            &&& forall|j: int|
                0 <= j < i ==> !names_member(rest, lowercase((#[trigger] members[j]).name@))
        },
{
    let text = seq!['@'] + rest;
    let lowered = lowered_names(members);
    assert(text.drop_first() =~= rest);
    assert(text[0] == '@');
    lemma_first_named(rest, lowered);
    assert forall|j: int| 0 <= j < members.len() implies lowercase((#[trigger] members[j]).name@)
        == lowered[j] by {}
    if let Some(i) = first_named(rest, lowered) {
        let k = name_end(rest, lowered[i]);
        assert(spells(rest, lowered[i], k));
        assert(behind(rest, k) =~= rest.skip(k));
    }
}

/// An `@` with the whole name of a member behind it, at the end of a text, is a mention of a member.
pub proof fn whole_name_is_a_mention(members: Seq<Member>, i: int)
    requires
        0 <= i < members.len(),
    ensures
        pieces(seq!['@'] + members[i].name@, members).len() > 0,
        pieces(seq!['@'] + members[i].name@, members)[0] is Mention,
{
    let name = members[i].name@;
    let lowered = lowered_names(members);
    assert(lowered[i] == lowercase(name));
    assert(name.take(name.len() as int) =~= name);
    assert(lowered[i].take(lowered[i].len() as int) =~= lowered[i]);
    assert(spells(name, lowered[i], name.len() as int));
    assert(names_member(name, lowered[i]));
    lemma_first_named(name, lowered);
    mention_takes_its_name(name, members);
}

/// In ASCII, an `@` with the whole name of a member behind it is a mention of a member wherever
/// white space or punctuation follows.
pub proof fn ascii_name_is_a_mention(members: Seq<Member>, i: int, tail: Seq<char>)
    requires
        0 <= i < members.len(),
        is_ascii_text(members[i].name@),
        is_ascii_text(tail),
        tail.len() > 0 ==> white_space(tail[0]) || ascii_punctuation(tail[0]),
    ensures
        pieces(seq!['@'] + (members[i].name@ + tail), members).len() > 0,
        pieces(seq!['@'] + (members[i].name@ + tail), members)[0] is Mention,
{
    let name = members[i].name@;
    let rest = name + tail;
    let n = name.len() as int;
    let lowered = lowered_names(members);
    assert(lowered[i] == lowercase(name));
    assert(rest.take(n) =~= name);
    assert(is_ascii_text(rest));
    assert(lowercase(rest).take(n) =~= lowered[i]);
    assert(spells(rest, lowered[i], n));
    assert(names_member(rest, lowered[i]));
    lemma_first_named(rest, lowered);
    mention_takes_its_name(rest, members);
}

/// A text is sent with no more characters than it has.
pub proof fn pieces_are_no_more_than_characters(text: Seq<char>, members: Seq<Member>)
    ensures
        pieces(text, members).len() <= text.len(),
    decreases text.len(),
{
    if text.len() > 0 {
        let rest = text.drop_first();
        let lowered = lowered_names(members);
        match first_named(rest, lowered) {
            Some(i) if text[0] == '@' => {
                pieces_are_no_more_than_characters(
                    behind(rest, name_end(rest, lowered[i])),
                    members,
                );
            },
            _ => {
                pieces_are_no_more_than_characters(rest, members);
            },
        }
    }
}

/// `text` with the names of the mentioned users in place of their placeholders.
pub open spec fn put_back(
    text: Seq<char>,
    ranges: Seq<BodyRange>,
    names: spec_fn(u128) -> Seq<char>,
) -> Seq<char>
    decreases ranges.len(),
{
    if ranges.len() == 0 {
        text
    } else {
        let last = ranges.last();
        let at = last.start as int;
        put_back(text.take(at), ranges.drop_last(), names) + seq!['@'] + names(
            last.value->MentionUuid_0,
        ) + text.skip(at + 1)
    }
}

/// The text that `parts` stand for, with the names of the mentioned users.
spec fn spelled(parts: Seq<Piece>, names: spec_fn(u128) -> Seq<char>) -> Seq<char>
    decreases parts.len(),
{
    if parts.len() == 0 {
        Seq::empty()
    } else {
        let before = spelled(parts.drop_last(), names);
        match parts.last() {
            Piece::Plain(c) => before.push(c),
            Piece::Mention(id) => before + seq!['@'] + names(id),
        }
    }
}

proof fn lemma_put_back_push(
    text: Seq<char>,
    c: char,
    ranges: Seq<BodyRange>,
    names: spec_fn(u128) -> Seq<char>,
)
    requires
        ranges.len() > 0 ==> ranges.last().start < text.len(),
    ensures
        put_back(text.push(c), ranges, names) == put_back(text, ranges, names).push(c),
{
    if ranges.len() > 0 {
        let at = ranges.last().start as int;
        assert(text.push(c).take(at) =~= text.take(at));
        assert(text.push(c).skip(at + 1) =~= text.skip(at + 1).push(c));
        assert(put_back(text.push(c), ranges, names) =~= put_back(text, ranges, names).push(c));
    }
}

proof fn lemma_put_back_spells(parts: Seq<Piece>, names: spec_fn(u128) -> Seq<char>)
    requires
        parts.len() <= u16::MAX,
    ensures
        put_back(written_text(parts), body_ranges(parts), names) == spelled(parts, names),
    decreases parts.len(),
{
    if parts.len() > 0 {
        let less = parts.drop_last();
        let text = written_text(less);
        let ranges = body_ranges(less);
        lemma_put_back_spells(less, names);
        lemma_body_ranges(less);
        assert(written_text(parts) =~= text.push(parts.last().written()));
        match parts.last() {
            Piece::Plain(c) => {
                if ranges.len() > 0 {
                    assert(ranges.contains(ranges.last()));
                }
                lemma_put_back_push(text, c, ranges, names);
            },
            Piece::Mention(id) => {
                let now = body_ranges(parts);
                assert(now.drop_last() =~= ranges);
                assert(text.push(PLACEHOLDER).take(text.len() as int) =~= text);
                assert(text.push(PLACEHOLDER).skip(text.len() as int + 1) =~= Seq::<char>::empty());
                assert(put_back(written_text(parts), now, names) =~= spelled(parts, names));
            },
        }
    } else {
        assert(written_text(parts) =~= Seq::<char>::empty());
    }
}

proof fn lemma_spelled_first(
    first: Piece,
    parts: Seq<Piece>,
    names: spec_fn(u128) -> Seq<char>,
)
    ensures
        spelled(seq![first] + parts, names) == spelled(seq![first], names) + spelled(parts, names),
    decreases parts.len(),
{
    let all = seq![first] + parts;
    if parts.len() == 0 {
        assert(all =~= seq![first]);
        assert(spelled(all, names) =~= spelled(seq![first], names) + spelled(parts, names));
    } else {
        lemma_spelled_first(first, parts.drop_last(), names);
        assert(all.drop_last() =~= seq![first] + parts.drop_last());
        assert(spelled(all, names) =~= spelled(seq![first], names) + spelled(parts, names));
    }
}

proof fn lemma_spelled_is_text(
    text: Seq<char>,
    members: Seq<Member>,
    names: spec_fn(u128) -> Seq<char>,
)
    requires
        is_ascii_text(text),
        forall|i: int| 0 <= i < members.len() ==> is_ascii_text((#[trigger] members[i]).name@),
        forall|i: int|
            0 <= i < members.len() ==> (#[trigger] members[i]).name@ == names(members[i].id),
    ensures
        ascii_lowercase(spelled(pieces(text, members), names)) == ascii_lowercase(text),
    decreases text.len(),
{
    let lowered = lowered_names(members);
    if text.len() == 0 {
        assert(ascii_lowercase(spelled(pieces(text, members), names)) =~= ascii_lowercase(text));
    } else {
        let rest = text.drop_first();
        assert(is_ascii_text(rest));
        let named = first_named(rest, lowered);
        lemma_first_named(rest, lowered);
        if named is Some && text[0] == '@' {
            let i = named->0;
            let k = name_end(rest, lowered[i]);
            let name = members[i].name@;
            let tail = rest.skip(k);
            assert(spells(rest, lowered[i], k));
            assert(behind(rest, k) =~= tail);
            assert(is_ascii_text(tail));
            assert(is_ascii_text(rest.take(k)));
            lemma_spelled_is_text(tail, members, names);
            let first = Piece::Mention(members[i].id);
            lemma_spelled_first(first, pieces(tail, members), names);
            reveal_with_fuel(spelled, 2);
            assert(seq![first].drop_last() =~= Seq::<Piece>::empty());
            assert(spelled(seq![first], names) =~= seq!['@'] + name);
            let back = spelled(pieces(text, members), names);
            assert(back == seq!['@'] + name + spelled(pieces(tail, members), names));
            let low = ascii_lowercase(rest.take(k));
            assert(low == ascii_lowercase(name));
            assert(low.len() == k && name.len() == k) by {
                assert(ascii_lowercase(name).len() == name.len());
            }
            let tail_back = spelled(pieces(tail, members), names);
            assert(ascii_lowercase(tail_back).len() == tail_back.len());
            assert forall|j: int| 0 <= j < text.len() implies ascii_lower(back[j]) == ascii_lower(
                #[trigger] text[j],
            ) by {
                if j == 0 {
                } else if j <= k {
                    assert(low[j - 1] == ascii_lower(rest.take(k)[j - 1]));
                    assert(ascii_lowercase(name)[j - 1] == ascii_lower(name[j - 1]));
                } else {
                    assert(ascii_lowercase(tail_back)[j - 1 - k] == ascii_lower(
                        tail_back[j - 1 - k],
                    ));
                    assert(ascii_lowercase(tail)[j - 1 - k] == ascii_lower(tail[j - 1 - k]));
                }
            }
            assert(ascii_lowercase(back) =~= ascii_lowercase(text));
        } else {
            let first = plain(text[0]);
            lemma_spelled_is_text(rest, members, names);
            lemma_spelled_first(first, pieces(rest, members), names);
            reveal_with_fuel(spelled, 2);
            assert(seq![first].drop_last() =~= Seq::<Piece>::empty());
            assert(spelled(seq![first], names) =~= seq![text[0]]);
            let rest_back = spelled(pieces(rest, members), names);
            let back = spelled(pieces(text, members), names);
            assert(back == seq![text[0]] + rest_back);
            assert(ascii_lowercase(rest_back).len() == rest_back.len());
            assert forall|j: int| 0 <= j < text.len() implies ascii_lower(back[j]) == ascii_lower(
                #[trigger] text[j],
            ) by {
                if j > 0 {
                    assert(ascii_lowercase(rest_back)[j - 1] == ascii_lower(rest_back[j - 1]));
                    assert(ascii_lowercase(rest)[j - 1] == ascii_lower(rest[j - 1]));
                }
            }
            assert(ascii_lowercase(back) =~= ascii_lowercase(text));
        }
    }
}

/// In ASCII, putting an `@` and the names of the mentioned users back for the placeholders of a text
/// that is sent gives the text as it was typed, but for the case of letters: nothing but the
/// mentions is lost, added or moved.
pub proof fn names_put_back_give_the_text(
    text: Seq<char>,
    members: Seq<Member>,
    names: spec_fn(u128) -> Seq<char>,
)
    requires
        is_ascii_text(text),
        text.len() <= u16::MAX,
        forall|i: int| 0 <= i < members.len() ==> is_ascii_text((#[trigger] members[i]).name@),
        forall|i: int|
            0 <= i < members.len() ==> (#[trigger] members[i]).name@ == names(members[i].id),
    ensures
        pieces(text, members).len() <= u16::MAX,
        ascii_lowercase(
            put_back(
                written_text(pieces(text, members)),
                body_ranges(pieces(text, members)),
                names,
            ),
        ) == ascii_lowercase(text),
{
    pieces_are_no_more_than_characters(text, members);
    lemma_put_back_spells(pieces(text, members), names);
    lemma_spelled_is_text(text, members, names);
}

/// The tab key is taken for a completion just where a mention is typed before the cursor, and
/// nothing of its name yet or somebody can be mentioned, even if no name matches.
pub proof fn completion_is_attempted_behind_mention(app: AppView, channel: Option<Channel>)
    ensures
        readline_completed(app, channel).outcome.handled <==> (mention_start(app.input.before())
            matches Some(start) && (typed_name(app.input.before(), start).len() == 0 || roster(
            app,
            channel,
        ) is Some)),
        !readline_completed(app, channel).outcome.handled ==> readline_completed(app, channel).input
            == app.input,
{
}

/// Without a selected message nothing is opened. Where there is nothing to open, nothing more
/// happens, but that a file is tried behind a link if either will do.
pub proof fn nothing_is_opened_without_selection(
    app: AppView,
    message: Option<Message>,
    target: OpenTarget,
)
    ensures
        app.selected_message(message) is None ==> open_effects(app, message, target) == Seq::<
            Effect,
        >::empty(),
        target != OpenTarget::UrlOrFile ==> after_open_effects(target, false) == Seq::<
            Effect,
        >::empty(),
        app.selected_message(message) is Some ==> after_open_effects(OpenTarget::UrlOrFile, false)
            == open_effects(app, message, OpenTarget::File),
{
}

/// Deleting what was just typed brings the box back.
pub proof fn backspace_undoes_typing(input: InputView, c: char)
    requires
        input.cursor <= input.data.len(),
    ensures
        input.typed(c).erased() == input,
{
    let typed = input.typed(c);
    assert(typed.before() =~= input.before().push(c));
    assert(typed.after() =~= input.after());
    assert(typed.before().drop_last() =~= input.before());
    assert(input.before() + input.after() =~= input.data);
}

/// A key that is not pressed but repeated or released is bound to nothing.
pub proof fn only_presses_are_bound(app: AppView, event: KeyEvent)
    requires
        event.kind != KeyEventKind::Press,
    ensures
        bound_command(app, event) is None,
{
}

/// While the help is shown, every key press is a command: none reaches the text boxes by itself.
pub proof fn help_swallows_presses(app: AppView, event: KeyEvent)
    requires
        app.is_help,
        event.kind == KeyEventKind::Press,
    ensures
        bound_command(app, event) is Some,
        first_bound(app.bindings, modes(app), combination(event)->0) is None ==> bound_command(
            app,
            event,
        ) == Some(Command::NoOp),
{
}

/// A key that is bound in every mode means the same whatever is shown.
pub proof fn bindings_for_everywhere_win(app: AppView, event: KeyEvent)
    requires
        combination(event) is Some,
        app.bindings.contains_key((WindowMode::Anywhere, combination(event)->0)),
    ensures
        bound_command(app, event) == Some(
            app.bindings[(WindowMode::Anywhere, combination(event)->0)],
        ),
{
    assert(modes(app)[0] == WindowMode::Anywhere);
}

proof fn lemma_commands_keep_cycle(app: AppView, command: Command, context: Context)
    requires
        command != Command::React(None),
    ensures
        command_step(app, command, context).app.cycle == app.cycle,
{
    if let Command::React(reaction) = command {
        assert(react_step(app, reaction, context) == reaction_step(app, reaction, context));
        assert(reaction_step(app, reaction, context).app.cycle == app.cycle);
    }
}

proof fn lemma_popup_keeps_cycle(app: AppView, code: KeyCode, context: Context)
    ensures
        popup_step(app, code, context) matches Some(new) ==> new.cycle == app.cycle,
{
}

/// A key other than tab ends the cycle through the matching names, unless it is itself bound to
/// what starts one.
pub proof fn other_keys_end_cycle(app: AppView, event: KeyEvent, context: Context)
    requires
        event.code != KeyCode::Tab,
        bound_command(AppView { popup: None, cycle: None, ..app }, event) != Some(
            Command::React(None),
        ),
    ensures
        key_step(app, event, context).app.cycle is None,
{
    let kept = cycle_kept(app, event.code);
    let closed = AppView { popup: None, ..kept };
    assert(closed == AppView { popup: None, cycle: None, ..app });
    lemma_popup_keeps_cycle(kept, event.code, context);
    match bound_command(closed, event) {
        Some(command) => {
            lemma_commands_keep_cycle(closed, command, context);
        },
        None => {
            assert(unbound_step(closed, event.code, context).app.cycle == closed.cycle);
        },
    }
}

proof fn lemma_reactions_keep_popup(app: AppView, reaction: Option<String>, context: Context)
    ensures
        react_step(app, reaction, context).app.popup == app.popup,
{
    let completion = completion_step(app, context);
    assert(completion.app.popup == app.popup);
    assert(reaction_step(app, reaction, context).app.popup == app.popup);
    assert(reaction_step(completion.app, reaction, context).app.popup == app.popup);
}

proof fn lemma_commands_keep_popup(app: AppView, command: Command, context: Context)
    ensures
        command_step(app, command, context).app.popup == app.popup,
{
    match command {
        Command::React(reaction) => {
            lemma_reactions_keep_popup(app, reaction, context);
        },
        Command::EditMessage => {
            assert(editing_started(app, context) matches Some(new) ==> new.popup == app.popup);
        },
        _ => {
            assert(changed(app, command).popup == app.popup);
        },
    }
}

/// The mention popup is shown behind a key press only if it was shown before or an `@` was typed
/// where it is to be shown.
pub proof fn popup_opens_behind_at(app: AppView, event: KeyEvent, context: Context)
    requires
        key_step(app, event, context).app.popup is Some,
    ensures
        app.popup is Some || event.code == KeyCode::Char('@') && app.mention_completion
            == MentionCompletionStyle::Menu,
{
    let closed = AppView { popup: None, ..cycle_kept(app, event.code) };
    if let Some(command) = bound_command(closed, event) {
        lemma_commands_keep_popup(closed, command, context);
    } else if app.popup is None {
        assert(key_step(app, event, context) == unbound_step(closed, event.code, context));
    }
}

/// The channel that is chosen in the channel popup is the selected one, and the popup is closed. If
/// the channel is not there any more the popup is closed all the same and the selection stays.
pub proof fn chosen_channel_is_selected(app: AppView, id: crate::chat::ChannelId)
    requires
        app.modal_channel == Some(id),
        app.channels.len() <= usize::MAX,
    ensures
        !channel_chosen(app).app.modal_shown,
        channel_chosen(app).result is Ok <==> app.channels.contains(id),
        channel_chosen(app).result is Ok ==> channel_chosen(app).app.selected_channel() == Some(id),
        channel_chosen(app).result is Err ==> channel_chosen(app).app.selected == app.selected,
{
    if app.channels.contains(id) {
        app.channels.index_of_first_ensures(id);
    }
}

/// The command for several lines, given twice, changes nothing.
pub proof fn toggling_multiline_twice(app: AppView, context: Context)
    ensures
        ({
            let once = command_step(app, Command::ToggleMultiline, context).app;
            command_step(once, Command::ToggleMultiline, context).app == app
        }),
{
}

/// The channel popup is opened by the command that closes it. It is filled anew when it opens.
pub proof fn toggling_channel_popup_twice(app: AppView, context: Context)
    ensures
        ({
            let once = command_step(app, Command::ToggleChannelModal, context);
            let twice = command_step(once.app, Command::ToggleChannelModal, context);
            &&& twice.app == app
            &&& once.effects.contains(Effect::ResetChannelModal) <==> once.app.modal_shown
        }),
{
    let once = command_step(app, Command::ToggleChannelModal, context);
    if once.app.modal_shown {
        assert(once.effects[0] == Effect::ResetChannelModal);
    }
}

/// Scrolling the help up undoes scrolling it down, and scrolling it up stops at its start.
pub proof fn scrolling_up_undoes_down(app: AppView, context: Context)
    requires
        app.help_scroll.0 < u16::MAX,
    ensures
        ({
            let up = Command::Scroll(Widget::Help, DirectionVertical::Up, MoveAmountVisual::Entry);
            let down = Command::Scroll(
                Widget::Help,
                DirectionVertical::Down,
                MoveAmountVisual::Entry,
            );
            &&& command_step(command_step(app, down, context).app, up, context).app == app
            &&& app.help_scroll.0 == 0 ==> command_step(app, up, context).app == app
        }),
{
}

/// Below and above undo each other in the mention popup, where there is an entry below.
pub proof fn moving_up_undoes_down(app: AppView, i: usize)
    requires
        app.popup is Some,
        app.popup->0.selected == Some(i),
        i + 1 < app.popup->0.matches.len(),
        i < usize::MAX,
    ensures
        popup_up(popup_down(app)) == app,
{
}

/// Only a message of the user is edited, and only if nothing else is typed. It stands in the
/// message box then.
pub proof fn only_own_messages_are_edited(app: AppView, context: Context)
    requires
        editing_started(app, context) is Some,
    ensures
        app.input.data.len() == 0,
        context.message is Some,
        context.message->0.from_id == app.user_id,
        context.message->0.message is Some,
        editing_started(app, context)->0.input.data == context.message->0.message->0@,
        editing_started(app, context)->0.editing is Some,
{
}

/// The escape key leaves an edit: nothing is edited any more and the box is empty. A second time it
/// does not touch the text.
pub proof fn leaving_an_edit(app: AppView)
    requires
        app.editing is Some,
    ensures
        app.editing_reset().editing is None,
        app.editing_reset().active() == InputView::empty(),
        app.editing_reset().editing_reset() == app.editing_reset(),
{
}

/// Only a message of the user is deleted.
pub proof fn only_own_messages_are_deleted(app: AppView, context: Context)
    requires
        deletion_effects(app, context) is Some,
    ensures
        context.message matches Some(message) && message.from_id == app.user_id,
{
}

/// A reaction is taken back only where the user gave one, and it is that one.
pub proof fn only_given_reactions_are_taken_back(
    app: AppView,
    channel_idx: usize,
    reaction: Option<String>,
    context: Context,
)
    requires
        chosen_reaction(app, reaction, context.emoji) == Some(None::<String>),
    ensures
        reaction_effects(app, channel_idx, reaction, context) is Some ==> {
            &&& context.message is Some
            &&& context.message->0.reaction_of(app.user_id) is Some
            &&& reaction_effects(app, channel_idx, reaction, context)->0[0]
                == (Effect::SendReaction {
                message_id: MessageId {
                    channel_id: context.channel->0.id,
                    arrived_at: context.message->0.arrived_at,
                },
                emoji: context.message->0.reaction_of(app.user_id)->0,
                remove: true,
            })
        },
{
}

/// What is typed and is no emoji is no reaction: nothing is sent and nothing is taken back.
pub proof fn other_text_is_no_reaction(app: AppView, channel_idx: usize, context: Context)
    requires
        app.active().data.len() > 0,
        context.emoji is None,
    ensures
        reaction_effects(app, channel_idx, None, context) is None,
        reacted(app, None, context.emoji) == app,
{
}

/// What is sent leaves the box, and a message that was edited is edited no more. An edit quotes
/// nothing.
pub proof fn sending_takes_the_text(
    app: AppView,
    channel_idx: int,
    matches: Seq<(usize, usize)>,
    channel: Channel,
    message: Option<Message>,
)
    ensures
        taken(app).active() == InputView::empty(),
        taken(app).editing is None,
        composed(app, channel_idx, matches, channel, message).edited is Some ==> !composed(
            app,
            channel_idx,
            matches,
            channel,
            message,
        ).quotes,
{
}

/// A text in which no link is found is sent without the white space at its ends, and nothing is
/// attached to it.
pub proof fn text_without_links(input: Seq<char>)
    ensures
        clean_text(input, Seq::empty()) == trimmed(input),
        linked_paths(input, Seq::empty()) == Seq::<Seq<char>>::empty(),
{
    assert(input.take(0) =~= Seq::<char>::empty());
    lemma_starts_at_unique(input, 0, 0);
    assert(from_byte(input, 0) =~= input);
    assert(Seq::<char>::empty() + input =~= input);
}

/// A link is cut out of the text with the white space before it, and what it names is attached.
pub proof fn link_is_cut_out(a: Seq<char>, path: Seq<char>, b: Seq<char>)
    requires
        byte_len(a + "file://"@ + path) <= usize::MAX,
    ensures
        ({
            let input = a + "file://"@ + path + b;
            let matches = seq![
                (byte_len(a) as usize, byte_len(a + "file://"@ + path) as usize),
            ];
            &&& matches_fit(input, matches)
            &&& clean_text(input, matches) == trimmed(trimmed_end(a) + b)
            &&& linked_paths(input, matches) == seq![path]
        }),
{
    let link = "file://"@ + path;
    let input = a + "file://"@ + path + b;
    let start = byte_len(a);
    let end = byte_len(a + "file://"@ + path);
    let matches = seq![(start as usize, end as usize)];
    assert(a + "file://"@ + path =~= a + link);
    lemma_byte_len_concat(a, link);
    let i = a.len() as int;
    let j = (a + link).len() as int;
    assert(input.take(i) =~= a);
    assert(input.take(j) =~= a + link);
    lemma_starts_at_unique(input, i, start as int);
    lemma_starts_at_unique(input, j, end as int);
    assert(input.take(0) =~= Seq::<char>::empty());
    lemma_starts_at_unique(input, 0, 0);
    assert(between_bytes(input, start as int, end as int) =~= link);
    assert(between_bytes(input, 0, start as int) =~= a);
    assert(from_byte(input, end as int) =~= b);
    assert(link.take("file://"@.len() as int) =~= "file://"@);
    assert(link.skip("file://"@.len() as int) =~= path);
    assert(linked_path(input, matches[0]) == Some(path));
    let none = Seq::<(usize, usize)>::empty();
    assert(matches.drop_last() =~= none);
    assert(cut_links(input, none).text =~= Seq::<char>::empty());
    let cut = cut_links(input, matches);
    assert(cut.text =~= trimmed_end(a));
    assert(cut.paths =~= seq![path]);
}

/// There is one attachment for each path for which something to attach was found, in the order of
/// the paths, and no other.
pub proof fn one_attachment_for_each_found(paths: Seq<Seq<char>>, fetched: Seq<Fetched>)
    ensures
        forall|i: int| #[trigger]
            giving(paths, fetched).contains(i) <==> 0 <= i < paths.len() && gives_attachment(
                paths[i],
                fetched[i],
            ),
        forall|j: int, k: int|
            0 <= j < k < giving(paths, fetched).len() ==> #[trigger] giving(paths, fetched)[j]
                < #[trigger] giving(paths, fetched)[k],
    decreases paths.len(),
{
    if paths.len() > 0 {
        let less = paths.drop_last();
        let last = paths.len() - 1;
        let before = giving(less, fetched);
        let now = giving(paths, fetched);
        one_attachment_for_each_found(less, fetched);
        assert forall|i: int| #[trigger] now.contains(i) <==> 0 <= i < paths.len()
            && gives_attachment(paths[i], fetched[i]) by {
            assert(before.contains(i) <==> 0 <= i < less.len() && gives_attachment(
                less[i],
                fetched[i],
            ));
            if before.contains(i) {
                let j = choose|j: int| 0 <= j < before.len() && before[j] == i;
                assert(now[j] == i);
            }
            if now.contains(i) && i != last {
                let j = choose|j: int| 0 <= j < now.len() && now[j] == i;
                assert(before[j] == i);
            }
            if gives_attachment(paths[last], fetched[last]) {
                assert(now[before.len() as int] == last);
            }
            if now.contains(last) && !gives_attachment(paths[last], fetched[last]) {
                assert(before.contains(last));
            }
        }
        assert forall|j: int, k: int| 0 <= j < k < now.len() implies #[trigger] now[j]
            < #[trigger] now[k] by {
            assert(before.contains(before[j]));
            if k < before.len() {
                assert(now[k] == before[k]);
            }
            assert(now[j] == before[j]);
        }
    }
}

} // verus!
