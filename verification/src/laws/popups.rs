//! What holds of the popup that offers members to mention.

use vstd::prelude::*;

#[allow(unused_imports)]
use crate::app::{AppView, MentionPopupView};
#[allow(unused_imports)]
use crate::chat::{Channel, Member};
#[allow(unused_imports)]
use crate::completion::roster;
#[allow(unused_imports)]
use crate::input::InputView;
#[allow(unused_imports)]
use crate::laws::matching_are_those_who_start_so;
#[allow(unused_imports)]
use crate::mentions::{lowered_names, matching, select_by_name};
#[allow(unused_imports)]
use crate::popup::{
    popup_accepted, popup_can_update, popup_down, popup_opened, popup_up, popup_updated,
};
#[allow(unused_imports)]
use crate::text::{
    byte_len, is_prefix, lemma_byte_len_take_grows, lemma_starts_at_unique, lowercase, starts_at,
};

verus! {

/// In a group its members can be mentioned, in a conversation with one user that user, and nobody in
/// a group whose members are not known. Nobody can be mentioned where no channel is selected or
/// nothing is known of it.
pub proof fn members_of_selected_channel_can_be_mentioned(app: AppView, channel: Channel)
    ensures
        roster(app, None) is None,
        app.selected is None ==> roster(app, Some(channel)) is None,
        app.selected is Some && channel.group_members is Some ==> roster(app, Some(channel)) == Some(
            channel.group_members->0@,
        ),
        app.selected is Some && channel.group_members is None && channel.id is User ==> roster(
            app,
            Some(channel),
        ) == Some(seq![Member { id: channel.id->User_0, name: channel.peer_name }]),
        app.selected is Some && channel.group_members is None && channel.id is Group ==> roster(
            app,
            Some(channel),
        ) is None,
{
}

proof fn lemma_filtered(
    members: Seq<Member>,
    lowered: Seq<Seq<char>>,
    prefix: Seq<char>,
    fits: spec_fn(Member) -> bool,
)
    requires
        lowered.len() >= members.len(),
        forall|i: int|
            0 <= i < members.len() ==> fits(#[trigger] members[i]) == is_prefix(prefix, lowered[i]),
    ensures
        select_by_name(members, lowered, prefix) == members.filter(fits),
    decreases members.len(),
{
    reveal(Seq::filter);
    if members.len() > 0 {
        let less = members.drop_last();
        assert forall|i: int| 0 <= i < less.len() implies fits(#[trigger] less[i]) == is_prefix(
            prefix,
            lowered[i],
        ) by {
            assert(less[i] == members[i]);
        }
        lemma_filtered(less, lowered, prefix, fits);
        assert(fits(members[members.len() - 1]) == is_prefix(prefix, lowered[members.len() - 1]));
    }
}

/// Those whose names match what is typed are the members whose names start with it, whatever the case
/// of the letters, in the order of the members.
pub proof fn matching_names_start_with_what_is_typed(members: Seq<Member>, partial: Seq<char>)
    ensures
        matching(members, partial) == members.filter(
            |m: Member| is_prefix(lowercase(partial), lowercase(m.name@)),
        ),
{
    let fits = |m: Member| is_prefix(lowercase(partial), lowercase(m.name@));
    lemma_filtered(members, lowered_names(members), lowercase(partial), fits);
}

proof fn lemma_everybody_matches_nothing(members: Seq<Member>)
    ensures
        matching(members, Seq::empty()) == members,
    decreases members.len(),
{
    let none = Seq::<char>::empty();
    assert(lowercase(none) =~= none);
    let fits = |m: Member| is_prefix(none, lowercase(m.name@));
    assert forall|i: int| 0 <= i < members.len() implies fits(#[trigger] members[i]) == is_prefix(
        none,
        lowered_names(members)[i],
    ) by {}
    lemma_filtered(members, lowered_names(members), none, fits);
    assert forall|m: Member| #[trigger] fits(m) by {
        assert(lowercase(m.name@).take(0) =~= none);
    }
    lemma_all_fit(members, fits);
}

proof fn lemma_all_fit(members: Seq<Member>, fits: spec_fn(Member) -> bool)
    requires
        forall|m: Member| #[trigger] fits(m),
    ensures
        members.filter(fits) == members,
    decreases members.len(),
{
    reveal(Seq::filter);
    if members.len() > 0 {
        lemma_all_fit(members.drop_last(), fits);
        assert(fits(members.last()));
        assert(members.drop_last().push(members.last()) =~= members);
    } else {
        assert(members.filter(fits) =~= members);
    }
}

/// While the cursor stands behind the `@` that the popup was opened at, the popup offers, in the order
/// of the members, those who can be mentioned and whose names start with the whole text between the
/// `@` and the cursor, whatever the case of the letters. It closes when there are none.
pub proof fn popup_offers_names_that_start_so(
    app: AppView,
    channel: Option<Channel>,
    popup: MentionPopupView,
    members: Seq<Member>,
    k: int,
)
    requires
        app.popup == Some(popup),
        roster(app, channel) == Some(members),
        0 <= k <= app.input.cursor <= app.input.data.len(),
        byte_len(app.input.data.take(k)) == popup.at_byte_pos + 1,
    ensures
        ({
            let typed = app.input.data.subrange(k, app.input.cursor as int);
            let fits = |m: Member| is_prefix(lowercase(typed), lowercase(m.name@));
            let shown = popup_updated(app, channel).popup;
            &&& shown is None <==> forall|m: Member| #[trigger] members.contains(m) ==> !fits(m)
            &&& shown matches Some(now) ==> {
                &&& now.at_byte_pos == popup.at_byte_pos
                &&& now.matches == members.filter(fits)
                &&& forall|m: Member| #[trigger]
                    now.matches.contains(m) <==> members.contains(m) && is_prefix(
                        lowercase(typed),
                        lowercase(m.name@),
                    )
            }
            &&& popup_updated(app, channel) == AppView { popup: shown, ..app }
        }),
{
    let data = app.input.data;
    let typed = data.subrange(k, app.input.cursor as int);
    let fits = |m: Member| is_prefix(lowercase(typed), lowercase(m.name@));
    let found = members.filter(fits);
    lemma_byte_len_take_grows(data, k, app.input.cursor as int);
    lemma_starts_at_unique(data, k, popup.at_byte_pos + 1);
    assert(app.input.before().skip(k) =~= typed);
    matching_names_start_with_what_is_typed(members, typed);
    if typed.len() == 0 {
        assert(typed =~= Seq::<char>::empty());
        lemma_everybody_matches_nothing(members);
    }
    assert forall|m: Member| #[trigger] found.contains(m) <==> members.contains(m) && is_prefix(
        lowercase(typed),
        lowercase(m.name@),
    ) by {
        matching_are_those_who_start_so(members, typed, m);
    }
    if found.len() > 0 {
        assert(found.contains(found[0]));
        assert(members.contains(found[0]) && fits(found[0]));
    } else {
        assert forall|m: Member| #[trigger] members.contains(m) implies !fits(m) by {
            assert(!found.contains(m));
        }
    }
}

/// The selected entry of the popup stays selected while there are so many entries. Otherwise the last
/// one is selected, and the first one if none was.
pub proof fn selected_entry_stays(
    app: AppView,
    channel: Option<Channel>,
    popup: MentionPopupView,
    now: MentionPopupView,
)
    requires
        app.popup == Some(popup),
        popup_updated(app, channel).popup == Some(now),
        now.matches.len() <= usize::MAX,
    ensures
        now.matches.len() > 0,
        popup.selected is None ==> now.selected == Some(0usize),
        popup.selected matches Some(i) ==> i < now.matches.len() ==> now.selected == Some(i),
        popup.selected matches Some(i) ==> i >= now.matches.len() ==> now.selected == Some(
            (now.matches.len() - 1) as usize,
        ),
{
}

/// The popup closes when the cursor stands at the `@` or before it, and when nobody can be mentioned.
/// Nothing else changes then, and nothing at all where it is not shown.
pub proof fn popup_closes_before_at(app: AppView, channel: Option<Channel>, popup: MentionPopupView)
    ensures
        app.popup is None ==> popup_updated(app, channel) == app,
        app.popup == Some(popup) && byte_len(app.input.data.take(app.input.cursor as int))
            <= popup.at_byte_pos ==> popup_updated(app, channel) == (AppView { popup: None, ..app }),
        roster(app, channel) is None ==> popup_updated(app, channel) == (AppView {
            popup: None,
            ..app
        }),
{
}

/// The popup can be brought up to date wherever a character starts behind the one that it stands at,
/// and where the cursor is not behind that one.
pub proof fn popup_is_refused_inside_characters(app: AppView, popup: MentionPopupView)
    requires
        app.popup == Some(popup),
    ensures
        popup_can_update(app) <==> byte_len(app.input.data.take(app.input.cursor as int))
            <= popup.at_byte_pos || exists|k: int|
            0 <= k <= app.input.data.len() && byte_len(#[trigger] app.input.data.take(k))
                == popup.at_byte_pos + 1,
{
    let data = app.input.data;
    let n = popup.at_byte_pos + 1;
    if exists|k: int| 0 <= k <= data.len() && byte_len(#[trigger] data.take(k)) == n {
        let k = choose|k: int| 0 <= k <= data.len() && byte_len(#[trigger] data.take(k)) == n;
        assert(starts_at(data, k, n));
    }
    if exists|k: int| #[trigger] starts_at(data, k, n) {
        let k = choose|k: int| #[trigger] starts_at(data, k, n);
        assert(byte_len(data.take(k)) == n);
    }
}

/// The popup opens at the character before the cursor with everybody who can be mentioned, the first
/// of them selected. It does not open where that is nobody.
pub proof fn popup_opens_with_everybody(app: AppView, channel: Option<Channel>)
    requires
        1 <= app.input.idx() <= usize::MAX,
    ensures
        roster(app, channel) matches Some(members) ==> members.len() > 0 ==> popup_opened(app, channel)
            == (AppView {
            popup: Some(
                MentionPopupView {
                    at_byte_pos: (byte_len(app.input.data.take(app.input.cursor as int))
                        - 1) as usize,
                    matches: members,
                    selected: Some(0),
                },
            ),
            ..app
        }),
        roster(app, channel) matches Some(members) ==> members.len() == 0 ==> popup_opened(
            app,
            channel,
        ) == app,
        roster(app, channel) is None ==> popup_opened(app, channel) == app,
{
}

/// Accepting an entry closes the popup and puts the name of the selected member, and a space, in place
/// of the text between the `@` and the cursor. The cursor stands behind the space.
pub proof fn accepting_puts_the_name_in(app: AppView, popup: MentionPopupView, k: int, i: int)
    requires
        app.popup == Some(popup),
        0 <= k <= app.input.cursor <= app.input.data.len(),
        byte_len(app.input.data.take(k)) == popup.at_byte_pos + 1,
        0 <= i < popup.matches.len(),
        popup.selected is None ==> i == 0,
        popup.selected matches Some(selected) ==> i == selected,
    ensures
        ({
            let name = popup.matches[i].name@;
            popup_accepted(app) == AppView {
                popup: None,
                input: InputView {
                    data: app.input.data.take(k) + name + seq![' '] + app.input.data.skip(
                        app.input.cursor as int,
                    ),
                    cursor: (k + name.len() + 1) as nat,
                },
                ..app
            }
        }),
{
    lemma_starts_at_unique(app.input.data, k, popup.at_byte_pos + 1);
    let name = popup.matches[i].name@;
    assert(app.input.data.take(k) + name.push(' ') + app.input.after() =~= app.input.data.take(k)
        + name + seq![' '] + app.input.data.skip(app.input.cursor as int));
}

/// Where no entry is there to accept, the popup just closes, and nothing happens where it is not
/// shown.
pub proof fn accepting_nothing(app: AppView)
    ensures
        app.popup is None ==> popup_accepted(app) == app,
        app.popup matches Some(popup) ==> popup.selected matches Some(i) ==> i >= popup.matches.len()
            ==> popup_accepted(app) == (AppView { popup: None, ..app }),
        app.popup matches Some(popup) ==> popup.matches.len() == 0 ==> popup_accepted(app) == (
        AppView { popup: None, ..app }),
{
}

/// The entry above the selected one is selected next, where there is one, and the entry below it.
/// Where none is selected, the first one counts as selected. Nothing else changes.
pub proof fn neighbours_are_selected(app: AppView, popup: MentionPopupView, i: usize)
    requires
        app.popup == Some(popup),
        popup.selected == Some(i) || popup.selected is None && i == 0,
        popup.matches.len() <= usize::MAX,
    ensures
        i > 0 ==> popup_up(app) == (AppView {
            popup: Some(MentionPopupView { selected: Some((i - 1) as usize), ..popup }),
            ..app
        }),
        i == 0 ==> popup_up(app) == app,
        i + 1 < popup.matches.len() ==> popup_down(app) == (AppView {
            popup: Some(MentionPopupView { selected: Some((i + 1) as usize), ..popup }),
            ..app
        }),
        i + 1 >= popup.matches.len() ==> popup_down(app) == app,
{
}

} // verus!
