//! What holds of the completion of names with the tab key.

use vstd::prelude::*;

#[allow(unused_imports)]
use crate::app::{AppView, MentionCompletionStyle, MentionCycleView};
#[allow(unused_imports)]
use crate::chat::{Channel, Context, Member};
#[allow(unused_imports)]
use crate::completion::{
    can_complete_readline, can_complete_with, can_cycle, completed_with, cycle_continues, cycled,
    names, readline_completed, roster, Completion,
};
#[allow(unused_imports)]
use crate::dispatch::{can_complete, completion_step};
#[allow(unused_imports)]
use crate::input::InputView;
#[allow(unused_imports)]
use crate::laws::popups::matching_names_start_with_what_is_typed;
#[allow(unused_imports)]
use crate::laws::shared_beginning_is_longest;
#[allow(unused_imports)]
use crate::mentions::{
    lowered_names, matching, mention_start, opens_mention, shared_len, starts_all, typed_name,
};
#[allow(unused_imports)]
use crate::text::{
    byte_len, char_boundary, is_prefix, lemma_byte_len_take_grows, lemma_starts_at_unique,
    lowercase, starts_at,
};

verus! {

/// A mention is typed at the end of a text from its last `@` on, if that is the first character or
/// white space stands before it.
pub proof fn mention_starts_at_the_last_at(before: Seq<char>, k: int)
    requires
        0 <= k < before.len(),
        before[k] == '@',
        forall|j: int| k < j < before.len() ==> before[j] != '@',
    ensures
        k == 0 ==> mention_start(before) == Some(k),
        k > 0 && (before[k - 1] == ' ' || before[k - 1] == '\t' || before[k - 1] == '\n' || before[k
            - 1] == '\x0C' || before[k - 1] == '\r') ==> mention_start(before) == Some(k),
        k > 0 && before[k - 1] != ' ' && before[k - 1] != '\t' && before[k - 1] != '\n' && before[k
            - 1] != '\x0C' && before[k - 1] != '\r' ==> mention_start(before) is None,
{
    assert forall|j: int| opens_mention(before, j) implies j == k by {}
    if k == 0 || crate::mentions::ascii_white_space(before[k - 1]) {
        assert(opens_mention(before, k));
    }
}

/// No mention is typed without an `@`.
pub proof fn no_mention_without_at(before: Seq<char>)
    requires
        !before.contains('@'),
    ensures
        mention_start(before) is None,
{
    if exists|k: int| opens_mention(before, k) {
        let k = choose|k: int| opens_mention(before, k);
        assert(before.contains(before[k]));
    }
}

proof fn lemma_typed(input: InputView, start: int)
    requires
        input.cursor <= input.data.len(),
        mention_start(input.before()) == Some(start),
    ensures
        0 <= start < input.cursor,
        opens_mention(input.before(), start),
        typed_name(input.before(), start) == input.data.subrange(start + 1, input.cursor as int),
        input.before().take(start) == input.data.take(start),
{
    assert(exists|k: int| opens_mention(input.before(), k));
    assert(opens_mention(input.before(), start));
    assert(typed_name(input.before(), start) =~= input.data.subrange(
        start + 1,
        input.cursor as int,
    ));
    assert(input.before().take(start) =~= input.data.take(start));
}

/// Without a mention before the cursor the tab key is not taken for a completion.
pub proof fn no_completion_without_mention(app: AppView, channel: Option<Channel>)
    requires
        mention_start(app.input.before()) is None,
    ensures
        readline_completed(app, channel).input == app.input,
        readline_completed(app, channel).outcome == (Completion { handled: false, bell: false }),
        can_complete_readline(app, channel),
{
}

/// Where nothing is typed behind the `@`, nothing is completed and the bell rings, whoever can be
/// mentioned.
pub proof fn bell_rings_behind_bare_at(app: AppView, channel: Option<Channel>, start: int)
    requires
        app.input.cursor <= app.input.data.len(),
        mention_start(app.input.before()) == Some(start),
        start + 1 == app.input.cursor,
    ensures
        readline_completed(app, channel).input == app.input,
        readline_completed(app, channel).outcome == (Completion { handled: true, bell: true }),
        can_complete_readline(app, channel),
{
    lemma_typed(app.input, start);
}

/// Where a name is typed and nobody can be mentioned, the tab key is not taken for a completion.
pub proof fn no_completion_without_members(app: AppView, channel: Option<Channel>, start: int)
    requires
        app.input.cursor <= app.input.data.len(),
        mention_start(app.input.before()) == Some(start),
        start + 1 < app.input.cursor,
        roster(app, channel) is None,
    ensures
        readline_completed(app, channel).input == app.input,
        readline_completed(app, channel).outcome == (Completion { handled: false, bell: false }),
        can_complete_readline(app, channel),
{
    lemma_typed(app.input, start);
}

/// Where no name starts with what is typed, nothing is completed, and the bell does not ring.
pub proof fn nothing_is_completed_without_match(
    app: AppView,
    channel: Option<Channel>,
    start: int,
    members: Seq<Member>,
)
    requires
        app.input.cursor <= app.input.data.len(),
        mention_start(app.input.before()) == Some(start),
        start + 1 < app.input.cursor,
        roster(app, channel) == Some(members),
        forall|m: Member| #[trigger]
            members.contains(m) ==> !is_prefix(
                lowercase(app.input.data.subrange(start + 1, app.input.cursor as int)),
                lowercase(m.name@),
            ),
    ensures
        readline_completed(app, channel).input == app.input,
        readline_completed(app, channel).outcome == (Completion { handled: true, bell: false }),
        can_complete_readline(app, channel),
{
    lemma_typed(app.input, start);
    let typed = app.input.data.subrange(start + 1, app.input.cursor as int);
    let found = matching(members, typed);
    if found.len() > 0 {
        crate::laws::matching_are_those_who_start_so(members, typed, found[0]);
        assert(found.contains(found[0]));
    }
}

/// Where one name starts with what is typed, the rest of it and a space are put in at the cursor. The
/// rest is what is behind as many bytes of the name as are typed.
pub proof fn one_match_is_completed(
    app: AppView,
    channel: Option<Channel>,
    start: int,
    members: Seq<Member>,
    name: Seq<char>,
    k: int,
)
    requires
        app.input.cursor <= app.input.data.len(),
        mention_start(app.input.before()) == Some(start),
        start + 1 < app.input.cursor,
        roster(app, channel) == Some(members),
        ({
            let typed = app.input.data.subrange(start + 1, app.input.cursor as int);
            let found = members.filter(
                |m: Member| is_prefix(lowercase(typed), lowercase(m.name@)),
            );
            &&& found.len() == 1
            &&& found[0].name@ == name
            &&& 0 <= k <= name.len()
            &&& byte_len(name.take(k)) == byte_len(typed)
        }),
    ensures
        can_complete_readline(app, channel),
        readline_completed(app, channel).outcome == (Completion { handled: true, bell: false }),
        readline_completed(app, channel).input == (InputView {
            data: app.input.data.take(app.input.cursor as int) + name.skip(k) + seq![' ']
                + app.input.data.skip(app.input.cursor as int),
            cursor: (app.input.cursor + (name.len() - k) + 1) as nat,
        }),
{
    lemma_typed(app.input, start);
    let typed = app.input.data.subrange(start + 1, app.input.cursor as int);
    matching_names_start_with_what_is_typed(members, typed);
    lemma_starts_at_unique(name, k, byte_len(typed) as int);
    assert(app.input.before() + name.skip(k).push(' ') + app.input.after()
        =~= app.input.data.take(app.input.cursor as int) + name.skip(k) + seq![' ']
        + app.input.data.skip(app.input.cursor as int));
}

/// The completion in this style is refused only where one name matches and no character of it starts
/// where what is typed ends.
pub proof fn only_names_that_cannot_be_cut_are_refused(
    app: AppView,
    channel: Option<Channel>,
    start: int,
    members: Seq<Member>,
)
    requires
        app.input.cursor <= app.input.data.len(),
        mention_start(app.input.before()) == Some(start),
        start + 1 < app.input.cursor,
        roster(app, channel) == Some(members),
    ensures
        ({
            let typed = app.input.data.subrange(start + 1, app.input.cursor as int);
            let found = members.filter(
                |m: Member| is_prefix(lowercase(typed), lowercase(m.name@)),
            );
            can_complete_readline(app, channel) <==> (found.len() == 1 ==> exists|k: int|
                0 <= k <= found[0].name@.len() && byte_len(#[trigger] found[0].name@.take(k))
                    == byte_len(typed))
        }),
{
    lemma_typed(app.input, start);
    let typed = app.input.data.subrange(start + 1, app.input.cursor as int);
    matching_names_start_with_what_is_typed(members, typed);
    let found = matching(members, typed);
    let name = found[0].name@;
    crate::laws::boxes::no_cuts_inside_characters(name, byte_len(typed) as int);
}

/// Where several names start with what is typed, the bell rings. If they agree in more than is typed,
/// the first of them is put in as far as they agree: up to character `n`, where its first `n`
/// characters are the longest beginning that all of them start with, whatever the case of the letters.
pub proof fn several_matches_are_completed_as_far_as_they_agree(
    app: AppView,
    channel: Option<Channel>,
    start: int,
    members: Seq<Member>,
    name: Seq<char>,
    n: int,
)
    requires
        app.input.cursor <= app.input.data.len(),
        mention_start(app.input.before()) == Some(start),
        start + 1 < app.input.cursor,
        roster(app, channel) == Some(members),
        ({
            let typed = app.input.data.subrange(start + 1, app.input.cursor as int);
            let found = members.filter(
                |m: Member| is_prefix(lowercase(typed), lowercase(m.name@)),
            );
            &&& found.len() > 1
            &&& found[0].name@ == name
            &&& 0 <= n <= name.len()
            &&& forall|i: int|
                0 <= i < found.len() ==> is_prefix(
                    lowercase(name.take(n)),
                    lowercase((#[trigger] found[i]).name@),
                )
            &&& forall|j: int|
                n < j <= name.len() ==> exists|i: int|
                    0 <= i < found.len() && !is_prefix(
                        lowercase(#[trigger] name.take(j)),
                        lowercase((#[trigger] found[i]).name@),
                    )
        }),
    ensures
        can_complete_readline(app, channel),
        readline_completed(app, channel).outcome == (Completion { handled: true, bell: true }),
        forall|k: int|
            0 <= k <= n && #[trigger] byte_len(name.take(k)) == byte_len(
                app.input.data.subrange(start + 1, app.input.cursor as int),
            ) ==> readline_completed(app, channel).input == (InputView {
                data: app.input.data.take(app.input.cursor as int) + name.subrange(k, n)
                    + app.input.data.skip(app.input.cursor as int),
                cursor: (app.input.cursor + (n - k)) as nat,
            }),
        byte_len(name.take(n)) <= byte_len(
            app.input.data.subrange(start + 1, app.input.cursor as int),
        ) ==> readline_completed(app, channel).input == app.input,
        (forall|k: int|
            0 <= k <= name.len() ==> #[trigger] byte_len(name.take(k)) != byte_len(
                app.input.data.subrange(start + 1, app.input.cursor as int),
            )) ==> readline_completed(app, channel).input == app.input,
{
    lemma_typed(app.input, start);
    let typed = app.input.data.subrange(start + 1, app.input.cursor as int);
    matching_names_start_with_what_is_typed(members, typed);
    let found = matching(members, typed);
    let lowered = lowered_names(found);
    shared_beginning_is_longest(name, lowered);
    assert forall|i: int| 0 <= i < found.len() implies #[trigger] lowered[i] == lowercase(
        found[i].name@,
    ) by {}
    assert(starts_all(lowercase(name.take(n)), lowered)) by {
        assert forall|i: int| 0 <= i < lowered.len() implies is_prefix(
            lowercase(name.take(n)),
            #[trigger] lowered[i],
        ) by {
            assert(lowered[i] == lowercase(found[i].name@));
        }
    }
    let shared = shared_len(name, lowered);
    assert(n <= shared);
    if n < shared {
        let i = choose|i: int|
            0 <= i < found.len() && !is_prefix(
                lowercase(name.take(shared)),
                lowercase((#[trigger] found[i]).name@),
            );
        assert(lowered[i] == lowercase(found[i].name@));
        assert(!starts_all(lowercase(name.take(shared)), lowered));
    }
    assert(shared == n);
    assert forall|k: int|
        0 <= k <= n && #[trigger] byte_len(name.take(k)) == byte_len(
            typed,
        ) implies readline_completed(app, channel).input == (InputView {
        data: app.input.data.take(app.input.cursor as int) + name.subrange(k, n)
            + app.input.data.skip(app.input.cursor as int),
        cursor: (app.input.cursor + (n - k)) as nat,
    }) by {
        lemma_starts_at_unique(name, k, byte_len(typed) as int);
        lemma_byte_len_take_grows(name, k, n);
        if k == n {
            assert(name.subrange(k, n) =~= Seq::<char>::empty());
            assert(app.input.data.take(app.input.cursor as int) + name.subrange(k, n)
                + app.input.data.skip(app.input.cursor as int) =~= app.input.data);
        }
    }
    if forall|k: int|
        0 <= k <= name.len() ==> #[trigger] byte_len(name.take(k)) != byte_len(typed) {
        if char_boundary(name, byte_len(typed) as int) {
            let k = choose|k: int| #[trigger] starts_at(name, k, byte_len(typed) as int);
            assert(byte_len(name.take(k)) == byte_len(typed));
        }
    }
}

/// Names are completed as far as is told, if that is further than what is typed and the first of them
/// can be cut where that ends. Otherwise the text stays. The bell rings for several names.
pub proof fn text_stays_where_names_agree_in_no_more(
    input: InputView,
    partial: Seq<char>,
    members: Seq<Member>,
    shared: int,
)
    ensures
        members.len() == 0 ==> completed_with(input, partial, members, shared).input == input,
        members.len() > 1 && (byte_len(members[0].name@.take(shared)) <= byte_len(partial)
            || !char_boundary(members[0].name@, byte_len(partial) as int)) ==> completed_with(
            input,
            partial,
            members,
            shared,
        ).input == input,
        completed_with(input, partial, members, shared).outcome == (Completion {
            handled: true,
            bell: members.len() > 1,
        }),
        can_complete_with(partial, members) <==> members.len() != 1 || char_boundary(
            members[0].name@,
            byte_len(partial) as int,
        ),
{
}

/// A cycle goes on where the cursor stands behind the name that it put in, and nowhere else.
pub proof fn cycle_goes_on_behind_its_name(app: AppView, cycle: MentionCycleView)
    ensures
        app.cycle is None ==> !cycle_continues(app),
        app.cycle == Some(cycle) ==> (cycle_continues(app) <==> byte_len(
            app.input.data.take(app.input.cursor as int),
        ) == cycle.at_byte_pos + 1 + byte_len(cycle.matches[cycle.index as int]@)),
{
}

/// The next tab puts the next name in place of the text between the `@` and the cursor, the first one
/// again behind the last. Nothing else changes.
pub proof fn next_name_is_put_in(
    app: AppView,
    channel: Option<Channel>,
    cycle: MentionCycleView,
    k: int,
)
    requires
        app.cycle == Some(cycle),
        cycle.index < cycle.matches.len() <= usize::MAX,
        app.input.cursor <= app.input.data.len(),
        byte_len(app.input.data.take(app.input.cursor as int)) == cycle.at_byte_pos + 1 + byte_len(
            cycle.matches[cycle.index as int]@,
        ),
        0 <= k <= app.input.cursor,
        byte_len(app.input.data.take(k)) == cycle.at_byte_pos + 1,
    ensures
        can_cycle(app, channel),
        cycled(app, channel).outcome == (Completion { handled: true, bell: false }),
        ({
            let next = if cycle.index + 1 == cycle.matches.len() {
                0usize
            } else {
                (cycle.index + 1) as usize
            };
            let name = cycle.matches[next as int]@;
            cycled(app, channel).app == AppView {
                input: InputView {
                    data: app.input.data.take(k) + name + app.input.data.skip(
                        app.input.cursor as int,
                    ),
                    cursor: (k + name.len()) as nat,
                },
                cycle: Some(
                    MentionCycleView {
                        at_byte_pos: cycle.at_byte_pos,
                        matches: cycle.matches,
                        index: next,
                    },
                ),
                ..app
            }
        }),
{
    lemma_starts_at_unique(app.input.data, k, cycle.at_byte_pos + 1);
    let len = cycle.matches.len() as int;
    if cycle.index + 1 == len {
        vstd::arithmetic::div_mod::lemma_mod_self_0(len);
    } else {
        vstd::arithmetic::div_mod::lemma_small_mod((cycle.index + 1) as nat, len as nat);
    }
}

/// Where no cycle goes on and no mention is typed, or nobody can be mentioned, the tab key is not
/// taken for a completion. No cycle is left.
pub proof fn no_cycle_without_mention(app: AppView, channel: Option<Channel>)
    requires
        !cycle_continues(app),
        mention_start(app.input.before()) is None || roster(app, channel) is None,
    ensures
        can_cycle(app, channel),
        cycled(app, channel).app == (AppView { cycle: None, ..app }),
        cycled(app, channel).outcome == (Completion { handled: false, bell: false }),
{
}

/// Where no cycle goes on and no name starts with what is typed, the bell rings. No cycle is left.
pub proof fn bell_rings_without_match(
    app: AppView,
    channel: Option<Channel>,
    start: int,
    members: Seq<Member>,
)
    requires
        !cycle_continues(app),
        app.input.cursor <= app.input.data.len(),
        mention_start(app.input.before()) == Some(start),
        roster(app, channel) == Some(members),
        forall|m: Member| #[trigger]
            members.contains(m) ==> !is_prefix(
                lowercase(app.input.data.subrange(start + 1, app.input.cursor as int)),
                lowercase(m.name@),
            ),
    ensures
        can_cycle(app, channel),
        cycled(app, channel).app == (AppView { cycle: None, ..app }),
        cycled(app, channel).outcome == (Completion { handled: true, bell: true }),
{
    lemma_typed(app.input, start);
    let typed = app.input.data.subrange(start + 1, app.input.cursor as int);
    let found = matching(members, typed);
    if found.len() > 0 {
        crate::laws::matching_are_those_who_start_so(members, typed, found[0]);
        assert(found.contains(found[0]));
    }
}

/// Where no cycle goes on, the rest of the first name that starts with what is typed is put in at the
/// cursor, with a space behind it if no other name does. The cycle stands at the first of the names
/// that start so, behind the `@`.
pub proof fn first_name_is_put_in(
    app: AppView,
    channel: Option<Channel>,
    start: int,
    members: Seq<Member>,
    name: Seq<char>,
    k: int,
)
    requires
        !cycle_continues(app),
        app.input.cursor <= app.input.data.len(),
        byte_len(app.input.data.take(app.input.cursor as int)) <= usize::MAX,
        mention_start(app.input.before()) == Some(start),
        roster(app, channel) == Some(members),
        ({
            let typed = app.input.data.subrange(start + 1, app.input.cursor as int);
            let found = members.filter(
                |m: Member| is_prefix(lowercase(typed), lowercase(m.name@)),
            );
            &&& found.len() > 0
            &&& found[0].name@ == name
            &&& 0 <= k <= name.len()
            &&& byte_len(name.take(k)) == byte_len(typed)
        }),
    ensures
        can_cycle(app, channel),
        cycled(app, channel).outcome == (Completion { handled: true, bell: false }),
        ({
            let typed = app.input.data.subrange(start + 1, app.input.cursor as int);
            let found = members.filter(
                |m: Member| is_prefix(lowercase(typed), lowercase(m.name@)),
            );
            let put = if found.len() == 1 {
                name.skip(k) + seq![' ']
            } else {
                name.skip(k)
            };
            let new = cycled(app, channel).app;
            &&& new.input == InputView {
                data: app.input.data.take(app.input.cursor as int) + put + app.input.data.skip(
                    app.input.cursor as int,
                ),
                cursor: app.input.cursor + put.len(),
            }
            &&& new.cycle matches Some(cycle) && {
                &&& cycle.at_byte_pos == byte_len(app.input.data.take(start))
                &&& cycle.index == 0
                &&& cycle.matches.len() == found.len()
                &&& forall|i: int|
                    0 <= i < found.len() ==> #[trigger] cycle.matches[i] == found[i].name
            }
            &&& new == AppView { input: new.input, cycle: new.cycle, ..app }
        }),
{
    lemma_typed(app.input, start);
    let typed = app.input.data.subrange(start + 1, app.input.cursor as int);
    matching_names_start_with_what_is_typed(members, typed);
    lemma_starts_at_unique(name, k, byte_len(typed) as int);
    assert(name.skip(k).push(' ') =~= name.skip(k) + seq![' ']);
    lemma_byte_len_take_grows(app.input.data, start, app.input.cursor as int);
    let new = cycled(app, channel).app;
    assert(new.cycle->0.matches == names(matching(members, typed)));
}

/// The completion in this style is refused only where the name that is to be put in cannot be cut, or
/// where no character of the box starts behind the `@` of the cycle.
pub proof fn only_cuts_inside_characters_are_refused(
    app: AppView,
    channel: Option<Channel>,
    start: int,
    members: Seq<Member>,
)
    requires
        app.input.cursor <= app.input.data.len(),
    ensures
        cycle_continues(app) ==> (can_cycle(app, channel) <==> exists|k: int|
            0 <= k <= app.input.data.len() && byte_len(#[trigger] app.input.data.take(k))
                == app.cycle->0.at_byte_pos + 1),
        !cycle_continues(app) && mention_start(app.input.before()) == Some(start) && roster(
            app,
            channel,
        ) == Some(members) ==> {
            let typed = app.input.data.subrange(start + 1, app.input.cursor as int);
            let found = members.filter(
                |m: Member| is_prefix(lowercase(typed), lowercase(m.name@)),
            );
            can_cycle(app, channel) <==> (found.len() > 0 ==> exists|k: int|
                0 <= k <= found[0].name@.len() && byte_len(#[trigger] found[0].name@.take(k))
                    == byte_len(typed))
        },
{
    if cycle_continues(app) {
        crate::laws::boxes::no_cuts_inside_characters(
            app.input.data,
            app.cycle->0.at_byte_pos + 1,
        );
    } else if mention_start(app.input.before()) == Some(start) {
        lemma_typed(app.input, start);
        let typed = app.input.data.subrange(start + 1, app.input.cursor as int);
        matching_names_start_with_what_is_typed(members, typed);
        let found = matching(members, typed);
        crate::laws::boxes::no_cuts_inside_characters(found[0].name@, byte_len(typed) as int);
    }
}

/// The style tells how a mention is completed: as far as the names agree, one name after the other, or
/// not at all by the tab key.
pub proof fn style_tells_the_completion(app: AppView, context: Context)
    ensures
        app.mention_completion == MentionCompletionStyle::Readline ==> {
            let step = completion_step(app, context);
            &&& step.app == AppView {
                input: readline_completed(app, context.channel).input,
                ..app
            }
            &&& step.outcome == readline_completed(app, context.channel).outcome
            &&& can_complete(app, context) <==> can_complete_readline(app, context.channel)
        },
        app.mention_completion == MentionCompletionStyle::Cycle ==> {
            let step = completion_step(app, context);
            &&& step.app == cycled(app, context.channel).app
            &&& step.outcome == cycled(app, context.channel).outcome
            &&& can_complete(app, context) <==> can_cycle(app, context.channel)
        },
        app.mention_completion == MentionCompletionStyle::Menu || app.mention_completion
            == MentionCompletionStyle::Off ==> {
            let step = completion_step(app, context);
            &&& step.app == app
            &&& step.outcome == (Completion { handled: false, bell: false })
            &&& can_complete(app, context)
        },
{
}

} // verus!
