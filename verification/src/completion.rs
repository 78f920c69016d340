//! Completing a mention with the tab key.

use vstd::prelude::*;
use vstd::string::StrSliceExecFns;

use crate::app::{App, MentionCycle};
use crate::chat::{Channel, Member};
use crate::mentions::{find_mention, find_shared, lower_beginnings, lower_names, matching_members};
use crate::text::{byte_count, locate, skip_chars, take_chars};

#[allow(unused_imports)]
use crate::app::{AppView, MentionCycleView};
#[allow(unused_imports)]
use crate::input::{lemma_completed, InputView};
#[allow(unused_imports)]
use crate::mentions::{
    lemma_last_shared, lowered_beginnings, lowered_names, shared_len, matching, mention_start,
    opens_mention, typed_name,
};
#[allow(unused_imports)]
use crate::text::{
    byte_len, lemma_byte_len_push, char_boundary, chars_before, from_byte, lemma_boundary_kept,
    lemma_byte_len_concat, lemma_byte_len_one, lemma_byte_len_split, lemma_byte_len_take_grows,
    lemma_byte_len_take_next, starts_at,
};

verus! {

/// What came of the tab key: whether it was meant as a completion, and whether the bell rings.
#[derive(Clone, Copy, PartialEq, Eq, Structural, Debug)]
pub struct Completion {
    pub handled: bool,
    pub bell: bool,
}

/// Who can be mentioned in the selected channel, of which `channel` is known.
pub open spec fn roster(app: AppView, channel: Option<Channel>) -> Option<Seq<Member>> {
    match (app.selected_channel(), channel) {
        (Some(_), Some(channel)) => channel.mentionable(),
        _ => None,
    }
}

/// The names of `members`.
pub open spec fn names(members: Seq<Member>) -> Seq<String> {
    Seq::new(members.len(), |i: int| members[i].name)
}

/// A box as a completion leaves it.
pub struct Completed {
    pub input: InputView,
    pub outcome: Completion,
}

/// The completion of a mention with all of `members` who match what is typed of it, `partial`. One
/// name is completed, with a space behind it; several are completed as far as they agree, which is
/// in `shared` characters of the first. The cursor stands behind what was put in.
pub open spec fn completed_with(
    input: InputView,
    partial: Seq<char>,
    members: Seq<Member>,
    shared: int,
) -> Completed {
    let typed = byte_len(partial) as int;
    let name = members[0].name@;
    if members.len() == 0 {
        Completed { input, outcome: Completion { handled: true, bell: false } }
    } else if members.len() == 1 {
        Completed {
            input: input.completed(from_byte(name, typed).push(' ')),
            outcome: Completion { handled: true, bell: false },
        }
    } else {
        Completed {
            input: if byte_len(name.take(shared)) > typed && char_boundary(name, typed) {
                input.completed(name.subrange(chars_before(name, typed), shared))
            } else {
                input
            },
            outcome: Completion { handled: true, bell: true },
        }
    }
}

/// If one name matches, it can be cut where what is typed of it ends.
pub open spec fn can_complete_with(partial: Seq<char>, members: Seq<Member>) -> bool {
    members.len() == 1 ==> char_boundary(members[0].name@, byte_len(partial) as int)
}

/// The completion of the mention before the cursor as far as the matching names agree.
pub open spec fn readline_completed(app: AppView, channel: Option<Channel>) -> Completed {
    let unhandled = Completed {
        input: app.input,
        outcome: Completion { handled: false, bell: false },
    };
    match mention_start(app.input.before()) {
        None => unhandled,
        Some(start) => {
            let partial = typed_name(app.input.before(), start);
            if partial.len() == 0 {
                Completed { outcome: Completion { handled: true, bell: true }, ..unhandled }
            } else {
                match roster(app, channel) {
                    None => unhandled,
                    Some(members) => {
                        let found = matching(members, partial);
                        completed_with(
                            app.input,
                            partial,
                            found,
                            shared_len(found[0].name@, lowered_names(found)),
                        )
                    },
                }
            }
        },
    }
}

/// If one name matches what is typed, it can be cut where that ends.
pub open spec fn can_complete_readline(app: AppView, channel: Option<Channel>) -> bool {
    mention_start(app.input.before()) matches Some(start) ==> roster(app, channel) matches Some(
        members,
    ) ==> {
        let partial = typed_name(app.input.before(), start);
        let found = matching(members, partial);
        partial.len() > 0 ==> can_complete_with(partial, found)
    }
}

/// A popup still fits when text is put in before the cursor.
pub(crate) proof fn lemma_popup_fits_completed(app: AppView, text: Seq<char>)
    requires
        app.input.cursor <= app.input.data.len(),
        app.popup_fits(),
    ensures
        (AppView { input: app.input.completed(text), ..app }).popup_fits(),
{
    if let Some(popup) = app.popup {
        let new = app.input.completed(text);
        lemma_completed(app.input, text);
        lemma_byte_len_concat(app.input.before(), text);
        assert(new.data.take(app.input.cursor as int) =~= app.input.before());
        lemma_boundary_kept(
            app.input.data,
            new.data,
            app.input.cursor as int,
            popup.at_byte_pos + 1,
        );
    }
}

impl App {
    /// Who can be mentioned in the selected channel.
    pub fn mention_roster(&self, channel: &Option<Channel>) -> (r: Option<Vec<Member>>)
        requires
            self.channels.wf(),
        ensures
            r is Some <==> roster(self@, *channel) is Some,
            r matches Some(members) ==> members@ == roster(self@, *channel)->0,
    {
        match self.channels.selected_item() {
            Some(_) => match channel {
                Some(channel) => channel.mentionable_members(),
                None => None,
            },
            None => None,
        }
    }

    /// Completes the mention before the cursor with `members`, who all match what is typed of it. If
    /// they are several, they agree in `shared` characters of the first one's name.
    pub fn complete_with(
        &mut self,
        partial: &str,
        members: &Vec<Member>,
        shared: usize,
    ) -> (r: Completion)
        requires
            old(self).wf(),
            can_complete_with(partial@, members@),
            members@.len() > 1 ==> shared <= members@[0].name@.len(),
        ensures
            final(self).wf(),
            r == completed_with(
                old(self)@.input,
                partial@,
                members@,
                shared as int,
            ).outcome,
            final(self)@ == (AppView {
                input: completed_with(
                    old(self)@.input,
                    partial@,
                    members@,
                    shared as int,
                ).input,
                ..old(self)@
            }),
    {
        if members.len() == 0 {
            return Completion { handled: true, bell: false };
        }
        let typed: usize = byte_count(partial);
        let name = members[0].name.as_str();
        let found = locate(name, typed);
        if members.len() == 1 {
            let mut rest = String::new();
            if let Some(k) = found {
                rest = skip_chars(name, k).to_owned();
            }
            rest.push(' ');
            proof {
                lemma_popup_fits_completed(self@, rest@);
            }
            self.input.complete(rest.as_str());
            Completion { handled: true, bell: false }
        } else {
            if let Some(k) = found {
                if byte_count(take_chars(name, shared)) > typed {
                    proof {
                        if shared < k {
                            lemma_byte_len_take_grows(name@, shared as int, k as int);
                        }
                    }
                    let rest = name.substring_char(k, shared);
                    proof {
                        lemma_popup_fits_completed(self@, rest@);
                    }
                    self.input.complete(rest);
                }
            }
            Completion { handled: true, bell: true }
        }
    }

    /// Completes the mention before the cursor as far as the matching names of the selected
    /// channel agree. `channel` is what is known of that channel.
    pub fn try_mention_completion(&mut self, channel: &Option<Channel>) -> (r: Completion)
        requires
            old(self).wf(),
            can_complete_readline(old(self)@, *channel),
        ensures
            final(self).wf(),
            r == readline_completed(old(self)@, *channel).outcome,
            final(self)@ == (AppView {
                input: readline_completed(old(self)@, *channel).input,
                ..old(self)@
            }),
    {
        let before = take_chars(self.input.data.as_str(), self.input.cursor.col);
        let start: usize = match find_mention(before) {
            Some(start) => start,
            None => {
                return Completion { handled: false, bell: false };
            },
        };
        let partial = skip_chars(before, start + 1).to_owned();
        if partial.as_str().is_empty() {
            return Completion { handled: true, bell: true };
        }
        let members = match self.mention_roster(channel) {
            Some(members) => members,
            None => {
                return Completion { handled: false, bell: false };
            },
        };
        let found = matching_members(&members, partial.as_str());
        let mut shared: usize = 0;
        if found.len() > 1 {
            let beginnings = lower_beginnings(found[0].name.as_str());
            shared = find_shared(&beginnings, &lower_names(&found));
            proof {
                lemma_last_shared(
                    lowered_beginnings(found@[0].name@),
                    lowered_names(found@),
                );
            }
        }
        self.complete_with(partial.as_str(), &found, shared)
    }
}

/// The cursor stands right behind the name that the cycle put in.
pub open spec fn cycle_continues(app: AppView) -> bool {
    app.cycle matches Some(cycle) && app.input.idx() == cycle.at_byte_pos + 1 + byte_len(
        cycle.matches[cycle.index as int]@,
    )
}

/// The index of the name behind the one at `index`, the first again behind the last.
pub open spec fn next_index(index: int, len: int) -> int {
    (index + 1) % len
}

/// The next name of the cycle in place of the one before the cursor.
pub open spec fn cycle_advanced(app: AppView) -> AppView {
    let cycle = app.cycle->0;
    let index = next_index(cycle.index as int, cycle.matches.len() as int);
    AppView {
        input: app.input.replaced_from(
            chars_before(app.input.data, cycle.at_byte_pos + 1),
            cycle.matches[index]@,
        ),
        cycle: Some(MentionCycleView { index: index as usize, ..cycle }),
        ..app
    }
}

/// The first of the matching names put in behind `partial`, which is typed of it, in the mention
/// whose `@` is byte `at`. A space follows if it is the only one.
pub open spec fn cycle_started(
    app: AppView,
    at: int,
    partial: Seq<char>,
    members: Seq<Member>,
) -> AppView {
    let rest = from_byte(members[0].name@, byte_len(partial) as int);
    AppView {
        input: app.input.completed(
            if members.len() == 1 {
                rest.push(' ')
            } else {
                rest
            },
        ),
        cycle: Some(
            MentionCycleView { at_byte_pos: at as usize, matches: names(members), index: 0 },
        ),
        ..app
    }
}

/// A state as the tab key leaves it when it goes through the matching names.
pub struct CycleStep {
    pub app: AppView,
    pub outcome: Completion,
}

/// The tab key goes on to the next name, or starts with the first one that matches.
pub open spec fn cycled(app: AppView, channel: Option<Channel>) -> CycleStep {
    let idle = AppView { cycle: None, ..app };
    let unhandled = CycleStep { app: idle, outcome: Completion { handled: false, bell: false } };
    if cycle_continues(app) {
        CycleStep {
            app: cycle_advanced(app),
            outcome: Completion { handled: true, bell: false },
        }
    } else {
        match (mention_start(app.input.before()), roster(app, channel)) {
            (Some(start), Some(members)) => {
                let before = app.input.before();
                let partial = typed_name(before, start);
                let found = matching(members, partial);
                if found.len() == 0 {
                    CycleStep { app: idle, outcome: Completion { handled: true, bell: true } }
                } else {
                    CycleStep {
                        app: cycle_started(
                            app,
                            byte_len(before.take(start)) as int,
                            partial,
                            found,
                        ),
                        outcome: Completion { handled: true, bell: false },
                    }
                }
            },
            _ => unhandled,
        }
    }
}

/// The name that would be put in first can be cut where what is typed of it ends.
pub open spec fn can_start_cycle(app: AppView, channel: Option<Channel>) -> bool {
    mention_start(app.input.before()) matches Some(start) ==> roster(app, channel) matches Some(
        members,
    ) ==> {
        let partial = typed_name(app.input.before(), start);
        let found = matching(members, partial);
        found.len() > 0 ==> char_boundary(found[0].name@, byte_len(partial) as int)
    }
}

/// The name that the cycle put in starts at a character of the box, and a cycle that does not go on
/// can start.
pub open spec fn can_cycle(app: AppView, channel: Option<Channel>) -> bool {
    if cycle_continues(app) {
        char_boundary(app.input.data, app.cycle->0.at_byte_pos + 1)
    } else {
        can_start_cycle(app, channel)
    }
}

/// A name put in behind the `@` of a mention ends where its bytes behind the `@` end.
pub(crate) proof fn lemma_name_ends(
    before: Seq<char>,
    start: int,
    name: Seq<char>,
)
    requires
        opens_mention(before, start),
        char_boundary(name, byte_len(typed_name(before, start)) as int),
    ensures
        byte_len(before.take(start)) + 1 + byte_len(name) == byte_len(before) + byte_len(
            from_byte(name, byte_len(typed_name(before, start)) as int),
        ),
        byte_len(before.take(start + 1)) == byte_len(before.take(start)) + 1,
{
    let partial = typed_name(before, start);
    let k = chars_before(name, byte_len(partial) as int);
    assert(starts_at(name, k, byte_len(partial) as int));
    lemma_byte_len_split(name, k);
    lemma_byte_len_split(before, start + 1);
    lemma_byte_len_take_next(before, start);
    lemma_byte_len_one('@');
}

/// The names of `members`.
fn copy_names(members: &Vec<Member>) -> (r: Vec<String>)
    ensures
        r@ == names(members@),
{
    let mut r: Vec<String> = Vec::new();
    let mut i: usize = 0;
    while i < members.len()
        invariant
            i <= members.len(),
            r@.len() == i,
            forall|j: int| 0 <= j < i ==> r@[j] == members@[j].name,
        decreases members.len() - i,
    {
        r.push(members[i].name.clone());
        i = i + 1;
    }
    assert(r@ =~= names(members@));
    r
}

impl App {
    /// Whether the name that matches what is typed can be cut where that ends, if it is the only one.
    pub(crate) fn completes(&self, channel: &Option<Channel>) -> (r: bool)
        requires
            self.wf(),
        ensures
            r == can_complete_readline(self@, *channel),
    {
        let before = take_chars(self.input.data.as_str(), self.input.cursor.col);
        let start: usize = match find_mention(before) {
            Some(start) => start,
            None => {
                return true;
            },
        };
        let partial = skip_chars(before, start + 1);
        let members = match self.mention_roster(channel) {
            Some(members) => members,
            None => {
                return true;
            },
        };
        if partial.is_empty() {
            return true;
        }
        let found = matching_members(&members, partial);
        found.len() != 1 || locate(found[0].name.as_str(), byte_count(partial)).is_some()
    }

    /// Whether the name that would be put in first can be cut where what is typed of it ends.
    pub(crate) fn starts_cycle(&self, channel: &Option<Channel>) -> (r: bool)
        requires
            self.wf_but_popup(),
        ensures
            r == can_start_cycle(self@, *channel),
    {
        let before = take_chars(self.input.data.as_str(), self.input.cursor.col);
        let start: usize = match find_mention(before) {
            Some(start) => start,
            None => {
                return true;
            },
        };
        let partial = skip_chars(before, start + 1);
        let members = match self.mention_roster(channel) {
            Some(members) => members,
            None => {
                return true;
            },
        };
        let found = matching_members(&members, partial);
        found.len() == 0 || locate(found[0].name.as_str(), byte_count(partial)).is_some()
    }

    /// Whether the name that the cycle put in starts at a character of the box.
    pub(crate) fn advances_cycle(&self) -> (r: bool)
        requires
            self.wf_but_popup(),
            self@.cycle is Some,
        ensures
            r == char_boundary(self@.input.data, self@.cycle->0.at_byte_pos + 1),
    {
        match &self.mention_cycle {
            Some(cycle) => locate(self.input.data.as_str(), cycle.at_byte_pos + 1).is_some(),
            None => false,
        }
    }

    /// Whether the cursor stands right behind the name that the cycle put in.
    pub(crate) fn is_cycling(&self) -> (r: bool)
        requires
            self.wf_but_popup(),
        ensures
            r == cycle_continues(self@),
    {
        match &self.mention_cycle {
            Some(cycle) => {
                let name_len: usize = byte_count(cycle.matches[cycle.index].as_str());
                self.input.cursor.idx == cycle.at_byte_pos + 1 + name_len
            },
            None => false,
        }
    }

    /// Puts the next name of the cycle in place of the one before the cursor.
    pub fn advance_cycle(&mut self)
        requires
            old(self).wf_but_popup(),
            cycle_continues(old(self)@),
            char_boundary(old(self)@.input.data, old(self)@.cycle->0.at_byte_pos + 1),
        ensures
            final(self)@ == cycle_advanced(old(self)@),
            final(self).wf_but_popup(),
            old(self)@.popup is None ==> final(self).wf(),
    {
        if let Some(mut cycle) = self.mention_cycle.take() {
            let len: usize = cycle.matches.len();
            let index: usize = (cycle.index + 1) % len;
            let name = cycle.matches[index].as_str();
            if let Some(k) = locate(self.input.data.as_str(), cycle.at_byte_pos + 1) {
                proof {
                    if self.input.cursor.col < k {
                        lemma_byte_len_take_grows(
                            self.input.data@,
                            self.input.cursor.col as int,
                            k as int,
                        );
                    }
                }
                self.input.replace_from(k, name);
                proof {
                    let kept = old(self)@.input.data.take(k as int);
                    assert(self@.input.before() =~= kept + name@);
                    lemma_byte_len_concat(kept, name@);
                }
            }
            cycle.index = index;
            self.mention_cycle = Some(cycle);
        }
    }

    /// Puts the first of `members`, who all match what is typed of the mention whose `@` is the
    /// character `start`, in behind it.
    pub fn start_cycle(&mut self, start: usize, partial: &str, members: &Vec<Member>)
        requires
            old(self).wf_but_popup(),
            opens_mention(old(self)@.input.before(), start as int),
            partial@ == typed_name(old(self)@.input.before(), start as int),
            members@.len() > 0,
            char_boundary(members@[0].name@, byte_len(partial@) as int),
        ensures
            final(self).wf_but_popup(),
            old(self)@.popup_fits() ==> final(self).wf(),
            final(self)@ == cycle_started(
                old(self)@,
                byte_len(old(self)@.input.before().take(start as int)) as int,
                partial@,
                members@,
            ),
    {
        let ghost before = self@.input.before();
        let name = members[0].name.as_str();
        let at_byte_pos: usize = byte_count(take_chars(self.input.data.as_str(), start));
        let mut rest = String::new();
        if let Some(k) = locate(name, byte_count(partial)) {
            rest = skip_chars(name, k).to_owned();
        }
        let ghost tail = rest@;
        proof {
            assert(before.take(start as int) =~= self.input.data@.take(start as int));
            assert(tail == from_byte(name@, byte_len(partial@) as int));
            lemma_name_ends(before, start as int, name@);
        }
        if members.len() == 1 {
            rest.push(' ');
            proof {
                lemma_byte_len_push(tail, ' ');
            }
        }
        proof {
            if self@.popup_fits() {
                lemma_popup_fits_completed(self@, rest@);
            }
            lemma_completed(self@.input, rest@);
            lemma_byte_len_concat(before, rest@);
        }
        self.input.complete(rest.as_str());
        assert(self.input.cursor.idx == byte_len(before + rest@));
        let matches = copy_names(members);
        self.mention_cycle = Some(MentionCycle { at_byte_pos, matches, index: 0 });
    }

    /// Goes through the matching names of the selected channel. The first call puts the first of
    /// them in, the calls that follow put the next one in its place. `channel` is what is known of
    /// that channel.
    pub fn try_mention_completion_cycling(&mut self, channel: &Option<Channel>) -> (r: Completion)
        requires
            old(self).wf_but_popup(),
            can_cycle(old(self)@, *channel),
        ensures
            final(self).wf_but_popup(),
            old(self)@.popup is None ==> final(self).wf(),
            r == cycled(old(self)@, *channel).outcome,
            final(self)@ == cycled(old(self)@, *channel).app,
    {
        if self.is_cycling() {
            self.advance_cycle();
            return Completion { handled: true, bell: false };
        }
        self.mention_cycle = None;
        let before = take_chars(self.input.data.as_str(), self.input.cursor.col);
        let start: usize = match find_mention(before) {
            Some(start) => start,
            None => {
                return Completion { handled: false, bell: false };
            },
        };
        let partial = skip_chars(before, start + 1).to_owned();
        let members = match self.mention_roster(channel) {
            Some(members) => members,
            None => {
                return Completion { handled: false, bell: false };
            },
        };
        let found = matching_members(&members, partial.as_str());
        if found.len() == 0 {
            return Completion { handled: true, bell: true };
        }
        self.start_cycle(start, partial.as_str(), &found);
        Completion { handled: true, bell: false }
    }
}

} // verus!
