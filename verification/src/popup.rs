//! The popup that offers members to mention.

use vstd::prelude::*;

use crate::app::{App, MentionPopup};
use crate::chat::{Channel, Member};
use crate::mentions::matching_members;
use crate::text::{locate, skip_chars, take_chars};

#[allow(unused_imports)]
use crate::app::{AppView, MentionPopupView};
#[allow(unused_imports)]
use crate::completion::roster;
#[allow(unused_imports)]
use crate::mentions::matching;
#[allow(unused_imports)]
use crate::text::{char_boundary, chars_before, lemma_byte_len_take_grows, lemma_starts_at_unique};

verus! {

/// The popup with everyone in the selected channel, for the mention whose `@` is before the cursor.
/// It does not open where nobody can be mentioned.
pub open spec fn popup_opened(app: AppView, channel: Option<Channel>) -> AppView {
    match roster(app, channel) {
        Some(members) if members.len() > 0 => AppView {
            popup: Some(
                MentionPopupView {
                    at_byte_pos: (app.input.idx() - 1) as usize,
                    matches: members,
                    selected: Some(0),
                },
            ),
            ..app
        },
        _ => app,
    }
}

/// What is typed of the mention that the popup stands at.
pub open spec fn popup_partial(app: AppView) -> Seq<char> {
    app.input.before().skip(chars_before(app.input.data, app.popup->0.at_byte_pos + 1))
}

/// Those of `members` who are offered when `partial` is typed of the mention: everybody, if nothing
/// is typed.
pub open spec fn offered(members: Seq<Member>, partial: Seq<char>) -> Seq<Member> {
    if partial.len() == 0 {
        members
    } else {
        matching(members, partial)
    }
}

/// The selected entry when `len` entries are left.
pub open spec fn clamped(selected: Option<usize>, len: nat) -> Option<usize> {
    match selected {
        Some(i) => if i >= len {
            Some((len - 1) as usize)
        } else {
            Some(i)
        },
        None => Some(0),
    }
}

/// The popup with those who match what is typed of the mention. It closes when the cursor is no
/// longer behind the `@`, and when nobody matches.
pub open spec fn popup_updated(app: AppView, channel: Option<Channel>) -> AppView {
    let closed = AppView { popup: None, ..app };
    match app.popup {
        None => app,
        Some(popup) => if app.input.idx() <= popup.at_byte_pos {
            closed
        } else {
            match roster(app, channel) {
                None => closed,
                Some(members) => {
                    let found = offered(members, popup_partial(app));
                    if found.len() == 0 {
                        closed
                    } else {
                        AppView {
                            popup: Some(
                                MentionPopupView {
                                    at_byte_pos: popup.at_byte_pos,
                                    matches: found,
                                    selected: clamped(popup.selected, found.len()),
                                },
                            ),
                            ..app
                        }
                    }
                },
            }
        },
    }
}

/// The popup closed, and the name of the selected member with a space behind it in place of what is
/// typed of the mention.
pub open spec fn popup_accepted(app: AppView) -> AppView {
    let closed = AppView { popup: None, ..app };
    match app.popup {
        None => app,
        Some(popup) => {
            let i = popup.selected.unwrap_or(0);
            if i >= popup.matches.len() {
                closed
            } else {
                AppView {
                    input: app.input.replaced_from(
                        chars_before(app.input.data, popup.at_byte_pos + 1),
                        popup.matches[i as int].name@.push(' '),
                    ),
                    ..closed
                }
            }
        },
    }
}

/// The entry above the selected one is selected.
pub open spec fn popup_up(app: AppView) -> AppView {
    match app.popup {
        Some(popup) if popup.selected.unwrap_or(0) > 0 => AppView {
            popup: Some(
                MentionPopupView {
                    selected: Some((popup.selected.unwrap_or(0) - 1) as usize),
                    ..popup
                },
            ),
            ..app
        },
        _ => app,
    }
}

/// The entry below the selected one is selected.
pub open spec fn popup_down(app: AppView) -> AppView {
    match app.popup {
        Some(popup) if popup.selected.unwrap_or(0) + 1 < popup.matches.len() => AppView {
            popup: Some(
                MentionPopupView {
                    selected: Some((popup.selected.unwrap_or(0) + 1) as usize),
                    ..popup
                },
            ),
            ..app
        },
        _ => app,
    }
}

/// If the cursor is behind the character at the popup's position, another character starts there.
pub open spec fn popup_can_update(app: AppView) -> bool {
    app.popup matches Some(popup) ==> popup.at_byte_pos < app.input.idx() ==> char_boundary(
        app.input.data,
        popup.at_byte_pos + 1,
    )
}

impl App {
    /// Opens the popup behind the `@` that was just typed. `channel` is what is known of the
    /// selected channel.
    pub fn open_mention_popup(&mut self, channel: &Option<Channel>)
        requires
            old(self).wf(),
            old(self)@.input.idx() >= 1,
        ensures
            final(self).wf(),
            final(self)@ == popup_opened(old(self)@, *channel),
    {
        let at_byte_pos: usize = self.input.cursor.idx - 1;
        if let Some(matches) = self.mention_roster(channel) {
            if matches.len() > 0 {
                proof {
                    lemma_starts_at_unique(
                        self.input.data@,
                        self.input.cursor.col as int,
                        self.input.cursor.idx as int,
                    );
                }
                self.mention_popup = Some(MentionPopup { at_byte_pos, matches, selected: Some(0) });
            }
        }
    }

    /// Offers those who match what is typed of the mention. `channel` is what is known of the
    /// selected channel.
    pub fn update_mention_popup(&mut self, channel: &Option<Channel>)
        requires
            old(self).wf_but_popup(),
            popup_can_update(old(self)@),
        ensures
            final(self).wf(),
            final(self)@ == popup_updated(old(self)@, *channel),
    {
        let popup = match self.mention_popup.take() {
            Some(popup) => popup,
            None => {
                return ;
            },
        };
        if self.input.cursor.idx <= popup.at_byte_pos {
            return ;
        }
        let before = take_chars(self.input.data.as_str(), self.input.cursor.col);
        let partial = match locate(self.input.data.as_str(), popup.at_byte_pos + 1) {
            Some(k) => {
                proof {
                    if self.input.cursor.col < k {
                        lemma_byte_len_take_grows(
                            self.input.data@,
                            self.input.cursor.col as int,
                            k as int,
                        );
                    }
                }
                skip_chars(before, k)
            },
            None => {
                return ;
            },
        };
        assert(partial@ == popup_partial(old(self)@));
        let members = match self.mention_roster(channel) {
            Some(members) => members,
            None => {
                return ;
            },
        };
        assert(roster(self@, *channel) == roster(old(self)@, *channel));
        let matches = if partial.is_empty() {
            members
        } else {
            matching_members(&members, partial)
        };
        if matches.len() == 0 {
            return ;
        }
        let selected: Option<usize> = match popup.selected {
            Some(i) => {
                if i >= matches.len() {
                    Some(matches.len() - 1)
                } else {
                    Some(i)
                }
            },
            None => Some(0),
        };
        self.mention_popup = Some(MentionPopup { at_byte_pos: popup.at_byte_pos, matches, selected });
    }

    /// Puts the name of the selected member in place of what is typed of the mention, and a space
    /// behind it.
    pub fn accept_mention_popup(&mut self)
        requires
            old(self).wf(),
        ensures
            final(self).wf(),
            final(self)@ == popup_accepted(old(self)@),
    {
        let popup = match self.mention_popup.take() {
            Some(popup) => popup,
            None => {
                return ;
            },
        };
        let selected: usize = popup.selected.unwrap_or(0);
        if selected >= popup.matches.len() {
            return ;
        }
        let mut name_and_space = popup.matches[selected].name.clone();
        name_and_space.push(' ');
        if let Some(k) = locate(self.input.data.as_str(), popup.at_byte_pos + 1) {
            proof {
                if self.input.cursor.col < k {
                    lemma_byte_len_take_grows(
                        self.input.data@,
                        self.input.cursor.col as int,
                        k as int,
                    );
                }
            }
            self.input.replace_from(k, name_and_space.as_str());
        }
    }

    /// Selects the entry above.
    pub fn mention_popup_up(&mut self)
        requires
            old(self).wf(),
        ensures
            final(self).wf(),
            final(self)@ == popup_up(old(self)@),
    {
        if let Some(mut popup) = self.mention_popup.take() {
            let i: usize = popup.selected.unwrap_or(0);
            if i > 0 {
                popup.selected = Some(i - 1);
            }
            self.mention_popup = Some(popup);
        }
    }

    /// Selects the entry below.
    pub fn mention_popup_down(&mut self)
        requires
            old(self).wf(),
        ensures
            final(self).wf(),
            final(self)@ == popup_down(old(self)@),
    {
        if let Some(mut popup) = self.mention_popup.take() {
            let i: usize = popup.selected.unwrap_or(0);
            let len: usize = popup.matches.len();
            if len > 0 && i < len - 1 {
                popup.selected = Some(i + 1);
            }
            self.mention_popup = Some(popup);
        }
    }
}

} // verus!
