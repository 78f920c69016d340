//! The state that key presses read and change.

use vstd::prelude::*;

use crate::chat::{ChannelId, Member, MessageId};
use crate::input::{Input, InputView};
use crate::keys::{KeyBindings, KeyCombination};
use crate::command::{Command, WindowMode};
use crate::lists::{ChannelList, MessageListView, MessageLists};
use crate::text::locate;

#[allow(unused_imports)]
use crate::lists::selected_channel;
#[allow(unused_imports)]
use crate::text::{byte_len, char_boundary};

verus! {

/// How the tab key completes the name of a member.
#[derive(Clone, Copy, PartialEq, Eq, Structural, Debug)]
pub enum MentionCompletionStyle {
    /// Not at all.
    Off,
    /// As far as the matching names agree.
    Readline,
    /// One matching name after the other.
    Cycle,
    /// In a popup, which the tab key is not needed for.
    Menu,
}

/// The popup that offers the members whose names match what is typed behind the `@` at
/// `at_byte_pos`.
#[derive(Debug)]
pub struct MentionPopup {
    pub at_byte_pos: usize,
    pub matches: Vec<Member>,
    pub selected: Option<usize>,
}

#[verifier::ext_equal]
pub struct MentionPopupView {
    pub at_byte_pos: usize,
    pub matches: Seq<Member>,
    pub selected: Option<usize>,
}

impl View for MentionPopup {
    type V = MentionPopupView;

    open spec fn view(&self) -> MentionPopupView {
        MentionPopupView {
            at_byte_pos: self.at_byte_pos,
            matches: self.matches@,
            selected: self.selected,
        }
    }
}

/// The names that the tab key goes through behind the `@` at `at_byte_pos`, and which of them
/// stands there.
#[derive(Debug)]
pub struct MentionCycle {
    pub at_byte_pos: usize,
    pub matches: Vec<String>,
    pub index: usize,
}

#[verifier::ext_equal]
pub struct MentionCycleView {
    pub at_byte_pos: usize,
    pub matches: Seq<String>,
    pub index: usize,
}

impl View for MentionCycle {
    type V = MentionCycleView;

    open spec fn view(&self) -> MentionCycleView {
        MentionCycleView {
            at_byte_pos: self.at_byte_pos,
            matches: self.matches@,
            index: self.index,
        }
    }
}

/// The popup in which a channel is looked for, with its text box and the channel under its cursor.
#[derive(Debug)]
pub struct SelectChannel {
    pub is_shown: bool,
    pub input: Input,
    pub selected_channel_id: Option<ChannelId>,
}

/// The state.
#[derive(Debug)]
pub struct App {
    pub user_id: u128,
    pub input: Input,
    pub select_channel: SelectChannel,
    pub channels: ChannelList,
    pub messages: MessageLists,
    /// The message that is edited.
    pub editing: Option<MessageId>,
    pub mention_completion: MentionCompletionStyle,
    pub mention_popup: Option<MentionPopup>,
    pub mention_cycle: Option<MentionCycle>,
    pub mode_keybindings: KeyBindings,
    pub is_multiline_input: bool,
    pub is_help: bool,
    pub help_scroll: (u16, u16),
    pub should_quit: bool,
    pub should_clear: bool,
    pub open_editor_requested: bool,
}

#[verifier::ext_equal]
pub struct AppView {
    pub user_id: u128,
    pub input: InputView,
    pub modal_shown: bool,
    pub modal_input: InputView,
    pub modal_channel: Option<ChannelId>,
    pub channels: Seq<ChannelId>,
    pub selected: Option<usize>,
    pub messages: Map<ChannelId, MessageListView>,
    pub editing: Option<MessageId>,
    pub mention_completion: MentionCompletionStyle,
    pub popup: Option<MentionPopupView>,
    pub cycle: Option<MentionCycleView>,
    pub bindings: Map<(WindowMode, KeyCombination), Command>,
    pub is_multiline_input: bool,
    pub is_help: bool,
    pub help_scroll: (u16, u16),
    pub should_quit: bool,
    pub should_clear: bool,
    pub open_editor_requested: bool,
}

impl View for App {
    type V = AppView;

    open spec fn view(&self) -> AppView {
        AppView {
            user_id: self.user_id,
            input: self.input@,
            modal_shown: self.select_channel.is_shown,
            modal_input: self.select_channel.input@,
            modal_channel: self.select_channel.selected_channel_id,
            channels: self.channels.items@,
            selected: self.channels.selected,
            messages: self.messages@,
            editing: self.editing,
            mention_completion: self.mention_completion,
            popup: match self.mention_popup {
                Some(popup) => Some(popup@),
                None => None,
            },
            cycle: match self.mention_cycle {
                Some(cycle) => Some(cycle@),
                None => None,
            },
            bindings: self.mode_keybindings@,
            is_multiline_input: self.is_multiline_input,
            is_help: self.is_help,
            help_scroll: self.help_scroll,
            should_quit: self.should_quit,
            should_clear: self.should_clear,
            open_editor_requested: self.open_editor_requested,
        }
    }
}

impl AppView {
    /// The text box that takes what is typed: that of the channel popup while it is shown.
    pub open spec fn active(self) -> InputView {
        if self.modal_shown {
            self.modal_input
        } else {
            self.input
        }
    }

    /// The active text box replaced.
    pub open spec fn with_active(self, input: InputView) -> AppView {
        if self.modal_shown {
            AppView { modal_input: input, ..self }
        } else {
            AppView { input, ..self }
        }
    }

    /// The selected channel.
    pub open spec fn selected_channel(self) -> Option<ChannelId> {
        selected_channel(self.channels, self.selected)
    }

    /// The popup stands behind a character of the message box that is before the cursor, and what
    /// is selected in it is one of its entries.
    pub open spec fn popup_fits(self) -> bool {
        self.popup matches Some(popup) ==> {
            &&& popup.at_byte_pos < self.input.idx()
            &&& char_boundary(self.input.data, popup.at_byte_pos + 1)
            &&& popup.selected matches Some(i) ==> i < popup.matches.len()
        }
    }

    /// The cycle stands at one of its names, and the end of that name can be counted in bytes.
    pub open spec fn cycle_fits(self) -> bool {
        self.cycle matches Some(cycle) ==> {
            &&& cycle.index < cycle.matches.len()
            &&& cycle.at_byte_pos + 1 + byte_len(cycle.matches[cycle.index as int]@) <= usize::MAX
        }
    }
}

impl App {
    /// The parts of the state but the mention popup agree with each other.
    pub open spec fn wf_but_popup(&self) -> bool {
        &&& self.input.wf()
        &&& self.select_channel.input.wf()
        &&& self.channels.wf()
        &&& self@.cycle_fits()
    }

    /// The parts of the state agree with each other.
    pub open spec fn wf(&self) -> bool {
        self.wf_but_popup() && self@.popup_fits()
    }

    /// Whether the parts of the state agree with each other.
    pub fn is_wf(&self) -> (r: bool)
        ensures
            r == self.wf(),
    {
        if !self.input.is_wf() || !self.select_channel.input.is_wf() {
            return false;
        }
        if let Some(i) = self.channels.selected {
            if i >= self.channels.items.len() {
                return false;
            }
        }
        if let Some(popup) = &self.mention_popup {
            if popup.at_byte_pos >= self.input.cursor.idx || locate(
                self.input.data.as_str(),
                popup.at_byte_pos + 1,
            ).is_none() {
                return false;
            }
            if let Some(i) = popup.selected {
                if i >= popup.matches.len() {
                    return false;
                }
            }
        }
        if let Some(cycle) = &self.mention_cycle {
            if cycle.index >= cycle.matches.len() {
                return false;
            }
            let name_len: usize = crate::text::byte_count(cycle.matches[cycle.index].as_str());
            if cycle.at_byte_pos >= usize::MAX - name_len {
                return false;
            }
        }
        true
    }

    /// The text box that takes what is typed.
    pub fn get_input(&mut self) -> (r: &mut Input)
        ensures
            *r == (if old(self).select_channel.is_shown {
                old(self).select_channel.input
            } else {
                old(self).input
            }),
            *final(self) == (if old(self).select_channel.is_shown {
                App {
                    select_channel: SelectChannel {
                        input: *final(r),
                        ..old(self).select_channel
                    },
                    ..*old(self)
                }
            } else {
                App { input: *final(r), ..*old(self) }
            }),
    {
        if self.select_channel.is_shown {
            &mut self.select_channel.input
        } else {
            &mut self.input
        }
    }

    /// Hands out the text of the active box and empties it.
    pub fn take_input(&mut self) -> (r: String)
        ensures
            old(self).wf_but_popup() ==> final(self).wf_but_popup(),
            old(self).wf_but_popup() && old(self)@.popup is None ==> final(self).wf(),
            if old(self).select_channel.is_shown {
                final(self).select_channel.input.wf() && final(self).input == old(self).input
            } else {
                final(self).input.wf() && final(self).select_channel == old(self).select_channel
            },
            r@ == old(self)@.active().data,
            final(self)@ == old(self)@.with_active(InputView::empty()),
    {
        self.get_input().take()
    }

    /// Ends the editing of a message, and empties the active box then. Returns whether a message
    /// was edited.
    pub fn reset_editing(&mut self) -> (r: bool)
        ensures
            old(self).wf_but_popup() ==> final(self).wf_but_popup(),
            old(self).wf_but_popup() && old(self)@.popup is None ==> final(self).wf(),
            r == old(self)@.editing is Some,
            final(self)@ == old(self)@.editing_reset(),
    {
        let is_reset = self.editing.take().is_some();
        if is_reset {
            self.take_input();
        }
        is_reset
    }
}

impl AppView {
    /// No message is edited any more, and what was typed for it is gone.
    pub open spec fn editing_reset(self) -> AppView {
        if self.editing is Some {
            AppView { editing: None, ..self }.with_active(InputView::empty())
        } else {
            self
        }
    }
}

} // verus!
