//! The commands that keys can be bound to.

use vstd::prelude::*;

verus! {

#[derive(Clone, Copy, PartialEq, Eq, Structural, Debug)]
pub enum MoveDirection {
    Previous,
    Next,
}

#[derive(Clone, Copy, PartialEq, Eq, Structural, Debug)]
pub enum MoveAmountText {
    Character,
    Word,
    Line,
}

#[derive(Clone, Copy, PartialEq, Eq, Structural, Debug)]
pub enum MoveAmountVisual {
    Entry,
}

#[derive(Clone, Copy, PartialEq, Eq, Structural, Debug)]
pub enum DirectionVertical {
    Up,
    Down,
}

#[derive(Clone, Copy, PartialEq, Eq, Structural, Debug)]
pub enum Widget {
    Help,
}

/// The parts of the program in which a key can be bound on its own.
#[derive(Clone, Copy, PartialEq, Eq, Structural, Debug)]
pub enum WindowMode {
    Anywhere,
    Help,
    ChannelModal,
    Multiline,
    MessageSelected,
    Normal,
}

/// What a key can be bound to.
#[derive(Debug)]
pub enum Command {
    Help,
    MoveText(MoveDirection, MoveAmountText),
    SelectMessage(MoveDirection, MoveAmountVisual),
    KillBackwardLine,
    KillWord,
    KillLine,
    KillWholeLine,
    BeginningOfLine,
    EndOfLine,
    CopyMessage,
    EditMessage,
    DeleteMessage,
    SelectChannel(MoveDirection),
    SelectChannelModal(MoveDirection),
    ToggleChannelModal,
    ToggleMultiline,
    /// Reacts to the selected message, with the given emoji or else with the one in the text box.
    React(Option<String>),
    OpenUrl,
    OpenFile,
    DeleteCharacter(MoveDirection),
    Quit,
    Redraw,
    Scroll(Widget, DirectionVertical, MoveAmountVisual),
    ToggleMuteChannel,
    ToggleChannelList,
    OpenEditor,
    NoOp,
}

impl Clone for Command {
    fn clone(&self) -> (r: Command)
        ensures
            r == *self,
    {
        match self {
            Command::Help => Command::Help,
            Command::MoveText(direction, amount) => Command::MoveText(*direction, *amount),
            Command::SelectMessage(direction, amount) => Command::SelectMessage(*direction, *amount),
            Command::KillBackwardLine => Command::KillBackwardLine,
            Command::KillWord => Command::KillWord,
            Command::KillLine => Command::KillLine,
            Command::KillWholeLine => Command::KillWholeLine,
            Command::BeginningOfLine => Command::BeginningOfLine,
            Command::EndOfLine => Command::EndOfLine,
            Command::CopyMessage => Command::CopyMessage,
            Command::EditMessage => Command::EditMessage,
            Command::DeleteMessage => Command::DeleteMessage,
            Command::SelectChannel(direction) => Command::SelectChannel(*direction),
            Command::SelectChannelModal(direction) => Command::SelectChannelModal(*direction),
            Command::ToggleChannelModal => Command::ToggleChannelModal,
            Command::ToggleMultiline => Command::ToggleMultiline,
            Command::React(reaction) => match reaction {
                Some(emoji) => Command::React(Some(emoji.clone())),
                None => Command::React(None),
            },
            Command::OpenUrl => Command::OpenUrl,
            Command::OpenFile => Command::OpenFile,
            Command::DeleteCharacter(direction) => Command::DeleteCharacter(*direction),
            Command::Quit => Command::Quit,
            Command::Redraw => Command::Redraw,
            Command::Scroll(widget, direction, amount) => Command::Scroll(
                *widget,
                *direction,
                *amount,
            ),
            Command::ToggleMuteChannel => Command::ToggleMuteChannel,
            Command::ToggleChannelList => Command::ToggleChannelList,
            Command::OpenEditor => Command::OpenEditor,
            Command::NoOp => Command::NoOp,
        }
    }
}

} // verus!
