//! What a key press asks of the rest of the program.

use vstd::prelude::*;

use crate::chat::{ChannelId, MessageId};

verus! {

/// A change to the active text box.
#[derive(Clone, Copy, PartialEq, Eq, Structural, Debug)]
pub enum Edit {
    MoveBackWord,
    MoveForwardWord,
    MoveLeft,
    MoveLineUp,
    MoveLineDown,
    MoveHome,
    MoveEnd,
    DeleteCharacter,
    DeleteWord,
    DeleteLine,
    DeleteSuffix,
    NewLine,
}

/// What of the selected message to open.
#[derive(Clone, Copy, PartialEq, Eq, Structural, Debug)]
pub enum OpenTarget {
    /// The first link.
    Url,
    /// The first attachment.
    File,
    /// The first link, or the first attachment if there is no link.
    UrlOrFile,
}

/// One thing to do, outside of the state of the input.
#[derive(Debug)]
pub enum Effect {
    Bell,
    ToggleHelp,
    ToggleMuteChannel,
    ToggleChannelList,
    Edit(Edit),
    /// Move the cursor of the message box to the end.
    MessageBoxEnd,
    SelectPreviousMessage,
    SelectNextMessage,
    ResetMessageSelection,
    ResetUnreadMessages,
    SelectPreviousChannel,
    SelectNextChannel,
    /// Move a channel to the top of the list.
    BubbleUpChannel(usize),
    /// Put the draft of the first channel away and that of the second into the message box.
    SwapChannelDraft(Option<ChannelId>, Option<ChannelId>),
    /// Fill the list of the channel popup anew.
    ResetChannelModal,
    SelectPreviousInModal,
    SelectNextInModal,
    SetClipboard(String),
    Open(OpenTarget),
    /// Send what is in the active box to a channel of the list.
    SendInput(usize),
    /// Tell the other users of a reaction.
    SendReaction { message_id: MessageId, emoji: String, remove: bool },
    /// Note a reaction of a user.
    HandleReaction { message_id: MessageId, user_id: u128, emoji: String, remove: bool },
    /// Delete a message for everyone.
    SendDelete(MessageId),
    /// Delete a message on the user's own devices.
    SendDeleteForMe(MessageId),
    /// Mark a message in the storage as deleted.
    DeleteMessage(MessageId),
    /// Remove a message from the storage.
    RemoveMessage(MessageId),
    /// Remove a message from the list of its channel.
    RemoveMessageFromView(MessageId),
}

} // verus!
