//! What can be done with the selected message.

use vstd::prelude::*;

use crate::app::App;
use crate::chat::{ChannelId, Context, Message, MessageId};
use crate::effect::{Effect, OpenTarget};

#[allow(unused_imports)]
use crate::app::AppView;
#[allow(unused_imports)]
use crate::input::InputView;
#[allow(unused_imports)]
use crate::text::lemma_byte_len_at_least;

verus! {

impl AppView {
    /// The selected message of the selected channel.
    pub open spec fn selected_message_id(self) -> Option<MessageId> {
        match self.selected_channel() {
            Some(channel_id) if self.messages.contains_key(channel_id) => match self.messages[channel_id].selected_item() {
                Some(arrived_at) => Some(MessageId { channel_id, arrived_at }),
                None => None,
            },
            _ => None,
        }
    }

    /// The selected message, of which `message` is stored.
    pub open spec fn selected_message(self, message: Option<Message>) -> Option<Message> {
        if self.selected_message_id() is Some {
            message
        } else {
            None
        }
    }
}

/// The text to copy: that of the selected message.
pub open spec fn copied(app: AppView, message: Option<Message>) -> Option<String> {
    match app.selected_message(message) {
        Some(message) => message.message,
        None => None,
    }
}

/// The reaction in the active box. Where the box is empty a reaction is taken back.
pub open spec fn reaction_typed(app: AppView, emoji: Option<String>) -> Option<Option<String>> {
    if app.active().data.len() == 0 {
        Some(None)
    } else {
        match emoji {
            Some(emoji) => Some(Some(emoji)),
            None => None,
        }
    }
}

/// A reaction that is typed in the active box leaves it.
pub open spec fn reaction_taken(app: AppView, emoji: Option<String>) -> AppView {
    if app.active().data.len() > 0 && emoji is Some {
        app.with_active(InputView::empty())
    } else {
        app
    }
}

/// The emoji to react with, given or typed: none inside, if a reaction is to be taken back, and none
/// at all, if what is typed is no reaction.
pub open spec fn chosen_reaction(
    app: AppView,
    reaction: Option<String>,
    emoji: Option<String>,
) -> Option<Option<String>> {
    match reaction {
        Some(reaction) => Some(Some(reaction)),
        None => reaction_typed(app, emoji),
    }
}

/// What a reaction to the selected message asks for. Where it is to be taken back, that is the
/// user's own reaction, if there is one.
pub open spec fn reaction_effects(
    app: AppView,
    channel_idx: usize,
    reaction: Option<String>,
    context: Context,
) -> Option<Seq<Effect>> {
    match (
        chosen_reaction(app, reaction, context.emoji),
        context.channel,
        app.selected_message(context.message),
    ) {
        (Some(chosen), Some(channel), Some(message)) => {
            let message_id = MessageId { channel_id: channel.id, arrived_at: message.arrived_at };
            let remove = chosen is None;
            match (if remove {
                message.reaction_of(app.user_id)
            } else {
                chosen
            }) {
                Some(emoji) => Some(
                    seq![
                        Effect::SendReaction { message_id, emoji, remove },
                        Effect::HandleReaction { message_id, user_id: app.user_id, emoji, remove },
                        Effect::ResetUnreadMessages,
                        Effect::BubbleUpChannel(channel_idx),
                        Effect::ResetMessageSelection,
                    ],
                ),
                None => None,
            }
        },
        _ => None,
    }
}

/// The state after a reaction: what was typed for it is gone.
pub open spec fn reacted(
    app: AppView,
    reaction: Option<String>,
    emoji: Option<String>,
) -> AppView {
    if reaction is Some {
        app
    } else {
        reaction_taken(app, emoji)
    }
}

/// The state in which the selected message is edited. Only a message of the user, and one that has
/// a text, is edited, and only when nothing is typed. The last edit is the one that is edited.
pub open spec fn editing_started(app: AppView, context: Context) -> Option<AppView> {
    match (app.selected_message_id(), context.message) {
        (Some(id), Some(message)) => match message.message {
            Some(text) if app.input.data.len() == 0 && message.from_id == app.user_id => Some(
                AppView {
                    editing: Some(
                        MessageId {
                            channel_id: id.channel_id,
                            arrived_at: context.last_edit.unwrap_or(message.arrived_at),
                        },
                    ),
                    input: InputView { data: text@, cursor: 0 },
                    ..app
                },
            ),
            _ => None,
        },
        _ => None,
    }
}

/// What the deletion of the selected message asks for. Only a message of the user is deleted. One
/// that is marked as deleted already, and one in the user's notes, goes away on the user's own
/// devices; another is deleted for everyone.
pub open spec fn deletion_effects(app: AppView, context: Context) -> Option<Seq<Effect>> {
    match (app.selected_message_id(), context.message, context.channel) {
        (Some(id), Some(message), Some(channel)) => if message.from_id != app.user_id {
            None
        } else if message.deleted || id.channel_id == ChannelId::User(app.user_id) {
            Some(
                seq![
                    Effect::SendDeleteForMe(
                        MessageId { channel_id: channel.id, arrived_at: message.arrived_at },
                    ),
                    Effect::RemoveMessage(id),
                    Effect::RemoveMessageFromView(
                        MessageId { channel_id: id.channel_id, arrived_at: message.arrived_at },
                    ),
                ],
            )
        } else {
            Some(
                seq![
                    Effect::SendDelete(
                        MessageId { channel_id: channel.id, arrived_at: message.arrived_at },
                    ),
                    Effect::DeleteMessage(id),
                ],
            )
        },
        _ => None,
    }
}

/// What opening something of the selected message asks for.
pub open spec fn open_effects(app: AppView, message: Option<Message>, target: OpenTarget) -> Seq<
    Effect,
> {
    if app.selected_message(message) is Some {
        seq![Effect::Open(target)]
    } else {
        Seq::empty()
    }
}

/// What follows an attempt to open `target`. Where there was no link, the attachment is tried.
pub open spec fn after_open_effects(target: OpenTarget, opened: bool) -> Seq<Effect> {
    if opened {
        seq![Effect::ResetMessageSelection]
    } else if target == OpenTarget::UrlOrFile {
        seq![Effect::Open(OpenTarget::File)]
    } else {
        Seq::empty()
    }
}

impl App {
    /// The selected message of the selected channel.
    pub fn selected_message_id(&self) -> (r: Option<MessageId>)
        requires
            self.channels.wf(),
        ensures
            r == self@.selected_message_id(),
    {
        match self.channels.selected_item() {
            Some(channel_id) => match self.messages.get(channel_id) {
                Some(messages) => match messages.selected_item() {
                    Some(arrived_at) => Some(MessageId::new(channel_id, arrived_at)),
                    None => None,
                },
                None => None,
            },
            None => None,
        }
    }

    /// The selected message, of which `message` is stored.
    pub fn selected_message<'a>(&self, message: &'a Option<Message>) -> (r: Option<&'a Message>)
        requires
            self.channels.wf(),
        ensures
            r is Some <==> self@.selected_message(*message) is Some,
            r matches Some(found) ==> *found == self@.selected_message(*message)->0,
    {
        match self.selected_message_id() {
            Some(_) => message.as_ref(),
            None => None,
        }
    }

    /// The text of the selected message, which goes to the clipboard. `message` is what is stored
    /// of that message.
    pub fn copy_selection(&self, message: &Option<Message>) -> (r: Option<String>)
        requires
            self.channels.wf(),
        ensures
            r == copied(self@, *message),
    {
        match self.selected_message(message) {
            Some(message) => match &message.message {
                Some(text) => Some(text.clone()),
                None => None,
            },
            None => None,
        }
    }

    /// Opens the first link of the selected message, or else its first attachment.
    pub fn try_open_url_or_file(&self, message: &Option<Message>) -> (r: Vec<Effect>)
        requires
            self.channels.wf(),
        ensures
            r@ == open_effects(self@, *message, OpenTarget::UrlOrFile),
    {
        self.open_selected(message, OpenTarget::UrlOrFile)
    }

    /// Opens the first link of the selected message.
    pub fn try_open_url(&self, message: &Option<Message>) -> (r: Vec<Effect>)
        requires
            self.channels.wf(),
        ensures
            r@ == open_effects(self@, *message, OpenTarget::Url),
    {
        self.open_selected(message, OpenTarget::Url)
    }

    /// Opens the first attachment of the selected message.
    pub fn try_open_file(&self, message: &Option<Message>) -> (r: Vec<Effect>)
        requires
            self.channels.wf(),
        ensures
            r@ == open_effects(self@, *message, OpenTarget::File),
    {
        self.open_selected(message, OpenTarget::File)
    }

    fn open_selected(&self, message: &Option<Message>, target: OpenTarget) -> (r: Vec<Effect>)
        requires
            self.channels.wf(),
        ensures
            r@ == open_effects(self@, *message, target),
    {
        let mut effects: Vec<Effect> = Vec::new();
        if self.selected_message(message).is_some() {
            effects.push(Effect::Open(target));
        }
        effects
    }

    /// The reaction in the active box, which it leaves. `emoji` is the emoji that the text in the
    /// box stands for. Where the box is empty the reaction is to be taken back.
    pub fn take_reaction(&mut self, emoji: Option<String>) -> (r: Option<Option<String>>)
        ensures
            old(self).wf_but_popup() ==> final(self).wf_but_popup(),
            old(self).wf_but_popup() && old(self)@.popup is None ==> final(self).wf(),
            r == reaction_typed(old(self)@, emoji),
            final(self)@ == reaction_taken(old(self)@, emoji),
    {
        let empty = if self.select_channel.is_shown {
            self.select_channel.input.is_empty()
        } else {
            self.input.is_empty()
        };
        if empty {
            return Some(None);
        }
        match emoji {
            Some(emoji) => {
                self.take_input();
                Some(Some(emoji))
            },
            None => None,
        }
    }

    /// Reacts to the selected message with `reaction`, or else with what the active box holds.
    /// `context` holds what is known of the channel at `channel_idx`.
    pub fn add_reaction(
        &mut self,
        channel_idx: usize,
        reaction: Option<String>,
        context: &Context,
    ) -> (r: Option<Vec<Effect>>)
        requires
            old(self).wf(),
            channel_idx < old(self)@.channels.len(),
        ensures
            final(self).wf_but_popup(),
            old(self)@.popup is None ==> final(self).wf(),
            final(self)@ == reacted(old(self)@, reaction, context.emoji),
            r is Some <==> reaction_effects(old(self)@, channel_idx, reaction, *context) is Some,
            r matches Some(effects) ==> effects@ == reaction_effects(
                old(self)@,
                channel_idx,
                reaction,
                *context,
            )->0,
    {
        let chosen = match reaction {
            Some(reaction) => Some(reaction),
            None => {
                let emoji = match &context.emoji {
                    Some(emoji) => Some(emoji.clone()),
                    None => None,
                };
                match self.take_reaction(emoji) {
                    Some(typed) => typed,
                    None => {
                        return None;
                    },
                }
            },
        };
        assert(Some(chosen) == chosen_reaction(old(self)@, reaction, context.emoji));
        assert(self@.selected_message_id() == old(self)@.selected_message_id());
        let channel_id = match &context.channel {
            Some(channel) => channel.id,
            None => {
                return None;
            },
        };
        let message = match self.selected_message(&context.message) {
            Some(message) => message,
            None => {
                return None;
            },
        };
        let message_id = MessageId::new(channel_id, message.arrived_at);
        let remove = chosen.is_none();
        let emoji = match chosen {
            Some(emoji) => emoji,
            None => match message.find_reaction(self.user_id) {
                Some(emoji) => emoji,
                None => {
                    return None;
                },
            },
        };
        let mut effects: Vec<Effect> = Vec::new();
        effects.push(Effect::SendReaction { message_id, emoji: emoji.clone(), remove });
        effects.push(Effect::HandleReaction { message_id, user_id: self.user_id, emoji, remove });
        effects.push(Effect::ResetUnreadMessages);
        effects.push(Effect::BubbleUpChannel(channel_idx));
        effects.push(Effect::ResetMessageSelection);
        assert(effects@ =~= reaction_effects(old(self)@, channel_idx, reaction, *context)->0);
        Some(effects)
    }

    /// Puts the text of the selected message into the message box to edit it.
    pub fn start_editing(&mut self, context: &Context) -> (r: Option<Effect>)
        requires
            old(self).wf(),
        ensures
            final(self).wf(),
            r == (if editing_started(old(self)@, *context) is Some {
                Some(Effect::MessageBoxEnd)
            } else {
                None
            }),
            final(self)@ == (match editing_started(old(self)@, *context) {
                Some(app) => app,
                None => old(self)@,
            }),
    {
        if !self.input.is_empty() {
            return None;
        }
        let message_id = match self.selected_message_id() {
            Some(message_id) => message_id,
            None => {
                return None;
            },
        };
        let message = match &context.message {
            Some(message) => message,
            None => {
                return None;
            },
        };
        if message.from_id != self.user_id {
            return None;
        }
        let arrived_at: u64 = context.last_edit.unwrap_or(message.arrived_at);
        let text = match &message.message {
            Some(text) => text.clone(),
            None => {
                return None;
            },
        };
        proof {
            assert(self.input.data@ =~= Seq::<char>::empty());
            assert(self.input.data@.take(0) =~= Seq::<char>::empty());
            assert(text@.take(0) =~= Seq::<char>::empty());
            lemma_byte_len_at_least(Seq::<char>::empty());
        }
        self.editing = Some(MessageId::new(message_id.channel_id, arrived_at));
        self.input.data = text;
        Some(Effect::MessageBoxEnd)
    }

    /// Deletes the selected message.
    pub fn delete_selected_message(&self, context: &Context) -> (r: Option<Vec<Effect>>)
        requires
            self.channels.wf(),
        ensures
            r is Some <==> deletion_effects(self@, *context) is Some,
            r matches Some(effects) ==> effects@ == deletion_effects(self@, *context)->0,
    {
        let id = match self.selected_message_id() {
            Some(id) => id,
            None => {
                return None;
            },
        };
        let message = match &context.message {
            Some(message) => message,
            None => {
                return None;
            },
        };
        if message.from_id != self.user_id {
            return None;
        }
        let channel_id = match &context.channel {
            Some(channel) => channel.id,
            None => {
                return None;
            },
        };
        let mut effects: Vec<Effect> = Vec::new();
        let sent_id = MessageId::new(channel_id, message.arrived_at);
        if message.deleted || id.channel_id == ChannelId::User(self.user_id) {
            effects.push(Effect::SendDeleteForMe(sent_id));
            effects.push(Effect::RemoveMessage(id));
            effects.push(
                Effect::RemoveMessageFromView(MessageId::new(id.channel_id, message.arrived_at)),
            );
        } else {
            effects.push(Effect::SendDelete(sent_id));
            effects.push(Effect::DeleteMessage(id));
        }
        assert(effects@ =~= deletion_effects(self@, *context)->0);
        Some(effects)
    }
}

/// What follows an attempt to open `target`, which `opened` tells of.
pub fn after_open(target: OpenTarget, opened: bool) -> (r: Vec<Effect>)
    ensures
        r@ == after_open_effects(target, opened),
{
    let mut effects: Vec<Effect> = Vec::new();
    if opened {
        effects.push(Effect::ResetMessageSelection);
    } else {
        match target {
            OpenTarget::UrlOrFile => {
                effects.push(Effect::Open(OpenTarget::File));
            },
            _ => {},
        }
    }
    effects
}

} // verus!
