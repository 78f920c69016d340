//! What holds of what is done with the selected message.

use vstd::prelude::*;

#[allow(unused_imports)]
use crate::actions::{
    after_open_effects, copied, deletion_effects, editing_started, open_effects, reacted,
    reaction_effects,
};
#[allow(unused_imports)]
use crate::app::AppView;
#[allow(unused_imports)]
use crate::chat::{first_reaction, Channel, ChannelId, Context, Message, MessageId};
#[allow(unused_imports)]
use crate::effect::{Effect, OpenTarget};
#[allow(unused_imports)]
use crate::input::InputView;
#[allow(unused_imports)]
use crate::lists::MessageListView;

verus! {

/// The selected channel is the entry of the list that the selection tells.
pub proof fn selection_tells_the_channel(app: AppView)
    ensures
        app.selected is None ==> app.selected_channel() is None,
        app.selected matches Some(i) ==> app.selected_channel() == Some(app.channels[i as int]),
{
}

/// The messages of the selected channel are counted from the newest one, which is number zero and the
/// last of the list.
pub proof fn messages_are_counted_from_the_newest(app: AppView, i: usize, list: MessageListView, n: int)
    requires
        app.selected == Some(i),
        app.messages.contains_key(app.channels[i as int]),
        app.messages[app.channels[i as int]] == list,
        0 <= n < list.items.len(),
        list.selected matches Some(selected) && selected == list.items.len() - 1 - n,
    ensures
        app.selected_message_id() == Some(
            MessageId { channel_id: app.channels[i as int], arrived_at: list.items[n] },
        ),
{
}

/// No message is selected where no channel is, where the channel has no list, and where nothing in
/// its list is selected, or more than there is.
pub proof fn no_message_is_selected(app: AppView)
    ensures
        app.selected is None ==> app.selected_message_id() is None,
        app.selected matches Some(i) ==> !app.messages.contains_key(app.channels[i as int])
            ==> app.selected_message_id() is None,
        app.selected matches Some(i) ==> app.messages[app.channels[i as int]].selected is None
            ==> app.selected_message_id() is None,
        app.selected matches Some(i) ==> app.messages[app.channels[i as int]].selected matches Some(
            n,
        ) ==> n >= app.messages[app.channels[i as int]].items.len() ==> app.selected_message_id() is None,
{
}

/// A newer message stands behind the others, and the selection counts on.
pub proof fn newer_messages_come_last(list: MessageListView, arrived_at: u64)
    ensures
        list.pushed(arrived_at).items.len() == list.items.len() + 1,
        list.pushed(arrived_at).items.last() == arrived_at,
        list.pushed(arrived_at).items.drop_last() == list.items,
        list.pushed(arrived_at).selected == list.selected,
{
    assert(list.pushed(arrived_at).items.drop_last() =~= list.items);
}

/// What is stored counts just where a message is selected.
pub proof fn stored_message_counts_if_selected(app: AppView, message: Option<Message>)
    ensures
        app.selected_message_id() is None ==> app.selected_message(message) is None,
        app.selected_message_id() is Some ==> app.selected_message(message) == message,
{
}

/// The text of the selected message is copied, if it has one.
pub proof fn text_of_selected_message_is_copied(app: AppView, message: Message)
    ensures
        app.selected_message_id() is Some ==> copied(app, Some(message)) == message.message,
        app.selected_message_id() is None ==> copied(app, Some(message)) is None,
        copied(app, None) is None,
{
}

/// Something of the selected message is opened just where there is one.
pub proof fn selected_message_is_opened(app: AppView, message: Option<Message>, target: OpenTarget)
    ensures
        app.selected_message_id() is Some && message is Some ==> open_effects(app, message, target)
            == seq![Effect::Open(target)],
        app.selected_message_id() is None || message is None ==> open_effects(app, message, target)
            == Seq::<Effect>::empty(),
{
}

/// Once something was opened the selection ends. Where neither link nor attachment is told apart, the
/// attachment is tried after the link, and nothing after that.
pub proof fn attachment_is_tried_after_link(target: OpenTarget)
    ensures
        after_open_effects(target, true) == seq![Effect::ResetMessageSelection],
        after_open_effects(OpenTarget::UrlOrFile, false) == seq![Effect::Open(OpenTarget::File)],
        after_open_effects(OpenTarget::Url, false) == Seq::<Effect>::empty(),
        after_open_effects(OpenTarget::File, false) == Seq::<Effect>::empty(),
{
}

/// A message of the user that is not marked as deleted is deleted for everyone, and marked as
/// deleted, in every channel but the user's notes.
pub proof fn own_messages_are_deleted_for_everyone(
    app: AppView,
    context: Context,
    id: MessageId,
    message: Message,
    channel: Channel,
)
    requires
        app.selected_message_id() == Some(id),
        context.message == Some(message),
        context.channel == Some(channel),
        message.from_id == app.user_id,
        !message.deleted,
        app.channels[app.selected->0 as int] != ChannelId::User(app.user_id),
    ensures
        deletion_effects(app, context) == Some(
            seq![
                Effect::SendDelete(
                    MessageId { channel_id: channel.id, arrived_at: message.arrived_at },
                ),
                Effect::DeleteMessage(id),
            ],
        ),
{
}

/// A message of the user that is marked as deleted, and one in the user's notes, goes away on the
/// user's devices, from the storage and from the list.
pub proof fn notes_are_deleted_on_own_devices(
    app: AppView,
    context: Context,
    id: MessageId,
    message: Message,
    channel: Channel,
)
    requires
        app.selected_message_id() == Some(id),
        context.message == Some(message),
        context.channel == Some(channel),
        message.from_id == app.user_id,
        message.deleted || app.channels[app.selected->0 as int] == ChannelId::User(app.user_id),
    ensures
        deletion_effects(app, context) == Some(
            seq![
                Effect::SendDeleteForMe(
                    MessageId { channel_id: channel.id, arrived_at: message.arrived_at },
                ),
                Effect::RemoveMessage(id),
                Effect::RemoveMessageFromView(
                    MessageId { channel_id: id.channel_id, arrived_at: message.arrived_at },
                ),
            ],
        ),
{
}

/// Only what is marked as deleted and what stands in the user's notes is deleted on the user's
/// devices alone. A message of somebody else is not deleted, nor one without a known channel.
pub proof fn nothing_else_is_deleted(app: AppView, context: Context, id: MessageId)
    ensures
        deletion_effects(app, context) matches Some(effects) && effects.contains(
            Effect::SendDeleteForMe(id),
        ) ==> context.message->0.deleted || app.channels[app.selected->0 as int]
            == ChannelId::User(app.user_id),
        deletion_effects(app, context) matches Some(effects) && effects.contains(
            Effect::SendDelete(id),
        ) ==> !context.message->0.deleted && app.channels[app.selected->0 as int]
            != ChannelId::User(app.user_id),
        deletion_effects(app, context) is Some <==> app.selected_message_id() is Some
            && context.message is Some && context.channel is Some && context.message->0.from_id
            == app.user_id,
{
}

/// A message of the user that has a text is edited if nothing is typed: the text stands in the
/// message box, the cursor before it. What is edited is its last edit, or else the message itself.
pub proof fn own_messages_are_edited(
    app: AppView,
    context: Context,
    id: MessageId,
    message: Message,
    text: String,
)
    requires
        app.selected_message_id() == Some(id),
        context.message == Some(message),
        message.from_id == app.user_id,
        message.message == Some(text),
        app.input.data.len() == 0,
    ensures
        editing_started(app, context) == Some(
            AppView {
                input: InputView { data: text@, cursor: 0 },
                editing: Some(
                    MessageId {
                        channel_id: id.channel_id,
                        arrived_at: if context.last_edit is Some {
                            context.last_edit->0
                        } else {
                            message.arrived_at
                        },
                    },
                ),
                ..app
            },
        ),
{
}

/// No other message is edited, and none while something is typed.
pub proof fn nothing_else_is_edited(app: AppView, context: Context)
    ensures
        app.selected_message_id() is None ==> editing_started(app, context) is None,
        context.message is None ==> editing_started(app, context) is None,
        context.message matches Some(message) ==> message.from_id != app.user_id
            ==> editing_started(app, context) is None,
        context.message matches Some(message) ==> message.message is None ==> editing_started(
            app,
            context,
        ) is None,
        app.input.data.len() > 0 ==> editing_started(app, context) is None,
{
}

/// The reaction of a user is the first one among those to the message.
pub proof fn first_reaction_counts(reactions: Seq<(u128, String)>, id: u128, i: int)
    requires
        0 <= i < reactions.len(),
        reactions[i].0 == id,
        forall|j: int| 0 <= j < i ==> (#[trigger] reactions[j]).0 != id,
    ensures
        first_reaction(reactions, id) == Some(reactions[i].1),
    decreases i,
{
    if i > 0 {
        assert(reactions[0].0 != id);
        let rest = reactions.drop_first();
        assert forall|j: int| 0 <= j < i - 1 implies (#[trigger] rest[j]).0 != id by {
            assert(rest[j] == reactions[j + 1]);
        }
        first_reaction_counts(rest, id, i - 1);
    }
}

/// A user who is not among those who reacted has no reaction.
pub proof fn others_have_no_reaction(reactions: Seq<(u128, String)>, id: u128)
    requires
        forall|j: int| 0 <= j < reactions.len() ==> (#[trigger] reactions[j]).0 != id,
    ensures
        first_reaction(reactions, id) is None,
    decreases reactions.len(),
{
    if reactions.len() > 0 {
        assert(reactions[0].0 != id);
        let rest = reactions.drop_first();
        assert forall|j: int| 0 <= j < rest.len() implies (#[trigger] rest[j]).0 != id by {
            assert(rest[j] == reactions[j + 1]);
        }
        others_have_no_reaction(rest, id);
    }
}

/// A given emoji is sent as a reaction to the selected message and noted as one of the user, whatever
/// is typed. What is typed stays.
pub proof fn given_emoji_is_the_reaction(
    app: AppView,
    channel_idx: usize,
    emoji: String,
    context: Context,
    message: Message,
    channel: Channel,
)
    requires
        app.selected_message_id() is Some,
        context.message == Some(message),
        context.channel == Some(channel),
    ensures
        ({
            let message_id = MessageId { channel_id: channel.id, arrived_at: message.arrived_at };
            reaction_effects(app, channel_idx, Some(emoji), context) == Some(
                seq![
                    Effect::SendReaction { message_id, emoji, remove: false },
                    Effect::HandleReaction {
                        message_id,
                        user_id: app.user_id,
                        emoji,
                        remove: false,
                    },
                    Effect::ResetUnreadMessages,
                    Effect::BubbleUpChannel(channel_idx),
                    Effect::ResetMessageSelection,
                ],
            )
        }),
        reacted(app, Some(emoji), context.emoji) == app,
{
}

/// An emoji that is typed is a reaction like one that is given, and it leaves the box.
pub proof fn typed_emoji_is_the_reaction(
    app: AppView,
    channel_idx: usize,
    emoji: String,
    context: Context,
)
    requires
        context.emoji == Some(emoji),
    ensures
        !app.modal_shown && app.input.data.len() > 0 ==> {
            &&& reaction_effects(app, channel_idx, None, context) == reaction_effects(
                app,
                channel_idx,
                Some(emoji),
                context,
            )
            &&& reacted(app, None, context.emoji) == (AppView {
                input: InputView { data: Seq::empty(), cursor: 0 },
                ..app
            })
        },
        app.modal_shown && app.modal_input.data.len() > 0 ==> {
            &&& reaction_effects(app, channel_idx, None, context) == reaction_effects(
                app,
                channel_idx,
                Some(emoji),
                context,
            )
            &&& reacted(app, None, context.emoji) == (AppView {
                modal_input: InputView { data: Seq::empty(), cursor: 0 },
                ..app
            })
        },
{
}

/// Where nothing is typed, the user's own reaction to the selected message is taken back.
pub proof fn own_reaction_is_taken_back(
    app: AppView,
    channel_idx: usize,
    context: Context,
    message: Message,
    channel: Channel,
)
    requires
        app.selected_message_id() is Some,
        context.message == Some(message),
        context.channel == Some(channel),
        app.active().data.len() == 0,
    ensures
        first_reaction(message.reactions@, app.user_id) matches Some(emoji) ==> {
            let message_id = MessageId { channel_id: channel.id, arrived_at: message.arrived_at };
            reaction_effects(app, channel_idx, None, context) == Some(
                seq![
                    Effect::SendReaction { message_id, emoji, remove: true },
                    Effect::HandleReaction {
                        message_id,
                        user_id: app.user_id,
                        emoji,
                        remove: true,
                    },
                    Effect::ResetUnreadMessages,
                    Effect::BubbleUpChannel(channel_idx),
                    Effect::ResetMessageSelection,
                ],
            )
        },
        first_reaction(message.reactions@, app.user_id) is None ==> reaction_effects(
            app,
            channel_idx,
            None,
            context,
        ) is None,
        reacted(app, None, context.emoji) == app,
{
}

/// Where nothing is typed, a reaction leaves everything as it is, and so does one that is given.
pub proof fn reactions_change_nothing_else(
    app: AppView,
    reaction: Option<String>,
    emoji: Option<String>,
)
    requires
        reaction is Some || app.active().data.len() == 0,
    ensures
        reacted(app, reaction, emoji) == app,
{
}

/// There is no reaction where no message is selected or known, or where the channel is not known.
pub proof fn no_reaction_without_message(
    app: AppView,
    channel_idx: usize,
    reaction: Option<String>,
    context: Context,
)
    requires
        app.selected_message_id() is None || context.message is None || context.channel is None,
    ensures
        reaction_effects(app, channel_idx, reaction, context) is None,
{
}

} // verus!
