//! What holds of the messages that are sent.

use vstd::prelude::*;

#[allow(unused_imports)]
use crate::app::AppView;
#[allow(unused_imports)]
use crate::attachments::{clean_text, linked_paths};
#[allow(unused_imports)]
use crate::body::{body_ranges, pieces, written_text, AssociatedValue, BodyRange, Piece};
#[allow(unused_imports)]
use crate::chat::{Channel, ChannelId, Member, Message, MessageId};
#[allow(unused_imports)]
use crate::effect::Effect;
#[allow(unused_imports)]
use crate::input::InputView;
#[allow(unused_imports)]
use crate::send::{composed, listed, sent_effects, stored_as, taken, Outgoing, Store};
#[allow(unused_imports)]
use crate::text::{is_ascii_text, trimmed_end, trimmed_start, white_space};

verus! {

/// What is sent is what the active box holds, without its links, its mentions found among the members
/// of a group, or as mentions of the user of a conversation with one. Where nobody is known to be
/// mentioned, it is sent as it is. This holds of an edit, of a quote and of any other message.
pub proof fn text_is_that_of_the_active_box(
    app: AppView,
    channel_idx: int,
    matches: Seq<(usize, usize)>,
    channel: Channel,
    message: Option<Message>,
)
    ensures
        ({
            let sent = composed(app, channel_idx, matches, channel, message);
            let text = clean_text(
                if app.modal_shown {
                    app.modal_input.data
                } else {
                    app.input.data
                },
                matches,
            );
            &&& channel.group_members matches Some(members) ==> sent.text == written_text(
                pieces(text, members@),
            ) && sent.body_ranges == body_ranges(pieces(text, members@))
            &&& channel.group_members is None && channel.id is User ==> {
                let members = seq![Member { id: channel.id->User_0, name: channel.peer_name }];
                &&& sent.text == written_text(pieces(text, members))
                &&& sent.body_ranges == body_ranges(pieces(text, members))
            }
            &&& channel.group_members is None && channel.id is Group ==> sent.text == text
                && sent.body_ranges == Seq::<BodyRange>::empty()
        }),
{
    crate::body::lemma_plain_pieces(clean_text(app.active().data, matches));
}

/// The text, the mentions and the attachments that are sent depend on the text in the active box alone,
/// and not on what is selected, quoted or edited.
pub proof fn text_does_not_depend_on_the_selection(
    a: AppView,
    b: AppView,
    to_a: int,
    to_b: int,
    matches: Seq<(usize, usize)>,
    channel: Channel,
    message_a: Option<Message>,
    message_b: Option<Message>,
)
    requires
        a.active().data == b.active().data,
    ensures
        ({
            let sent_a = composed(a, to_a, matches, channel, message_a);
            let sent_b = composed(b, to_b, matches, channel, message_b);
            &&& sent_a.text == sent_b.text
            &&& sent_a.body_ranges == sent_b.body_ranges
            &&& sent_a.paths == sent_b.paths
        }),
{
    text_is_that_of_the_active_box(a, to_a, matches, channel, message_a);
    text_is_that_of_the_active_box(b, to_b, matches, channel, message_b);
}

/// A message goes to the channel of the list that is told, and what its links name is attached. It
/// quotes the selected message, unless it is an edit. An edit is one of the message that is edited.
pub proof fn message_goes_to_its_channel(
    app: AppView,
    channel_idx: int,
    matches: Seq<(usize, usize)>,
    channel: Channel,
    message: Option<Message>,
)
    ensures
        ({
            let sent = composed(app, channel_idx, matches, channel, message);
            &&& sent.channel_id == app.channels[channel_idx]
            &&& sent.paths == linked_paths(
                if app.modal_shown {
                    app.modal_input.data
                } else {
                    app.input.data
                },
                matches,
            )
            &&& sent.quotes <==> app.editing is None && app.selected_message_id() is Some && message
                is Some
            &&& app.editing is None ==> sent.edited is None
            &&& app.editing matches Some(id) ==> sent.edited == Some(id.arrived_at)
        }),
{
}

/// In ASCII, an `@` and the name of the user that the conversation is with, and nothing else in the
/// box, is sent as one placeholder with one range, whether a message is selected or edited or not.
pub proof fn name_alone_is_sent_as_placeholder(
    app: AppView,
    channel_idx: int,
    channel: Channel,
    message: Option<Message>,
    m: Member,
)
    requires
        app.active().data == seq!['@'] + m.name@,
        is_ascii_text(m.name@),
        m.name@.len() > 0 ==> !white_space(m.name@.last()),
        channel.group_members is None && channel.id == ChannelId::User(m.id) && channel.peer_name
            == m.name || channel.group_members is Some && channel.group_members->0@ == seq![m],
    ensures
        ({
            let sent = composed(app, channel_idx, Seq::empty(), channel, message);
            &&& sent.text == seq!['\u{fffc}']
            &&& sent.body_ranges == seq![
                BodyRange { start: 0, end: 1, value: AssociatedValue::MentionUuid(m.id) },
            ]
        }),
{
    let name = m.name@;
    let input = seq!['@'] + name;
    crate::laws::text_without_links(input);
    assert(!white_space(input.last()));
    assert(trimmed_end(input) == input);
    assert(trimmed_start(input) == input);
    assert(clean_text(input, Seq::empty()) == input);
    let none = Seq::<char>::empty();
    assert(name + none =~= name);
    crate::laws::mentioning::names_are_mentions(m, name, none);
    crate::laws::mentioning::other_characters_are_kept('@', none, seq![m]);
    let parts = pieces(input, seq![m]);
    assert(parts =~= seq![Piece::Mention(m.id)]);
    assert(written_text(parts) =~= seq!['\u{fffc}']);
    reveal_with_fuel(body_ranges, 2);
    assert(parts.drop_last() =~= Seq::<Piece>::empty());
    assert(body_ranges(parts) =~= seq![
        BodyRange { start: 0, end: 1, value: AssociatedValue::MentionUuid(m.id) },
    ]);
    text_is_that_of_the_active_box(app, channel_idx, Seq::empty(), channel, message);
    if channel.group_members is None {
        assert(seq![Member { id: channel.id->User_0, name: channel.peer_name }] =~= seq![m]);
    }
}

/// What is sent leaves the active box, and nothing is edited any more. The other box and all the rest
/// stay.
pub proof fn sent_text_leaves_its_box(app: AppView)
    ensures
        app.modal_shown ==> taken(app) == (AppView {
            modal_input: InputView { data: Seq::empty(), cursor: 0 },
            editing: None,
            ..app
        }),
        !app.modal_shown ==> taken(app) == (AppView {
            input: InputView { data: Seq::empty(), cursor: 0 },
            editing: None,
            ..app
        }),
{
}

/// A new message is the newest one of its channel's list, where the selection still counts from the
/// newest. The lists of the other channels stay, and an edit changes none.
pub proof fn sent_message_is_the_newest(
    app: AppView,
    channel_idx: int,
    edited: Option<u64>,
    arrived_at: u64,
    other: ChannelId,
)
    ensures
        edited is Some ==> listed(app, channel_idx, edited, arrived_at) == app,
        edited is None ==> {
            let id = app.channels[channel_idx];
            let now = listed(app, channel_idx, edited, arrived_at);
            &&& now == AppView { messages: now.messages, ..app }
            &&& now.messages.contains_key(id)
            &&& now.messages[id].items == app.messages[id].items.push(arrived_at)
            &&& now.messages[id].selected == app.messages[id].selected
            &&& other != id ==> now.messages[other] == app.messages[other] && (
            now.messages.contains_key(other) <==> app.messages.contains_key(other))
        },
{
}

/// A message is stored in the channel that it goes to, as a new one unless it is an edit. An edit is
/// stored as one of the message that is edited.
pub proof fn message_is_stored_in_its_channel(
    app: AppView,
    channel_idx: int,
    matches: Seq<(usize, usize)>,
    channel: Channel,
    message: Option<Message>,
)
    ensures
        ({
            let sent = composed(app, channel_idx, matches, channel, message);
            let stored = stored_as(sent.channel_id, sent.edited);
            &&& app.editing is None ==> stored == Store::New(app.channels[channel_idx])
            &&& app.editing matches Some(id) ==> stored == Store::Edit(
                MessageId { channel_id: app.channels[channel_idx], arrived_at: id.arrived_at },
            )
        }),
{
}

/// Once a message is stored, nothing is selected and unread any more, and the channel that it went to
/// moves to the top.
pub proof fn channel_moves_up(channel_idx: usize)
    ensures
        sent_effects(channel_idx).len() == 3,
        sent_effects(channel_idx)[0] == Effect::ResetMessageSelection,
        sent_effects(channel_idx)[1] == Effect::ResetUnreadMessages,
        sent_effects(channel_idx)[2] == Effect::BubbleUpChannel(channel_idx),
{
}

/// The view of a message to send shows all of it.
pub proof fn message_is_seen_whole(outgoing: Outgoing)
    ensures
        outgoing@.channel_id == outgoing.channel_id,
        outgoing@.text == outgoing.text@,
        outgoing@.body_ranges == outgoing.body_ranges@,
        outgoing@.quotes == outgoing.quotes,
        outgoing@.edited == outgoing.edited,
        outgoing@.paths.len() == outgoing.paths@.len(),
        forall|i: int|
            #![trigger outgoing.paths@[i]]
            #![trigger outgoing@.paths[i]]
            0 <= i < outgoing.paths@.len() ==> outgoing@.paths[i] == outgoing.paths@[i]@,
{
}

} // verus!
