//! Sending what is typed.

use vstd::prelude::*;

use crate::app::App;
use crate::attachments::extract_attachments;
use crate::body::{mentions_fit, parse_mentions, BodyRange};
use crate::chat::{Channel, ChannelId, Message, MessageId};
use crate::effect::Effect;

#[allow(unused_imports)]
use crate::app::AppView;
#[allow(unused_imports)]
use crate::attachments::{clean_text, linked_paths, matches_fit};
#[allow(unused_imports)]
use crate::body::{body_ranges, can_parse_mentions, channel_pieces, written_text};
#[allow(unused_imports)]
use crate::input::InputView;
#[allow(unused_imports)]
use crate::mentions::texts;

verus! {

/// A message to send: the channel that it goes to, its text with what the placeholders in it stand
/// for, the paths of what is attached to it, whether it quotes the selected message, and the time of
/// the message that it is an edit of.
#[derive(Debug)]
pub struct Outgoing {
    pub channel_id: ChannelId,
    pub text: String,
    pub body_ranges: Vec<BodyRange>,
    pub paths: Vec<String>,
    pub quotes: bool,
    pub edited: Option<u64>,
}

#[verifier::ext_equal]
pub struct OutgoingView {
    pub channel_id: ChannelId,
    pub text: Seq<char>,
    pub body_ranges: Seq<BodyRange>,
    pub paths: Seq<Seq<char>>,
    pub quotes: bool,
    pub edited: Option<u64>,
}

impl View for Outgoing {
    type V = OutgoingView;

    open spec fn view(&self) -> OutgoingView {
        OutgoingView {
            channel_id: self.channel_id,
            text: self.text@,
            body_ranges: self.body_ranges@,
            paths: texts(self.paths@),
            quotes: self.quotes,
            edited: self.edited,
        }
    }
}

/// The message in the active box, sent to the channel at `channel_idx`. An edit quotes nothing.
pub open spec fn composed(
    app: AppView,
    channel_idx: int,
    matches: Seq<(usize, usize)>,
    channel: Channel,
    message: Option<Message>,
) -> OutgoingView {
    let input = app.active().data;
    let pieces = channel_pieces(channel, clean_text(input, matches));
    OutgoingView {
        channel_id: app.channels[channel_idx],
        text: written_text(pieces),
        body_ranges: body_ranges(pieces),
        paths: linked_paths(input, matches),
        quotes: app.editing is None && app.selected_message(message) is Some,
        edited: match app.editing {
            Some(id) => Some(id.arrived_at),
            None => None,
        },
    }
}

/// The active box is empty, and no message is edited any more.
pub open spec fn taken(app: AppView) -> AppView {
    AppView { editing: None, ..app.with_active(InputView::empty()) }
}

/// A message that arrived at `arrived_at` is in the list of the channel at `channel_idx`, unless it
/// is an edit.
pub open spec fn listed(
    app: AppView,
    channel_idx: int,
    edited: Option<u64>,
    arrived_at: u64,
) -> AppView {
    let id = app.channels[channel_idx];
    if edited is Some {
        app
    } else {
        AppView { messages: app.messages.insert(id, app.messages[id].pushed(arrived_at)), ..app }
    }
}

/// How a message that was handed over is to be stored.
#[derive(Clone, Copy, PartialEq, Eq, Structural, Debug)]
pub enum Store {
    /// As a new message of a channel.
    New(ChannelId),
    /// As the new text of a message.
    Edit(MessageId),
}

/// How a message to channel `channel_id` is stored: as the new text of the message that it is an edit
/// of, or as a new one.
pub open spec fn stored_as(channel_id: ChannelId, edited: Option<u64>) -> Store {
    match edited {
        Some(arrived_at) => Store::Edit(MessageId { channel_id, arrived_at }),
        None => Store::New(channel_id),
    }
}

/// What is left to do once a message to the channel at `channel_idx` is stored.
pub open spec fn sent_effects(channel_idx: usize) -> Seq<Effect> {
    seq![
        Effect::ResetMessageSelection,
        Effect::ResetUnreadMessages,
        Effect::BubbleUpChannel(channel_idx),
    ]
}

impl Outgoing {
    /// How the message is to be stored once it is handed over.
    pub fn store(&self) -> (r: Store)
        ensures
            r == stored_as(self@.channel_id, self@.edited),
            r == (match self.edited {
                Some(arrived_at) => Store::Edit(
                    MessageId { channel_id: self.channel_id, arrived_at },
                ),
                None => Store::New(self.channel_id),
            }),
    {
        match self.edited {
            Some(arrived_at) => Store::Edit(MessageId::new(self.channel_id, arrived_at)),
            None => Store::New(self.channel_id),
        }
    }
}

impl App {
    /// Takes the message out of the active box to send it to the channel at `channel_idx`.
    ///
    /// `matches` are the parts of the text that may name attachments. `channel` is what is known of
    /// the channel, and `message` what is stored of the selected message.
    pub fn send_input(
        &mut self,
        channel_idx: usize,
        matches: &Vec<(usize, usize)>,
        channel: &Channel,
        message: &Option<Message>,
    ) -> (r: Outgoing)
        requires
            old(self).wf(),
            channel_idx < old(self)@.channels.len(),
            matches_fit(old(self)@.active().data, matches@),
            can_parse_mentions(*channel, clean_text(old(self)@.active().data, matches@)),
        ensures
            final(self).wf_but_popup(),
            old(self)@.popup is None ==> final(self).wf(),
            final(self)@ == taken(old(self)@),
            r@ == composed(old(self)@, channel_idx as int, matches@, *channel, *message),
    {
        let input = self.take_input();
        let (text, paths) = extract_attachments(input.as_str(), matches);
        let channel_id = self.channels.items[channel_idx];
        let (text, body_ranges) = parse_mentions(channel, text);
        let editing = self.editing.take();
        let quotes = editing.is_none() && self.selected_message(message).is_some();
        let edited = match editing {
            Some(id) => Some(id.arrived_at),
            None => None,
        };
        assert(self@.selected_message_id() == old(self)@.selected_message_id());
        Outgoing { channel_id, text, body_ranges, paths, quotes, edited }
    }

    /// Takes the message out of the active box, as `send_input` does, if its characters can be
    /// counted where mentions are to be found. Otherwise nothing changes and there is no message.
    pub fn try_send_input(
        &mut self,
        channel_idx: usize,
        matches: &Vec<(usize, usize)>,
        channel: &Channel,
        message: &Option<Message>,
    ) -> (r: Option<Outgoing>)
        requires
            old(self).wf(),
            channel_idx < old(self)@.channels.len(),
            matches_fit(old(self)@.active().data, matches@),
        ensures
            final(self).wf_but_popup(),
            old(self)@.popup is None ==> final(self).wf(),
            r is Some <==> can_parse_mentions(
                *channel,
                clean_text(old(self)@.active().data, matches@),
            ),
            r is None ==> final(self)@ == old(self)@,
            r matches Some(outgoing) ==> final(self)@ == taken(old(self)@) && outgoing@ == composed(
                old(self)@,
                channel_idx as int,
                matches@,
                *channel,
                *message,
            ),
    {
        let input = if self.select_channel.is_shown {
            self.select_channel.input.data.as_str()
        } else {
            self.input.data.as_str()
        };
        let (text, _) = extract_attachments(input, matches);
        if mentions_fit(channel, text.as_str()) {
            Some(self.send_input(channel_idx, matches, channel, message))
        } else {
            None
        }
    }

    /// Lists the message that was sent to the channel at `channel_idx`, once it is stored as one
    /// that arrived at `arrived_at`. `edited` is the time of the message that it is an edit of.
    /// Returns what is left to do, in order.
    pub fn finish_sending(
        &mut self,
        channel_idx: usize,
        edited: Option<u64>,
        arrived_at: u64,
    ) -> (r: Vec<Effect>)
        requires
            old(self).wf_but_popup(),
            channel_idx < old(self)@.channels.len(),
            edited is None ==> old(self)@.messages.contains_key(
                old(self)@.channels[channel_idx as int],
            ),
        ensures
            final(self).wf_but_popup(),
            old(self).wf() ==> final(self).wf(),
            final(self)@ == listed(old(self)@, channel_idx as int, edited, arrived_at),
            r@ == sent_effects(channel_idx),
            r@ == seq![
                Effect::ResetMessageSelection,
                Effect::ResetUnreadMessages,
                Effect::BubbleUpChannel(channel_idx),
            ],
    {
        if edited.is_none() {
            self.messages.push(self.channels.items[channel_idx], arrived_at);
        }
        let mut effects: Vec<Effect> = Vec::new();
        effects.push(Effect::ResetMessageSelection);
        effects.push(Effect::ResetUnreadMessages);
        effects.push(Effect::BubbleUpChannel(channel_idx));
        effects
    }
}

} // verus!
