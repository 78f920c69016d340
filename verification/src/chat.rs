//! Channels, their members and their messages, as the storage of the program hands them out.

use vstd::prelude::*;

verus! {

/// A channel is a conversation with one user or with a group. Users are named by the 128 bits of
/// their UUID, groups by their 32 bytes, in two halves.
#[derive(Clone, Copy, PartialEq, Eq, Structural, Debug)]
pub enum ChannelId {
    User(u128),
    Group { high: u128, low: u128 },
}

/// A message is known by its channel and the time of its arrival.
#[derive(Clone, Copy, PartialEq, Eq, Structural, Debug)]
pub struct MessageId {
    pub channel_id: ChannelId,
    pub arrived_at: u64,
}

impl MessageId {
    pub fn new(channel_id: ChannelId, arrived_at: u64) -> (r: MessageId)
        ensures
            r == (MessageId { channel_id, arrived_at }),
    {
        MessageId { channel_id, arrived_at }
    }
}

/// A user who can be mentioned, with the name under which the user is shown.
#[derive(Debug)]
pub struct Member {
    pub id: u128,
    pub name: String,
}

impl Clone for Member {
    fn clone(&self) -> (r: Member)
        ensures
            r == *self,
    {
        Member { id: self.id, name: self.name.clone() }
    }
}

/// A channel. `peer_name` is the name under which the user of a conversation with one user is
/// shown; it says nothing of another channel.
#[derive(Debug)]
pub struct Channel {
    pub id: ChannelId,
    pub group_members: Option<Vec<Member>>,
    pub peer_name: String,
}

/// A copy of `members`.
fn copy_members(members: &Vec<Member>) -> (r: Vec<Member>)
    ensures
        r@ == members@,
{
    let mut r: Vec<Member> = Vec::new();
    let mut i: usize = 0;
    while i < members.len()
        invariant
            i <= members.len(),
            r@ == members@.take(i as int),
        decreases members.len() - i,
    {
        r.push(members[i].clone());
        assert(members@.take(i + 1) =~= members@.take(i as int).push(members@[i as int]));
        i = i + 1;
    }
    assert(members@.take(members@.len() as int) =~= members@);
    r
}

impl Channel {
    /// Who can be mentioned in the channel: the members of the group, or else the one user that
    /// the conversation is with.
    pub open spec fn mentionable(&self) -> Option<Seq<Member>> {
        match self.group_members {
            Some(members) => Some(members@),
            None => match self.id {
                ChannelId::User(id) => Some(seq![Member { id, name: self.peer_name }]),
                ChannelId::Group { .. } => None,
            },
        }
    }

    /// Who can be mentioned in the channel.
    pub fn mentionable_members(&self) -> (r: Option<Vec<Member>>)
        ensures
            r is Some <==> self.mentionable() is Some,
            r matches Some(members) ==> members@ == self.mentionable()->0,
    {
        match &self.group_members {
            Some(members) => Some(copy_members(members)),
            None => match self.id {
                ChannelId::User(id) => {
                    let mut members: Vec<Member> = Vec::new();
                    members.push(Member { id, name: self.peer_name.clone() });
                    assert(members@ =~= self.mentionable()->0);
                    Some(members)
                },
                ChannelId::Group { .. } => None,
            },
        }
    }
}

/// A message: who sent it, its text if it has one, when it arrived, whether it was deleted, and
/// the reactions to it with the users who reacted.
#[derive(Debug)]
pub struct Message {
    pub from_id: u128,
    pub message: Option<String>,
    pub arrived_at: u64,
    pub deleted: bool,
    pub reactions: Vec<(u128, String)>,
}

impl Message {
    /// The first reaction of user `id`.
    pub open spec fn reaction_of(&self, id: u128) -> Option<String> {
        first_reaction(self.reactions@, id)
    }

    /// The first reaction of user `id`.
    pub fn find_reaction(&self, id: u128) -> (r: Option<String>)
        ensures
            r == self.reaction_of(id),
    {
        let mut i: usize = 0;
        assert(self.reactions@.skip(0) =~= self.reactions@);
        while i < self.reactions.len()
            invariant
                i <= self.reactions.len(),
                self.reaction_of(id) == first_reaction(self.reactions@.skip(i as int), id),
            decreases self.reactions.len() - i,
        {
            if self.reactions[i].0 == id {
                return Some(self.reactions[i].1.clone());
            }
            assert(self.reactions@.skip(i as int).drop_first() =~= self.reactions@.skip(i + 1));
            i = i + 1;
        }
        None
    }
}

/// The first of `reactions` that user `id` gave.
pub open spec fn first_reaction(reactions: Seq<(u128, String)>, id: u128) -> Option<String>
    decreases reactions.len(),
{
    if reactions.len() == 0 {
        None
    } else if reactions[0].0 == id {
        Some(reactions[0].1)
    } else {
        first_reaction(reactions.drop_first(), id)
    }
}

/// What the rest of the program knows when a key is pressed.
///
/// `channel` is what the storage holds of the selected channel, `message` what it holds of the
/// selected message, and `last_edit` the arrival of that message's last edit. `emoji` is the emoji
/// that the text in the active box stands for. What is not there is `None`.
#[derive(Debug)]
pub struct Context {
    pub channel: Option<Channel>,
    pub message: Option<Message>,
    pub last_edit: Option<u64>,
    pub emoji: Option<String>,
}

} // verus!
