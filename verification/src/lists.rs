//! Lists with a selected entry.

use vstd::prelude::*;

use crate::chat::ChannelId;
use crate::entries::{Entries, Key};

verus! {

/// The channels in the order in which they are shown.
#[derive(Debug)]
pub struct ChannelList {
    pub items: Vec<ChannelId>,
    pub selected: Option<usize>,
}

impl ChannelList {
    /// What is selected is in the list.
    pub open spec fn wf(&self) -> bool {
        self.selected matches Some(i) ==> i < self.items@.len()
    }

    /// The selected channel.
    pub fn selected_item(&self) -> (r: Option<ChannelId>)
        requires
            self.wf(),
        ensures
            r == selected_channel(self.items@, self.selected),
    {
        match self.selected {
            Some(i) => Some(self.items[i]),
            None => None,
        }
    }

    /// Where `id` first stands in the list.
    pub fn position(&self, id: ChannelId) -> (r: Option<usize>)
        ensures
            r is Some <==> self.items@.contains(id),
            r matches Some(i) ==> i < self.items@.len() && i == self.items@.index_of_first(id)->0,
    {
        let mut i: usize = 0;
        while i < self.items.len()
            invariant
                i <= self.items.len(),
                forall|j: int| 0 <= j < i ==> self.items@[j] != id,
            decreases self.items.len() - i,
        {
            if self.items[i] == id {
                proof {
                    self.items@.index_of_first_ensures(id);
                }
                return Some(i);
            }
            i = i + 1;
        }
        None
    }
}

/// The selected one of `items`.
pub open spec fn selected_channel(items: Seq<ChannelId>, selected: Option<usize>) -> Option<
    ChannelId,
> {
    match selected {
        Some(i) => Some(items[i as int]),
        None => None,
    }
}

/// The arrival times of a channel's messages, oldest first. The selection counts from the newest.
#[derive(Debug)]
pub struct MessageList {
    pub items: Vec<u64>,
    pub selected: Option<usize>,
}

#[verifier::ext_equal]
pub struct MessageListView {
    pub items: Seq<u64>,
    pub selected: Option<usize>,
}

impl View for MessageList {
    type V = MessageListView;

    open spec fn view(&self) -> MessageListView {
        MessageListView { items: self.items@, selected: self.selected }
    }
}

impl MessageListView {
    /// The arrival time of the selected message.
    pub open spec fn selected_item(self) -> Option<u64> {
        match self.selected {
            Some(i) if i < self.items.len() => Some(self.items[self.items.len() - 1 - i]),
            _ => None,
        }
    }

    /// A newer message.
    pub open spec fn pushed(self, arrived_at: u64) -> MessageListView {
        MessageListView { items: self.items.push(arrived_at), ..self }
    }
}

impl MessageList {
    /// The arrival time of the selected message.
    pub fn selected_item(&self) -> (r: Option<u64>)
        ensures
            r == self@.selected_item(),
    {
        match self.selected {
            Some(i) => {
                if i < self.items.len() {
                    Some(self.items[self.items.len() - 1 - i])
                } else {
                    None
                }
            },
            None => None,
        }
    }
}

impl Key for ChannelId {
    fn same(&self, other: &ChannelId) -> (r: bool) {
        *self == *other
    }
}

/// The message lists of the channels, each channel with one list at most.
#[derive(Debug)]
pub struct MessageLists {
    entries: Entries<ChannelId, MessageList>,
}

impl View for MessageLists {
    type V = Map<ChannelId, MessageListView>;

    closed spec fn view(&self) -> Map<ChannelId, MessageListView> {
        self.entries@.map_values(|list: MessageList| list@)
    }
}

impl MessageLists {
    /// No channel has a list.
    pub fn new() -> (r: MessageLists)
        ensures
            r@ == Map::<ChannelId, MessageListView>::empty(),
    {
        let r = MessageLists { entries: Entries::new() };
        assert(r@ =~= Map::<ChannelId, MessageListView>::empty());
        r
    }

    /// The list of channel `id`.
    pub fn get(&self, id: ChannelId) -> (r: Option<&MessageList>)
        ensures
            r is Some <==> self@.contains_key(id),
            r matches Some(list) ==> list@ == self@[id],
    {
        self.entries.get(id)
    }

    /// Gives channel `id` the list `list`, in place of the one that it has.
    pub fn insert(&mut self, id: ChannelId, list: MessageList)
        ensures
            final(self)@ == old(self)@.insert(id, list@),
    {
        self.entries.insert(id, list);
        assert(self@ =~= old(self)@.insert(id, list@));
    }

    /// Adds a message that arrived at `arrived_at` to the list of channel `id`.
    pub fn push(&mut self, id: ChannelId, arrived_at: u64)
        requires
            old(self)@.contains_key(id),
        ensures
            final(self)@ == old(self)@.insert(id, old(self)@[id].pushed(arrived_at)),
    {
        let mut items: Vec<u64> = Vec::new();
        let mut selected: Option<usize> = None;
        if let Some(list) = self.get(id) {
            items = list.items.clone();
            selected = list.selected;
        }
        assert(items@ =~= old(self)@[id].items);
        items.push(arrived_at);
        self.insert(id, MessageList { items, selected });
    }
}

} // verus!
