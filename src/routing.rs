//! What the routing index answers: which distribution channels receive a
//! message, given its source channel and its sender.
use vstd::prelude::*;
use crate::owner::OwnerId;
use crate::store::RelayModel;

verus! {

/// The sender of an inbound message.
#[derive(Debug)]
pub struct Sender {
    pub user: Option<String>,
    pub bot_id: Option<String>,
}

pub struct SenderView {
    pub user: Option<Seq<char>>,
    pub bot_id: Option<Seq<char>>,
}

pub open spec fn opt_view(s: Option<String>) -> Option<Seq<char>> {
    match s {
        Some(v) => Some(v@),
        None => None,
    }
}

impl View for Sender {
    type V = SenderView;

    open spec fn view(&self) -> SenderView {
        SenderView { user: opt_view(self.user), bot_id: opt_view(self.bot_id) }
    }
}

/// A message is from a bot when its sender carries a bot id.
pub open spec fn from_bot(s: SenderView) -> bool {
    s.bot_id is Some
}

/// A message is the application's own when its bot id is the application's.
pub open spec fn from_self(s: SenderView, own_bot_id: Seq<char>) -> bool {
    s.bot_id == Some(own_bot_id)
}

impl Sender {
    pub fn is_bot(&self) -> (r: bool)
        ensures
            r == from_bot(self@),
    {
        self.bot_id.is_some()
    }

    pub fn is_self(&self, own_bot_id: &str) -> (r: bool)
        ensures
            r == from_self(self@, own_bot_id@),
    {
        match &self.bot_id {
            Some(b) => b.eq(&String::from_str(own_bot_id)),
            None => false,
        }
    }
}

impl RelayModel {
    /// The tag relays messages of `source`: the channel is one of its sources,
    /// and a bot's message passes only when the tag retrieves bot messages.
    pub open spec fn relays(self, o: OwnerId, t: Seq<char>, source: Seq<char>, is_bot: bool) -> bool {
        self.members.contains((o, t, source)) && (!is_bot || self.bots.contains((o, t)))
    }

    /// The distribution channels that receive a message from `source`: none
    /// for the application's own messages, else every channel subscribed to
    /// some tag that relays it.
    pub open spec fn targets(self, source: Seq<char>, sender: SenderView, own_bot_id: Seq<char>) -> Set<Seq<char>> {
        if from_self(sender, own_bot_id) {
            Set::empty()
        } else {
            Set::new(|d: Seq<char>| exists|o: OwnerId, t: Seq<char>|
                #[trigger] self.subs.contains((d, o, t)) && self.relays(o, t, source, from_bot(sender)))
        }
    }

    /// A message is worth relaying when it has at least one target.
    pub open spec fn is_candidate(self, source: Seq<char>, sender: SenderView, own_bot_id: Seq<char>) -> bool {
        exists|d: Seq<char>| #[trigger] self.targets(source, sender, own_bot_id).contains(d)
    }
}

} // verus!
