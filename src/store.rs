//! The tag store and the subscription store, held together as one snapshot.
use vstd::prelude::*;
use crate::owner::{Owner, OwnerId};
use crate::routing::{Sender, from_bot, from_self};
use crate::rows::{
    Row, row_set, distinct_rows, contains_row, insert_row, remove_row, copy_rows, lemma_row_set_take_next,
    lemma_row_set_take_all,
};

verus! {

/// Errors of the engine's operations.
#[derive(Debug, Clone, Copy, PartialEq, Eq, Structural)]
pub enum RelayError {
    /// The tag or subscription does not exist.
    NotFound,
    /// The actor may not change or use the tag.
    Unauthorized,
    /// The persistence layer could not be reached.
    StoreUnavailable,
    /// A channel or tag identifier is malformed.
    InvalidArgument,
}

/// The abstract state: which channels each tag holds, which tags relay bot
/// messages, and which tags each distribution channel subscribes to.
#[verifier::ext_equal]
pub struct RelayModel {
    /// `(owner, tag, source channel)`: the channel is a source of the tag.
    pub members: Set<(OwnerId, Seq<char>, Seq<char>)>,
    /// `(owner, tag)`: the tag relays messages sent by bots.
    pub bots: Set<(OwnerId, Seq<char>)>,
    /// `(dist, owner, tag)`: the distribution channel subscribes to the tag.
    pub subs: Set<(Seq<char>, OwnerId, Seq<char>)>,
}

impl RelayModel {
    /// No tags and no subscriptions.
    pub open spec fn empty() -> RelayModel {
        RelayModel { members: Set::empty(), bots: Set::empty(), subs: Set::empty() }
    }

    /// A tag exists exactly while it holds at least one source channel.
    pub open spec fn tag_exists(self, o: OwnerId, t: Seq<char>) -> bool {
        exists|c: Seq<char>| self.members.contains((o, t, c))
    }

    /// The source channels of a tag; empty when the tag does not exist.
    pub open spec fn sources(self, o: OwnerId, t: Seq<char>) -> Set<Seq<char>> {
        Set::new(|c: Seq<char>| self.members.contains((o, t, c)))
    }

    /// Whether a tag relays messages sent by bots.
    pub open spec fn retrieve_bot(self, o: OwnerId, t: Seq<char>) -> bool {
        self.bots.contains((o, t))
    }

    /// The names of the tags that `o` owns.
    pub open spec fn tags_of(self, o: OwnerId) -> Set<Seq<char>> {
        Set::new(|t: Seq<char>| self.tag_exists(o, t))
    }

    /// The `(owner, tag)` pairs that `d` subscribes to.
    pub open spec fn subscriptions(self, d: Seq<char>) -> Set<(OwnerId, Seq<char>)> {
        Set::new(|k: (OwnerId, Seq<char>)| self.subs.contains((d, k.0, k.1)))
    }

    /// Only existing tags carry a bot policy.
    pub open spec fn wf(self) -> bool {
        forall|o: OwnerId, t: Seq<char>| #[trigger] self.bots.contains((o, t)) ==> self.tag_exists(o, t)
    }

    /// `c` added to the sources of the tag, which exists afterwards.
    pub open spec fn with_source(self, o: OwnerId, t: Seq<char>, c: Seq<char>) -> RelayModel {
        RelayModel { members: self.members.insert((o, t, c)), ..self }
    }

    /// Removing the last source channel deletes the tag with its bot policy.
    pub open spec fn without_source(self, o: OwnerId, t: Seq<char>, c: Seq<char>) -> RelayModel {
        let m = RelayModel { members: self.members.remove((o, t, c)), ..self };
        if m.tag_exists(o, t) {
            m
        } else {
            RelayModel { bots: self.bots.remove((o, t)), ..m }
        }
    }

    /// The bot policy of the tag set to `flag`.
    pub open spec fn with_bot_policy(self, o: OwnerId, t: Seq<char>, flag: bool) -> RelayModel {
        RelayModel {
            bots: if flag { self.bots.insert((o, t)) } else { self.bots.remove((o, t)) },
            ..self
        }
    }

    /// `d` subscribed to the tag.
    pub open spec fn with_subscription(self, d: Seq<char>, o: OwnerId, t: Seq<char>) -> RelayModel {
        RelayModel { subs: self.subs.insert((d, o, t)), ..self }
    }

    /// `d` no longer subscribed to the tag.
    pub open spec fn without_subscription(self, d: Seq<char>, o: OwnerId, t: Seq<char>) -> RelayModel {
        RelayModel { subs: self.subs.remove((d, o, t)), ..self }
    }
}

/// A source channel of a tag.
#[derive(Debug)]
pub struct Membership {
    pub owner: Owner,
    pub tag: String,
    pub channel: String,
}

impl View for Membership {
    type V = (OwnerId, Seq<char>, Seq<char>);

    open spec fn view(&self) -> Self::V {
        (self.owner@, self.tag@, self.channel@)
    }
}

impl Row for Membership {
    fn same(&self, other: &Self) -> (r: bool) {
        self.owner.same(&other.owner) && self.tag.eq(&other.tag) && self.channel.eq(&other.channel)
    }

    fn duplicate(&self) -> (r: Self) {
        Membership { owner: self.owner.duplicate(), tag: self.tag.clone(), channel: self.channel.clone() }
    }
}

/// A tag that relays messages sent by bots.
#[derive(Debug)]
pub struct BotPolicy {
    pub owner: Owner,
    pub tag: String,
}

impl View for BotPolicy {
    type V = (OwnerId, Seq<char>);

    open spec fn view(&self) -> Self::V {
        (self.owner@, self.tag@)
    }
}

impl Row for BotPolicy {
    fn same(&self, other: &Self) -> (r: bool) {
        self.owner.same(&other.owner) && self.tag.eq(&other.tag)
    }

    fn duplicate(&self) -> (r: Self) {
        BotPolicy { owner: self.owner.duplicate(), tag: self.tag.clone() }
    }
}

/// A subscription of a distribution channel to a tag.
#[derive(Debug)]
pub struct Subscription {
    pub dist: String,
    pub owner: Owner,
    pub tag: String,
}

impl View for Subscription {
    type V = (Seq<char>, OwnerId, Seq<char>);

    open spec fn view(&self) -> Self::V {
        (self.dist@, self.owner@, self.tag@)
    }
}

impl Row for Subscription {
    fn same(&self, other: &Self) -> (r: bool) {
        self.dist.eq(&other.dist) && self.owner.same(&other.owner) && self.tag.eq(&other.tag)
    }

    fn duplicate(&self) -> (r: Self) {
        Subscription { dist: self.dist.clone(), owner: self.owner.duplicate(), tag: self.tag.clone() }
    }
}

/// A tag named by its owner and name.
#[derive(Debug)]
pub struct TagRef {
    pub owner: Owner,
    pub name: String,
}

impl View for TagRef {
    type V = (OwnerId, Seq<char>);

    open spec fn view(&self) -> Self::V {
        (self.owner@, self.name@)
    }
}

impl Row for TagRef {
    fn same(&self, other: &Self) -> (r: bool) {
        self.owner.same(&other.owner) && self.name.eq(&other.name)
    }

    fn duplicate(&self) -> (r: Self) {
        TagRef { owner: self.owner.duplicate(), name: self.name.clone() }
    }
}

/// An in-memory snapshot of the tag store and the subscription store, kept
/// as three tables of rows whose sets of views make up the model.
pub struct RelayStore {
    members: Vec<Membership>,
    bots: Vec<BotPolicy>,
    subs: Vec<Subscription>,
}

impl View for RelayStore {
    type V = RelayModel;

    closed spec fn view(&self) -> RelayModel {
        RelayModel {
            members: row_set(self.members@),
            bots: row_set(self.bots@),
            subs: row_set(self.subs@),
        }
    }
}

impl RelayStore {
    /// A store with no tags and no subscriptions.
    pub fn new() -> (r: RelayStore)
        ensures
            r@ == RelayModel::empty(),
            r@.wf(),
    {
        let r = RelayStore { members: Vec::new(), bots: Vec::new(), subs: Vec::new() };
        assert(r@.members =~= Set::empty());
        assert(r@.bots =~= Set::empty());
        assert(r@.subs =~= Set::empty());
        r
    }

    fn holds_tag(&self, owner: &Owner, tag: &String) -> (r: bool)
        ensures
            r == self@.tag_exists(owner@, tag@),
    {
        let mut i: usize = 0;
        while i < self.members.len()
            invariant
                i <= self.members.len(),
                forall|j: int| 0 <= j < i ==> (#[trigger] self.members@[j]@).0 != owner@ || self.members@[j]@.1 != tag@,
            decreases self.members.len() - i,
        {
            let m = &self.members[i];
            if m.owner.same(owner) && m.tag.eq(tag) {
                let ghost c = self.members@[i as int]@.2;
                assert(self.members@[i as int]@ == (owner@, tag@, c));
                assert(self@.members.contains((owner@, tag@, c)));
                return true;
            }
            i = i + 1;
        }
        assert forall|c: Seq<char>| !self@.members.contains((owner@, tag@, c)) by {
            if self@.members.contains((owner@, tag@, c)) {
                let j = choose|j: int| 0 <= j < self.members@.len() && self.members@[j]@ == (owner@, tag@, c);
                assert(self.members@[j]@.0 == owner@);
            }
        }
        false
    }

    /// Whether the tag `(owner, tag)` exists.
    pub fn has_tag(&self, owner: &Owner, tag: &str) -> (r: bool)
        ensures
            r == self@.tag_exists(owner@, tag@),
    {
        self.holds_tag(owner, &String::from_str(tag))
    }

    /// Adds `channel` to the sources of the tag, creating the tag when absent.
    /// Adding a channel that is already there changes nothing.
    pub fn add_source(&mut self, owner: &Owner, tag: &str, channel: &str)
        requires
            old(self)@.wf(),
        ensures
            final(self)@ == old(self)@.with_source(owner@, tag@, channel@),
            final(self)@.wf(),
    {
        let row = Membership {
            owner: owner.duplicate(),
            tag: String::from_str(tag),
            channel: String::from_str(channel),
        };
        insert_row(&mut self.members, row);
        proof {
            let m = old(self)@.with_source(owner@, tag@, channel@);
            assert forall|o: OwnerId, t: Seq<char>| #[trigger] m.bots.contains((o, t)) implies m.tag_exists(o, t) by {
                let c = choose|c: Seq<char>| old(self)@.members.contains((o, t, c));
                assert(m.members.contains((o, t, c)));
            }
        }
    }

    /// Removes `channel` from the sources of the tag; the tag, with its bot
    /// policy, is deleted when its last source goes.
    pub fn remove_source(&mut self, owner: &Owner, tag: &str, channel: &str)
        requires
            old(self)@.wf(),
        ensures
            final(self)@ == old(self)@.without_source(owner@, tag@, channel@),
            final(self)@.wf(),
    {
        let tag = String::from_str(tag);
        let row = Membership { owner: owner.duplicate(), tag: tag.clone(), channel: String::from_str(channel) };
        remove_row(&mut self.members, &row);
        if !self.holds_tag(owner, &tag) {
            let policy = BotPolicy { owner: owner.duplicate(), tag };
            remove_row(&mut self.bots, &policy);
        }
        proof {
            let m = old(self)@.without_source(owner@, tag@, channel@);
            assert(self@ =~= m);
            assert forall|o: OwnerId, t: Seq<char>| #[trigger] m.bots.contains((o, t)) implies m.tag_exists(o, t) by {
                let c = choose|c: Seq<char>| old(self)@.members.contains((o, t, c));
                if (o, t) != (owner@, tag@) {
                    assert(m.members.contains((o, t, c)));
                }
            }
        }
    }

    /// Sets whether the tag relays messages sent by bots. A tag that does not
    /// exist is not created: the call fails with `NotFound` and changes nothing.
    pub fn set_retrieve_bot(&mut self, owner: &Owner, tag: &str, flag: bool) -> (r: Result<(), RelayError>)
        requires
            old(self)@.wf(),
        ensures
            r == (if old(self)@.tag_exists(owner@, tag@) { Ok(()) } else { Err(RelayError::NotFound) }),
            r is Err ==> final(self)@ == old(self)@,
            r is Ok ==> final(self)@ == old(self)@.with_bot_policy(owner@, tag@, flag),
            final(self)@.wf(),
    {
        let tag = String::from_str(tag);
        if !self.holds_tag(owner, &tag) {
            return Err(RelayError::NotFound);
        }
        let ghost tv = tag@;
        let policy = BotPolicy { owner: owner.duplicate(), tag };
        if flag {
            insert_row(&mut self.bots, policy);
        } else {
            remove_row(&mut self.bots, &policy);
        }
        proof {
            let m = self@;
            assert(m.members == old(self)@.members);
            assert forall|o: OwnerId, t: Seq<char>| #[trigger] m.bots.contains((o, t)) implies m.tag_exists(o, t) by {
                if (o, t) != (owner@, tv) {
                    assert(old(self)@.bots.contains((o, t)));
                }
                assert(old(self)@.tag_exists(o, t));
                let c = choose|c: Seq<char>| old(self)@.members.contains((o, t, c));
                assert(m.members.contains((o, t, c)));
            }
        }
        Ok(())
    }

    /// Whether the tag relays messages sent by bots.
    pub fn retrieves_bot(&self, owner: &Owner, tag: &str) -> (r: bool)
        ensures
            r == self@.retrieve_bot(owner@, tag@),
    {
        let policy = BotPolicy { owner: owner.duplicate(), tag: String::from_str(tag) };
        contains_row(&self.bots, &policy)
    }

    fn sources_of(&self, owner: &Owner, tag: &String) -> (r: Vec<String>)
        ensures
            row_set(r@) == self@.sources(owner@, tag@),
            distinct_rows(r@),
    {
        let mut out: Vec<String> = Vec::new();
        let mut i: usize = 0;
        assert(row_set(out@) =~= Set::new(|c: Seq<char>| row_set(self.members@.take(0)).contains((owner@, tag@, c))));
        while i < self.members.len()
            invariant
                i <= self.members.len(),
                row_set(out@) == Set::new(|c: Seq<char>| row_set(self.members@.take(i as int)).contains((owner@, tag@, c))),
                distinct_rows(out@),
            decreases self.members.len() - i,
        {
            let m = &self.members[i];
            proof {
                lemma_row_set_take_next(self.members@, i as int);
            }
            if m.owner.same(owner) && m.tag.eq(tag) {
                insert_row(&mut out, m.channel.clone());
            }
            assert(row_set(out@) =~= Set::new(|c: Seq<char>| row_set(self.members@.take(i + 1)).contains((owner@, tag@, c))));
            i = i + 1;
        }
        proof {
            lemma_row_set_take_all(self.members@);
        }
        assert(row_set(out@) =~= self@.sources(owner@, tag@));
        out
    }

    /// The source channels of the tag, each once; `NotFound` when the tag
    /// does not exist.
    pub fn get_sources(&self, owner: &Owner, tag: &str) -> (r: Result<Vec<String>, RelayError>)
        ensures
            r is Err <==> !self@.tag_exists(owner@, tag@),
            r is Err ==> r == Err::<Vec<String>, RelayError>(RelayError::NotFound),
            r matches Ok(v) ==> row_set(v@) == self@.sources(owner@, tag@) && distinct_rows(v@),
    {
        let tag = String::from_str(tag);
        if !self.holds_tag(owner, &tag) {
            return Err(RelayError::NotFound);
        }
        Ok(self.sources_of(owner, &tag))
    }

    /// The names of the tags that `owner` owns, each once.
    pub fn list_tags(&self, owner: &Owner) -> (r: Vec<String>)
        ensures
            row_set(r@) == self@.tags_of(owner@),
            distinct_rows(r@),
    {
        let mut out: Vec<String> = Vec::new();
        let mut i: usize = 0;
        assert(row_set(out@) =~= Set::new(|t: Seq<char>| exists|c: Seq<char>| row_set(self.members@.take(0)).contains((owner@, t, c))));
        while i < self.members.len()
            invariant
                i <= self.members.len(),
                row_set(out@) == Set::new(|t: Seq<char>| exists|c: Seq<char>| row_set(self.members@.take(i as int)).contains((owner@, t, c))),
                distinct_rows(out@),
            decreases self.members.len() - i,
        {
            let m = &self.members[i];
            proof {
                lemma_row_set_take_next(self.members@, i as int);
            }
            if m.owner.same(owner) {
                insert_row(&mut out, m.tag.clone());
            }
            proof {
                let s1 = row_set(self.members@.take(i + 1));
                let s0 = row_set(self.members@.take(i as int));
                let row = self.members@[i as int]@;
                assert(s1.contains(row));
                assert(row_set(out@) =~= Set::new(|t: Seq<char>| exists|c: Seq<char>| s1.contains((owner@, t, c)))) by {
                    assert forall|t: Seq<char>| (exists|c: Seq<char>| s1.contains((owner@, t, c))) implies row_set(out@).contains(t) by {
                        let c = choose|c: Seq<char>| s1.contains((owner@, t, c));
                        if (owner@, t, c) != row {
                            assert(s0.contains((owner@, t, c)));
                        }
                    }
                    assert forall|t: Seq<char>| row_set(out@).contains(t) implies exists|c: Seq<char>| s1.contains((owner@, t, c)) by {
                        if row.0 == owner@ && row.1 == t {
                            assert(s1.contains((owner@, t, row.2)));
                        } else {
                            let c = choose|c: Seq<char>| s0.contains((owner@, t, c));
                            assert(s1.contains((owner@, t, c)));
                        }
                    }
                }
            }
            i = i + 1;
        }
        proof {
            lemma_row_set_take_all(self.members@);
        }
        assert(row_set(out@) =~= self@.tags_of(owner@)) by {
            let all = row_set(self.members@.take(self.members@.len() as int));
            assert forall|t: Seq<char>| self@.tags_of(owner@).contains(t) implies row_set(out@).contains(t) by {
                let c = choose|c: Seq<char>| self@.members.contains((owner@, t, c));
                assert(all.contains((owner@, t, c)));
            }
            assert forall|t: Seq<char>| row_set(out@).contains(t) implies self@.tags_of(owner@).contains(t) by {
                let c = choose|c: Seq<char>| all.contains((owner@, t, c));
                assert(self@.members.contains((owner@, t, c)));
            }
        }
        out
    }

    /// Subscribes `dist` to the tag; subscribing twice changes nothing more.
    pub fn subscribe(&mut self, dist: &str, owner: &Owner, tag: &str)
        requires
            old(self)@.wf(),
        ensures
            final(self)@ == old(self)@.with_subscription(dist@, owner@, tag@),
            final(self)@.wf(),
    {
        let row = Subscription { dist: String::from_str(dist), owner: owner.duplicate(), tag: String::from_str(tag) };
        insert_row(&mut self.subs, row);
        assert(self@.members == old(self)@.members && self@.bots == old(self)@.bots);
    }

    /// Removes the subscription of `dist` to the tag, if there is one.
    pub fn unsubscribe(&mut self, dist: &str, owner: &Owner, tag: &str)
        requires
            old(self)@.wf(),
        ensures
            final(self)@ == old(self)@.without_subscription(dist@, owner@, tag@),
            final(self)@.wf(),
    {
        let row = Subscription { dist: String::from_str(dist), owner: owner.duplicate(), tag: String::from_str(tag) };
        remove_row(&mut self.subs, &row);
        assert(self@.members == old(self)@.members && self@.bots == old(self)@.bots);
    }

    /// The tags that `dist` subscribes to, each once.
    pub fn list_subscriptions(&self, dist: &str) -> (r: Vec<TagRef>)
        ensures
            row_set(r@) == self@.subscriptions(dist@),
            distinct_rows(r@),
    {
        let dist = String::from_str(dist);
        let mut out: Vec<TagRef> = Vec::new();
        let mut i: usize = 0;
        assert(row_set(out@) =~= Set::new(|k: (OwnerId, Seq<char>)| row_set(self.subs@.take(0)).contains((dist@, k.0, k.1))));
        while i < self.subs.len()
            invariant
                i <= self.subs.len(),
                row_set(out@) == Set::new(|k: (OwnerId, Seq<char>)| row_set(self.subs@.take(i as int)).contains((dist@, k.0, k.1))),
                distinct_rows(out@),
            decreases self.subs.len() - i,
        {
            let sub = &self.subs[i];
            proof {
                lemma_row_set_take_next(self.subs@, i as int);
            }
            if sub.dist.eq(&dist) {
                insert_row(&mut out, TagRef { owner: sub.owner.duplicate(), name: sub.tag.clone() });
            }
            assert(row_set(out@) =~= Set::new(|k: (OwnerId, Seq<char>)| row_set(self.subs@.take(i + 1)).contains((dist@, k.0, k.1))));
            i = i + 1;
        }
        proof {
            lemma_row_set_take_all(self.subs@);
        }
        assert(row_set(out@) =~= self@.subscriptions(dist@));
        out
    }

    /// The distribution channels that receive a message from `source` sent
    /// by `sender`, each once.
    pub fn targets_for(&self, source: &str, sender: &Sender, own_bot_id: &str) -> (r: Vec<String>)
        ensures
            row_set(r@) == self@.targets(source@, sender@, own_bot_id@),
            distinct_rows(r@),
    {
        let mut out: Vec<String> = Vec::new();
        if sender.is_self(own_bot_id) {
            assert(row_set(out@) =~= Set::empty());
            return out;
        }
        let is_bot = sender.is_bot();
        let source = String::from_str(source);
        let ghost m = self@;
        let mut i: usize = 0;
        assert(row_set(out@) =~= Set::new(|d: Seq<char>| exists|o: OwnerId, t: Seq<char>|
            #[trigger] row_set(self.subs@.take(0)).contains((d, o, t)) && m.relays(o, t, source@, is_bot)));
        while i < self.subs.len()
            invariant
                i <= self.subs.len(),
                m == self@,
                row_set(out@) == Set::new(|d: Seq<char>| exists|o: OwnerId, t: Seq<char>|
                    #[trigger] row_set(self.subs@.take(i as int)).contains((d, o, t)) && m.relays(o, t, source@, is_bot)),
                distinct_rows(out@),
            decreases self.subs.len() - i,
        {
            let sub = &self.subs[i];
            proof {
                lemma_row_set_take_next(self.subs@, i as int);
            }
            let member = Membership { owner: sub.owner.duplicate(), tag: sub.tag.clone(), channel: source.clone() };
            let mut relayed = contains_row(&self.members, &member);
            if relayed && is_bot {
                let policy = BotPolicy { owner: sub.owner.duplicate(), tag: sub.tag.clone() };
                relayed = contains_row(&self.bots, &policy);
            }
            if relayed {
                insert_row(&mut out, sub.dist.clone());
            }
            proof {
                let s1 = row_set(self.subs@.take(i + 1));
                let s0 = row_set(self.subs@.take(i as int));
                let row = self.subs@[i as int]@;
                assert(relayed == m.relays(row.1, row.2, source@, is_bot));
                let goal = Set::new(|d: Seq<char>| exists|o: OwnerId, t: Seq<char>|
                    #[trigger] s1.contains((d, o, t)) && m.relays(o, t, source@, is_bot));
                assert forall|d: Seq<char>| goal.contains(d) implies row_set(out@).contains(d) by {
                    let (o, t) = choose|o: OwnerId, t: Seq<char>| #[trigger] s1.contains((d, o, t)) && m.relays(o, t, source@, is_bot);
                    if (d, o, t) != row {
                        assert(s0.contains((d, o, t)));
                    }
                }
                assert forall|d: Seq<char>| row_set(out@).contains(d) implies goal.contains(d) by {
                    if relayed && d == row.0 {
                        assert(s1.contains((d, row.1, row.2)));
                    } else {
                        let (o, t) = choose|o: OwnerId, t: Seq<char>| #[trigger] s0.contains((d, o, t)) && m.relays(o, t, source@, is_bot);
                        assert(s1.contains((d, o, t)));
                    }
                }
                assert(row_set(out@) =~= goal);
            }
            i = i + 1;
        }
        proof {
            lemma_row_set_take_all(self.subs@);
        }
        assert(row_set(out@) =~= self@.targets(source@, sender@, own_bot_id@));
        out
    }

    /// Whether a message from `source` sent by `sender` has any target.
    pub fn is_relay_candidate(&self, source: &str, sender: &Sender, own_bot_id: &str) -> (r: bool)
        ensures
            r == self@.is_candidate(source@, sender@, own_bot_id@),
    {
        let targets = self.targets_for(source, sender, own_bot_id);
        if targets.len() > 0 {
            assert(row_set(targets@).contains(targets@[0]@));
            true
        } else {
            assert forall|d: Seq<char>| !self@.targets(source@, sender@, own_bot_id@).contains(d) by {
                if row_set(targets@).contains(d) {
                    let j = choose|j: int| 0 <= j < targets@.len() && targets@[j]@ == d;
                }
            }
            false
        }
    }

    /// A store holding the given rows; a bot policy row of a tag that has no
    /// source channel is dropped.
    pub fn from_rows(members: Vec<Membership>, bots: Vec<BotPolicy>, subs: Vec<Subscription>) -> (r: RelayStore)
        ensures
            r@.members == row_set(members@),
            r@.bots == row_set(bots@).filter(|k: (OwnerId, Seq<char>)| r@.tag_exists(k.0, k.1)),
            r@.subs == row_set(subs@),
            r@.wf(),
    {
        let mut store = RelayStore { members, bots: Vec::new(), subs };
        let ghost m = store@;
        let mut i: usize = 0;
        assert(store@.bots =~= row_set(bots@.take(0)).filter(|k: (OwnerId, Seq<char>)| m.tag_exists(k.0, k.1)));
        while i < bots.len()
            invariant
                i <= bots.len(),
                store@.members == m.members,
                store@.subs == m.subs,
                store@.bots == row_set(bots@.take(i as int)).filter(|k: (OwnerId, Seq<char>)| m.tag_exists(k.0, k.1)),
            decreases bots.len() - i,
        {
            let b = &bots[i];
            proof {
                lemma_row_set_take_next(bots@, i as int);
            }
            if store.holds_tag(&b.owner, &b.tag) {
                insert_row(&mut store.bots, b.duplicate());
            }
            assert(store@.bots =~= row_set(bots@.take(i + 1)).filter(|k: (OwnerId, Seq<char>)| m.tag_exists(k.0, k.1)));
            i = i + 1;
        }
        proof {
            lemma_row_set_take_all(bots@);
        }
        assert(store@.bots =~= row_set(bots@).filter(|k: (OwnerId, Seq<char>)| store@.tag_exists(k.0, k.1)));
        store
    }

    /// The rows of this store, from which `from_rows` builds it again.
    pub fn rows(&self) -> (r: (Vec<Membership>, Vec<BotPolicy>, Vec<Subscription>))
        ensures
            row_set(r.0@) == self@.members,
            row_set(r.1@) == self@.bots,
            row_set(r.2@) == self@.subs,
    {
        (copy_rows(&self.members), copy_rows(&self.bots), copy_rows(&self.subs))
    }
}

} // verus!
