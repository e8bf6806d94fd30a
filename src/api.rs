//! The engine's public surface: mutations gated by the authorization policy.
use vstd::prelude::*;
use crate::owner::{Owner, OwnerId, can_manage, can_subscribe, may_manage, may_subscribe};
use crate::rows::{row_set, distinct_rows};
use crate::store::{RelayError, RelayModel, RelayStore};
use crate::text::{channel_ref, channel_preprocess};

verus! {

/// A change to one tag's folder, as the command layer names it.
#[derive(Debug, Clone, Copy, PartialEq, Eq, Structural)]
pub enum FolderOperation {
    Add,
    Delete,
    RetrieveBot,
}

/// The views of a list of strings.
pub open spec fn names(v: Seq<String>) -> Seq<Seq<char>> {
    v.map_values(|s: String| s@)
}

/// A channel or tag identifier is well formed when it is not empty.
pub open spec fn valid_id(s: Seq<char>) -> bool {
    s.len() > 0
}

/// What `grant_source` reports.
pub open spec fn grant_result(actor: OwnerId, owner: OwnerId, tag: Seq<char>, channel: Seq<char>) -> Result<(), RelayError> {
    if !may_manage(actor, owner) {
        Err(RelayError::Unauthorized)
    } else if !valid_id(tag) || !valid_id(channel) {
        Err(RelayError::InvalidArgument)
    } else {
        Ok(())
    }
}

/// What `revoke_source` reports.
pub open spec fn revoke_result(m: RelayModel, actor: OwnerId, owner: OwnerId, tag: Seq<char>, channel: Seq<char>) -> Result<(), RelayError> {
    if !may_manage(actor, owner) {
        Err(RelayError::Unauthorized)
    } else if !valid_id(tag) || !valid_id(channel) {
        Err(RelayError::InvalidArgument)
    } else if !m.tag_exists(owner, tag) {
        Err(RelayError::NotFound)
    } else {
        Ok(())
    }
}

/// What `set_bot_policy` reports.
pub open spec fn bot_policy_result(m: RelayModel, actor: OwnerId, owner: OwnerId, tag: Seq<char>) -> Result<(), RelayError> {
    if !may_manage(actor, owner) {
        Err(RelayError::Unauthorized)
    } else if !m.tag_exists(owner, tag) {
        Err(RelayError::NotFound)
    } else {
        Ok(())
    }
}

/// The tags of a subscription or unsubscription batch that are applied:
/// those of an owner the actor may use that exist.
pub open spec fn batch_tags(m: RelayModel, actor: OwnerId, owner: OwnerId, tags: Seq<Seq<char>>) -> Seq<Seq<char>> {
    if may_subscribe(actor, owner) {
        tags.filter(|t: Seq<char>| m.tag_exists(owner, t))
    } else {
        Seq::empty()
    }
}

/// The views of per-channel outcomes.
pub open spec fn outcomes(v: Seq<Result<String, RelayError>>) -> Seq<Result<Seq<char>, RelayError>> {
    v.map_values(|r: Result<String, RelayError>| match r {
        Ok(s) => Ok(s@),
        Err(e) => Err(e),
    })
}

/// One channel reference of a grant batch: its outcome and the state after it.
pub open spec fn grant_step(m: RelayModel, actor: OwnerId, owner: OwnerId, tag: Seq<char>, channel_ref_text: Seq<char>) -> (RelayModel, Result<Seq<char>, RelayError>) {
    match channel_ref(channel_ref_text) {
        None => (m, Err(RelayError::InvalidArgument)),
        Some(id) => match grant_result(actor, owner, tag, id) {
            Ok(_) => (m.with_source(owner, tag, id), Ok(id)),
            Err(e) => (m, Err(e)),
        },
    }
}

/// One channel reference of a revoke batch: its outcome and the state after it.
pub open spec fn revoke_step(m: RelayModel, actor: OwnerId, owner: OwnerId, tag: Seq<char>, channel_ref_text: Seq<char>) -> (RelayModel, Result<Seq<char>, RelayError>) {
    match channel_ref(channel_ref_text) {
        None => (m, Err(RelayError::InvalidArgument)),
        Some(id) => match revoke_result(m, actor, owner, tag, id) {
            Ok(_) => (m.without_source(owner, tag, id), Ok(id)),
            Err(e) => (m, Err(e)),
        },
    }
}

/// A batch of channel references applied one after the other; `grant`
/// picks granting or revoking. Each outcome stands alone: a failure leaves
/// the state as it was and the batch goes on.
pub open spec fn source_batch(
    m: RelayModel,
    actor: OwnerId,
    owner: OwnerId,
    tag: Seq<char>,
    refs: Seq<Seq<char>>,
    grant: bool,
) -> (RelayModel, Seq<Result<Seq<char>, RelayError>>)
    decreases refs.len(),
{
    if refs.len() == 0 {
        (m, Seq::empty())
    } else {
        let (m1, rs) = source_batch(m, actor, owner, tag, refs.drop_last(), grant);
        let (m2, r) = if grant {
            grant_step(m1, actor, owner, tag, refs.last())
        } else {
            revoke_step(m1, actor, owner, tag, refs.last())
        };
        (m2, rs.push(r))
    }
}

impl RelayModel {
    /// `d` subscribed, in addition, to each tag of `ts` owned by `o`.
    pub open spec fn with_subscriptions(self, d: Seq<char>, o: OwnerId, ts: Seq<Seq<char>>) -> RelayModel {
        RelayModel {
            subs: self.subs.union(Set::new(|x: (Seq<char>, OwnerId, Seq<char>)| x.0 == d && x.1 == o && ts.contains(x.2))),
            ..self
        }
    }

    /// `d` no longer subscribed to any tag of `ts` owned by `o`.
    pub open spec fn without_subscriptions(self, d: Seq<char>, o: OwnerId, ts: Seq<Seq<char>>) -> RelayModel {
        RelayModel {
            subs: self.subs.difference(Set::new(|x: (Seq<char>, OwnerId, Seq<char>)| x.0 == d && x.1 == o && ts.contains(x.2))),
            ..self
        }
    }
}

proof fn lemma_push_contains(ts: Seq<Seq<char>>, t: Seq<char>, y: Seq<char>)
    ensures
        ts.push(t).contains(y) <==> ts.contains(y) || y == t,
{
    if ts.push(t).contains(y) {
        let k = choose|k: int| 0 <= k < ts.push(t).len() && ts.push(t)[k] == y;
        if k < ts.len() {
            assert(ts[k] == y);
        }
    }
    if ts.contains(y) {
        let k = choose|k: int| 0 <= k < ts.len() && ts[k] == y;
        assert(ts.push(t)[k] == y);
    }
    if y == t {
        assert(ts.push(t)[ts.len() as int] == y);
    }
}

proof fn lemma_subscriptions_push(m: RelayModel, d: Seq<char>, o: OwnerId, ts: Seq<Seq<char>>, t: Seq<char>)
    ensures
        m.with_subscriptions(d, o, ts.push(t)) == m.with_subscriptions(d, o, ts).with_subscription(d, o, t),
        m.without_subscriptions(d, o, ts.push(t)) == m.without_subscriptions(d, o, ts).without_subscription(d, o, t),
{
    assert forall|x: (Seq<char>, OwnerId, Seq<char>)| #![all_triggers] true implies (ts.push(t).contains(x.2) <==> ts.contains(x.2) || x.2 == t) by {
        lemma_push_contains(ts, t, x.2);
    }
    assert(m.with_subscriptions(d, o, ts.push(t)) =~= m.with_subscriptions(d, o, ts).with_subscription(d, o, t));
    assert(m.without_subscriptions(d, o, ts.push(t)) =~= m.without_subscriptions(d, o, ts).without_subscription(d, o, t));
}

proof fn lemma_subscriptions_empty(m: RelayModel, d: Seq<char>, o: OwnerId)
    ensures
        m.with_subscriptions(d, o, Seq::empty()) == m,
        m.without_subscriptions(d, o, Seq::empty()) == m,
{
    assert(m.with_subscriptions(d, o, Seq::empty()) =~= m);
    assert(m.without_subscriptions(d, o, Seq::empty()) =~= m);
}

impl RelayStore {
    /// Adds `channel` to the tag `(owner, tag)` on behalf of `actor`.
    pub fn grant_source(&mut self, actor: &Owner, owner: &Owner, tag: &str, channel: &str) -> (r: Result<(), RelayError>)
        requires
            old(self)@.wf(),
        ensures
            r == grant_result(actor@, owner@, tag@, channel@),
            r is Ok ==> final(self)@ == old(self)@.with_source(owner@, tag@, channel@),
            r is Err ==> final(self)@ == old(self)@,
            final(self)@.wf(),
    {
        if !can_manage(actor, owner) {
            return Err(RelayError::Unauthorized);
        }
        if tag.unicode_len() == 0 || channel.unicode_len() == 0 {
            return Err(RelayError::InvalidArgument);
        }
        self.add_source(owner, tag, channel);
        Ok(())
    }

    /// Removes `channel` from the tag `(owner, tag)` on behalf of `actor`.
    pub fn revoke_source(&mut self, actor: &Owner, owner: &Owner, tag: &str, channel: &str) -> (r: Result<(), RelayError>)
        requires
            old(self)@.wf(),
        ensures
            r == revoke_result(old(self)@, actor@, owner@, tag@, channel@),
            r is Ok ==> final(self)@ == old(self)@.without_source(owner@, tag@, channel@),
            r is Err ==> final(self)@ == old(self)@,
            final(self)@.wf(),
    {
        if !can_manage(actor, owner) {
            return Err(RelayError::Unauthorized);
        }
        if tag.unicode_len() == 0 || channel.unicode_len() == 0 {
            return Err(RelayError::InvalidArgument);
        }
        if !self.has_tag(owner, tag) {
            return Err(RelayError::NotFound);
        }
        self.remove_source(owner, tag, channel);
        Ok(())
    }

    /// Sets whether the tag `(owner, tag)` relays bot messages, on behalf of `actor`.
    pub fn set_bot_policy(&mut self, actor: &Owner, owner: &Owner, tag: &str, flag: bool) -> (r: Result<(), RelayError>)
        requires
            old(self)@.wf(),
        ensures
            r == bot_policy_result(old(self)@, actor@, owner@, tag@),
            r is Ok ==> final(self)@ == old(self)@.with_bot_policy(owner@, tag@, flag),
            r is Err ==> final(self)@ == old(self)@,
            final(self)@.wf(),
    {
        if !can_manage(actor, owner) {
            return Err(RelayError::Unauthorized);
        }
        self.set_retrieve_bot(owner, tag, flag)
    }

    /// Subscribes `dist` to each named tag of `owner` that `actor` may use and
    /// that exists; returns the tags applied, in the order given.
    pub fn subscribe_batch(&mut self, dist: &str, actor: &Owner, tag_names: &Vec<String>, owner: &Owner) -> (r: Vec<String>)
        requires
            old(self)@.wf(),
        ensures
            names(r@) == batch_tags(old(self)@, actor@, owner@, names(tag_names@)),
            final(self)@ == old(self)@.with_subscriptions(dist@, owner@, names(r@)),
            final(self)@.wf(),
    {
        let mut applied: Vec<String> = Vec::new();
        assert(names(applied@) =~= Seq::empty());
        proof {
            lemma_subscriptions_empty(self@, dist@, owner@);
        }
        if !can_subscribe(actor, owner) {
            return applied;
        }
        let ghost m0 = self@;
        let ghost all = names(tag_names@);
        let ghost pred = |t: Seq<char>| m0.tag_exists(owner@, t);
        let mut i: usize = 0;
        proof {
            reveal(Seq::filter);
            assert(all.take(0) =~= Seq::empty());
        }
        while i < tag_names.len()
            invariant
                i <= tag_names.len(),
                m0 == old(self)@,
                all == names(tag_names@),
                pred == (|t: Seq<char>| m0.tag_exists(owner@, t)),
                names(applied@) == all.take(i as int).filter(pred),
                self@ == m0.with_subscriptions(dist@, owner@, names(applied@)),
                self@.wf(),
            decreases tag_names.len() - i,
        {
            let tag = &tag_names[i];
            let ghost before = names(applied@);
            if self.has_tag(owner, tag.as_str()) {
                self.subscribe(dist, owner, tag.as_str());
                applied.push(tag.clone());
            }
            proof {
                reveal(Seq::filter);
                assert(all.take(i + 1).drop_last() =~= all.take(i as int));
                assert(all.take(i + 1).last() == tag@);
                assert(self@.members == m0.members);
                if pred(tag@) {
                    assert(names(applied@) =~= before.push(tag@));
                    lemma_subscriptions_push(m0, dist@, owner@, before, tag@);
                } else {
                    assert(names(applied@) =~= before);
                }
            }
            i = i + 1;
        }
        assert(all.take(tag_names@.len() as int) =~= all);
        applied
    }

    /// Unsubscribes `dist` from each named tag of `owner` that `actor` may use
    /// and that exists; returns the tags applied, in the order given.
    pub fn unsubscribe_batch(&mut self, dist: &str, actor: &Owner, tag_names: &Vec<String>, owner: &Owner) -> (r: Vec<String>)
        requires
            old(self)@.wf(),
        ensures
            names(r@) == batch_tags(old(self)@, actor@, owner@, names(tag_names@)),
            final(self)@ == old(self)@.without_subscriptions(dist@, owner@, names(r@)),
            final(self)@.wf(),
    {
        let mut applied: Vec<String> = Vec::new();
        assert(names(applied@) =~= Seq::empty());
        proof {
            lemma_subscriptions_empty(self@, dist@, owner@);
        }
        if !can_subscribe(actor, owner) {
            return applied;
        }
        let ghost m0 = self@;
        let ghost all = names(tag_names@);
        let ghost pred = |t: Seq<char>| m0.tag_exists(owner@, t);
        let mut i: usize = 0;
        proof {
            reveal(Seq::filter);
            assert(all.take(0) =~= Seq::empty());
        }
        while i < tag_names.len()
            invariant
                i <= tag_names.len(),
                m0 == old(self)@,
                all == names(tag_names@),
                pred == (|t: Seq<char>| m0.tag_exists(owner@, t)),
                names(applied@) == all.take(i as int).filter(pred),
                self@ == m0.without_subscriptions(dist@, owner@, names(applied@)),
                self@.wf(),
            decreases tag_names.len() - i,
        {
            let tag = &tag_names[i];
            let ghost before = names(applied@);
            if self.has_tag(owner, tag.as_str()) {
                self.unsubscribe(dist, owner, tag.as_str());
                applied.push(tag.clone());
            }
            proof {
                reveal(Seq::filter);
                assert(all.take(i + 1).drop_last() =~= all.take(i as int));
                assert(all.take(i + 1).last() == tag@);
                assert(self@.members == m0.members);
                if pred(tag@) {
                    assert(names(applied@) =~= before.push(tag@));
                    lemma_subscriptions_push(m0, dist@, owner@, before, tag@);
                } else {
                    assert(names(applied@) =~= before);
                }
            }
            i = i + 1;
        }
        assert(all.take(tag_names@.len() as int) =~= all);
        applied
    }

    /// The tags `actor` can see: its own, and the public ones.
    pub fn list_visible_tags(&self, actor: &Owner) -> (r: (Vec<String>, Vec<String>))
        ensures
            row_set(r.0@) == self@.tags_of(actor@),
            distinct_rows(r.0@),
            row_set(r.1@) == self@.tags_of(OwnerId::Public),
            distinct_rows(r.1@),
    {
        (self.list_tags(actor), self.list_tags(&Owner::Public))
    }

    /// Applies one folder operation to the tag `(owner, folder)`: `Add` and
    /// `Delete` add or remove `channel`; `RetrieveBot` sets the bot policy to
    /// `retrieve_bot`, which it needs, and fails with `NotFound` on a tag that
    /// does not exist.
    pub fn operate_channel_list(
        &mut self,
        folder: &str,
        channel: &str,
        owner: &Owner,
        operation: FolderOperation,
        retrieve_bot: Option<bool>,
    ) -> (r: Result<(), RelayError>)
        requires
            old(self)@.wf(),
        ensures
            final(self)@.wf(),
            match operation {
                FolderOperation::Add => r == Ok::<(), RelayError>(())
                    && final(self)@ == old(self)@.with_source(owner@, folder@, channel@),
                FolderOperation::Delete => r == Ok::<(), RelayError>(())
                    && final(self)@ == old(self)@.without_source(owner@, folder@, channel@),
                FolderOperation::RetrieveBot => match retrieve_bot {
                    None => r == Err::<(), RelayError>(RelayError::InvalidArgument) && final(self)@ == old(self)@,
                    Some(flag) => if old(self)@.tag_exists(owner@, folder@) {
                        r == Ok::<(), RelayError>(()) && final(self)@ == old(self)@.with_bot_policy(owner@, folder@, flag)
                    } else {
                        r == Err::<(), RelayError>(RelayError::NotFound) && final(self)@ == old(self)@
                    },
                },
            },
    {
        match operation {
            FolderOperation::Add => {
                self.add_source(owner, folder, channel);
                Ok(())
            },
            FolderOperation::Delete => {
                self.remove_source(owner, folder, channel);
                Ok(())
            },
            FolderOperation::RetrieveBot => match retrieve_bot {
                None => Err(RelayError::InvalidArgument),
                Some(flag) => self.set_retrieve_bot(owner, folder, flag),
            },
        }
    }

    /// Grants (`grant`) or revokes each channel reference `<#ID|name>` of
    /// `channel_refs` on the tag `(owner, tag)`, one after the other; returns
    /// each one's outcome, the channel identifier when it was applied.
    pub fn operate_sources(
        &mut self,
        actor: &Owner,
        owner: &Owner,
        tag: &str,
        channel_refs: &Vec<String>,
        grant: bool,
    ) -> (r: Vec<Result<String, RelayError>>)
        requires
            old(self)@.wf(),
        ensures
            (final(self)@, outcomes(r@)) == source_batch(old(self)@, actor@, owner@, tag@, names(channel_refs@), grant),
            final(self)@.wf(),
    {
        let mut results: Vec<Result<String, RelayError>> = Vec::new();
        let ghost m0 = self@;
        let ghost all = names(channel_refs@);
        let mut i: usize = 0;
        assert(all.take(0) =~= Seq::<Seq<char>>::empty());
        assert(outcomes(results@) =~= Seq::<Result<Seq<char>, RelayError>>::empty());
        while i < channel_refs.len()
            invariant
                i <= channel_refs.len(),
                all == names(channel_refs@),
                (self@, outcomes(results@)) == source_batch(m0, actor@, owner@, tag@, all.take(i as int), grant),
                self@.wf(),
            decreases channel_refs.len() - i,
        {
            let ghost before = outcomes(results@);
            let ghost m1 = self@;
            let text = channel_refs[i].as_str();
            let outcome = match channel_preprocess(text) {
                Err(e) => Err(e),
                Ok(id) => {
                    let done = if grant {
                        self.grant_source(actor, owner, tag, id.as_str())
                    } else {
                        self.revoke_source(actor, owner, tag, id.as_str())
                    };
                    match done {
                        Ok(()) => Ok(id),
                        Err(e) => Err(e),
                    }
                },
            };
            results.push(outcome);
            proof {
                assert(all.take(i + 1).drop_last() =~= all.take(i as int));
                assert(all.take(i + 1).last() == channel_refs@[i as int]@);
                assert(outcomes(results@) =~= before.push(outcomes(results@).last()));
            }
            i = i + 1;
        }
        assert(all.take(channel_refs@.len() as int) =~= all);
        results
    }
}

} // verus!
