//! Properties of the engine that relate several operations or hold of every
//! state, proved over the abstract model that the operations' contracts use.
use vstd::prelude::*;
use crate::api::{batch_tags, grant_result, valid_id};
use crate::owner::{OwnerId, may_subscribe};
use crate::routing::SenderView;
use crate::store::{RelayError, RelayModel};

verus! {

/// Adding a source channel twice leaves the same state, and so the same
/// sources, as adding it once.
pub proof fn add_source_idempotent(m: RelayModel, o: OwnerId, t: Seq<char>, c: Seq<char>)
    ensures
        m.with_source(o, t, c).with_source(o, t, c) == m.with_source(o, t, c),
        m.with_source(o, t, c).with_source(o, t, c).sources(o, t) == m.with_source(o, t, c).sources(o, t),
{
    assert(m.with_source(o, t, c).with_source(o, t, c) =~= m.with_source(o, t, c));
}

/// Subscribing a channel to a tag twice leaves the same state as once.
pub proof fn subscribe_idempotent(m: RelayModel, d: Seq<char>, o: OwnerId, t: Seq<char>)
    ensures
        m.with_subscription(d, o, t).with_subscription(d, o, t) == m.with_subscription(d, o, t),
{
    assert(m.with_subscription(d, o, t).with_subscription(d, o, t) =~= m.with_subscription(d, o, t));
}

/// Removing the only source channel of a tag deletes the tag, so that reading
/// its sources fails with `NotFound`.
pub proof fn remove_last_source_deletes_tag(m: RelayModel, o: OwnerId, t: Seq<char>, c: Seq<char>)
    requires
        m.sources(o, t) == set![c],
    ensures
        !m.without_source(o, t, c).tag_exists(o, t),
        !m.without_source(o, t, c).retrieve_bot(o, t),
{
    let r = m.without_source(o, t, c);
    assert forall|x: Seq<char>| !r.members.contains((o, t, x)) by {
        if x != c {
            assert(!m.sources(o, t).contains(x));
        }
    }
}

/// A user cannot add channels to another user's private tag, while any
/// actor can add well-formed channels to a public tag.
pub proof fn grant_source_authorization(u1: Seq<char>, u2: Seq<char>, actor: OwnerId, t: Seq<char>, c: Seq<char>)
    requires
        u1 != u2,
    ensures
        grant_result(OwnerId::User(u2), OwnerId::User(u1), t, c) == Err::<(), RelayError>(RelayError::Unauthorized),
        valid_id(t) && valid_id(c) ==> grant_result(actor, OwnerId::Public, t, c) == Ok::<(), RelayError>(()),
{
}

/// Messages sent by the application's own bot are never relayed, whatever the
/// subscriptions.
pub proof fn own_messages_have_no_targets(m: RelayModel, source: Seq<char>, sender: SenderView, own_bot_id: Seq<char>)
    requires
        sender.bot_id == Some(own_bot_id),
    ensures
        m.targets(source, sender, own_bot_id) == Set::<Seq<char>>::empty(),
        !m.is_candidate(source, sender, own_bot_id),
{
}

/// A channel subscribed to two tags that both hold the source channel is a
/// target of a person's message from it; being a set, the targets hold it
/// once.
pub proof fn shared_source_is_one_target(
    m: RelayModel,
    d: Seq<char>,
    o1: OwnerId,
    t1: Seq<char>,
    o2: OwnerId,
    t2: Seq<char>,
    source: Seq<char>,
    sender: SenderView,
    own_bot_id: Seq<char>,
)
    requires
        m.subs.contains((d, o1, t1)),
        m.subs.contains((d, o2, t2)),
        m.members.contains((o1, t1, source)),
        m.members.contains((o2, t2, source)),
        sender.bot_id is None,
    ensures
        m.targets(source, sender, own_bot_id).contains(d),
{
    assert(m.subs.contains((d, o1, t1)) && m.relays(o1, t1, source, false));
}

/// An actor cannot unsubscribe a channel from another user's private tags:
/// nothing is applied and the state is unchanged.
pub proof fn unauthorized_unsubscribe_changes_nothing(
    m: RelayModel,
    d: Seq<char>,
    u1: Seq<char>,
    u2: Seq<char>,
    tags: Seq<Seq<char>>,
)
    requires
        u1 != u2,
    ensures
        !may_subscribe(OwnerId::User(u2), OwnerId::User(u1)),
        batch_tags(m, OwnerId::User(u2), OwnerId::User(u1), tags) == Seq::<Seq<char>>::empty(),
        m.without_subscriptions(d, OwnerId::User(u1), batch_tags(m, OwnerId::User(u2), OwnerId::User(u1), tags)) == m,
{
    assert(m.without_subscriptions(d, OwnerId::User(u1), Seq::empty()) =~= m);
}

} // verus!
