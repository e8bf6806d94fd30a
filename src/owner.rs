//! Owners of tags and the authorization policy over them.
use vstd::prelude::*;

verus! {

/// The mathematical identity of an owner.
pub enum OwnerId {
    User(Seq<char>),
    Public,
}

/// The owner of a tag: a concrete user, or the shared public pseudo-owner.
#[derive(Debug)]
pub enum Owner {
    User(String),
    Public,
}

impl View for Owner {
    type V = OwnerId;

    open spec fn view(&self) -> OwnerId {
        match self {
            Owner::User(u) => OwnerId::User(u@),
            Owner::Public => OwnerId::Public,
        }
    }
}

impl Owner {
    /// Whether both values name the same owner.
    pub fn same(&self, other: &Owner) -> (r: bool)
        ensures
            r == (self@ == other@),
    {
        match self {
            Owner::User(a) => match other {
                Owner::User(b) => a.eq(b),
                Owner::Public => false,
            },
            Owner::Public => matches!(other, Owner::Public),
        }
    }

    /// A copy of this owner.
    pub fn duplicate(&self) -> (r: Owner)
        ensures
            r@ == self@,
    {
        match self {
            Owner::User(u) => Owner::User(u.clone()),
            Owner::Public => Owner::Public,
        }
    }

    /// The owner a command addresses: the public pseudo-owner when `public`
    /// is set, else the invoking user.
    pub fn select(user: &str, public: bool) -> (r: Owner)
        ensures
            r@ == (if public { OwnerId::Public } else { OwnerId::User(user@) }),
    {
        if public {
            Owner::Public
        } else {
            Owner::User(String::from_str(user))
        }
    }
}

/// An actor may change a tag's sources or bot policy when it owns the tag,
/// or when the tag is public.
pub open spec fn may_manage(actor: OwnerId, tag_owner: OwnerId) -> bool {
    actor == tag_owner || tag_owner == OwnerId::Public
}

/// An actor may subscribe a channel to a tag that it owns, or to a public tag.
pub open spec fn may_subscribe(actor: OwnerId, tag_owner: OwnerId) -> bool {
    tag_owner == actor || tag_owner == OwnerId::Public
}

/// Whether `actor` may change the tags owned by `tag_owner`.
pub fn can_manage(actor: &Owner, tag_owner: &Owner) -> (r: bool)
    ensures
        r == may_manage(actor@, tag_owner@),
{
    actor.same(tag_owner) || matches!(tag_owner, Owner::Public)
}

/// Whether `actor` may use the tags owned by `tag_owner` for subscriptions.
pub fn can_subscribe(actor: &Owner, tag_owner: &Owner) -> (r: bool)
    ensures
        r == may_subscribe(actor@, tag_owner@),
{
    tag_owner.same(actor) || matches!(tag_owner, Owner::Public)
}

} // verus!
