//! Reading the arguments of the slash command, once split into words.
use vstd::prelude::*;
use crate::api::names;
use crate::owner::{Owner, OwnerId};
use crate::store::RelayError;
use crate::text::same_text;

verus! {

/// The flag that addresses the public tags instead of the user's own.
pub const PUBLIC_FLAG: &'static str = "--public";

/// The owner that arguments address, the argument naming the tag (or the
/// channel to create), and the index of the arguments after it.
pub open spec fn owner_and_head_of(args: Seq<Seq<char>>, user: Seq<char>) -> Option<(OwnerId, Seq<char>, int)> {
    if args.len() == 0 {
        None
    } else if args[0] == PUBLIC_FLAG@ {
        if args.len() < 2 {
            None
        } else {
            Some((OwnerId::Public, args[1], 2))
        }
    } else {
        Some((OwnerId::User(user), args[0], 1))
    }
}

/// The owner that arguments address and the tags they name.
pub open spec fn owner_and_tags_of(args: Seq<Seq<char>>, user: Seq<char>) -> Option<(OwnerId, Seq<Seq<char>>)> {
    if args.len() == 0 {
        None
    } else if args[0] == PUBLIC_FLAG@ {
        Some((OwnerId::Public, args.skip(1)))
    } else {
        Some((OwnerId::User(user), args))
    }
}

/// `[--public] NAME ...`: the owner addressed, `NAME`, and where the rest
/// starts; `InvalidArgument` when `NAME` is missing.
pub fn owner_and_head(args: &Vec<String>, user: &str) -> (r: Result<(Owner, String, usize), RelayError>)
    ensures
        match owner_and_head_of(names(args@), user@) {
            None => r == Err::<(Owner, String, usize), RelayError>(RelayError::InvalidArgument),
            Some((o, head, k)) => r matches Ok((owner, name, rest)) && owner@ == o && name@ == head && rest == k,
        },
{
    if args.len() == 0 {
        return Err(RelayError::InvalidArgument);
    }
    if same_text(args[0].as_str(), PUBLIC_FLAG) {
        if args.len() < 2 {
            return Err(RelayError::InvalidArgument);
        }
        Ok((Owner::Public, args[1].clone(), 2))
    } else {
        Ok((Owner::select(user, false), args[0].clone(), 1))
    }
}

/// `[--public] TAG ...`: the owner addressed and the tags named;
/// `InvalidArgument` when there is no argument at all.
pub fn owner_and_tags(args: &Vec<String>, user: &str) -> (r: Result<(Owner, Vec<String>), RelayError>)
    ensures
        match owner_and_tags_of(names(args@), user@) {
            None => r == Err::<(Owner, Vec<String>), RelayError>(RelayError::InvalidArgument),
            Some((o, tags)) => r matches Ok((owner, v)) && owner@ == o && names(v@) == tags,
        },
{
    if args.len() == 0 {
        return Err(RelayError::InvalidArgument);
    }
    let public = same_text(args[0].as_str(), PUBLIC_FLAG);
    let start: usize = if public { 1 } else { 0 };
    let mut tags: Vec<String> = Vec::new();
    let mut i: usize = start;
    while i < args.len()
        invariant
            start <= i <= args.len(),
            names(tags@) == names(args@).subrange(start as int, i as int),
        decreases args.len() - i,
    {
        let ghost before = names(tags@);
        let arg = args[i].clone();
        assert(arg@ == names(args@)[i as int]);
        tags.push(arg);
        assert(names(tags@) =~= before.push(arg@));
        assert(names(tags@) =~= names(args@).subrange(start as int, i + 1));
        i = i + 1;
    }
    assert(names(args@).subrange(start as int, args@.len() as int) =~= names(args@).skip(start as int));
    assert(names(args@).skip(0) =~= names(args@));
    Ok((Owner::select(user, public), tags))
}

/// `true` or `false`; `InvalidArgument` for anything else.
pub fn parse_flag(arg: &str) -> (r: Result<bool, RelayError>)
    ensures
        r == (if arg@ == "true"@ {
            Ok(true)
        } else if arg@ == "false"@ {
            Ok(false)
        } else {
            Err(RelayError::InvalidArgument)
        }),
{
    if same_text(arg, "true") {
        Ok(true)
    } else if same_text(arg, "false") {
        Ok(false)
    } else {
        Err(RelayError::InvalidArgument)
    }
}

} // verus!
