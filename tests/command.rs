use channel_bugyo::command::{owner_and_head, owner_and_tags, parse_flag};
use channel_bugyo::owner::Owner;
use channel_bugyo::store::RelayError;

fn words(s: &str) -> Vec<String> {
    s.split_whitespace().map(|w| w.to_string()).collect()
}

#[test]
fn head_of_private_and_public_arguments() {
    let (owner, tag, rest) = owner_and_head(&words("news <#C1|a>"), "U1").unwrap();
    assert!(matches!(owner, Owner::User(u) if u == "U1"));
    assert_eq!(tag, "news");
    assert_eq!(rest, 1);
    let (owner, tag, rest) = owner_and_head(&words("--public news <#C1|a>"), "U1").unwrap();
    assert!(matches!(owner, Owner::Public));
    assert_eq!(tag, "news");
    assert_eq!(rest, 2);
}

#[test]
fn head_missing_is_invalid() {
    assert!(matches!(owner_and_head(&words(""), "U1"), Err(RelayError::InvalidArgument)));
    assert!(matches!(owner_and_head(&words("--public"), "U1"), Err(RelayError::InvalidArgument)));
}

#[test]
fn tags_of_private_and_public_arguments() {
    let (owner, tags) = owner_and_tags(&words("a b"), "U1").unwrap();
    assert!(matches!(owner, Owner::User(u) if u == "U1"));
    assert_eq!(tags, words("a b"));
    let (owner, tags) = owner_and_tags(&words("--public a b"), "U1").unwrap();
    assert!(matches!(owner, Owner::Public));
    assert_eq!(tags, words("a b"));
    let (_, tags) = owner_and_tags(&words("--public"), "U1").unwrap();
    assert!(tags.is_empty());
    assert!(matches!(owner_and_tags(&words(""), "U1"), Err(RelayError::InvalidArgument)));
}

#[test]
fn flags() {
    assert_eq!(parse_flag("true"), Ok(true));
    assert_eq!(parse_flag("false"), Ok(false));
    assert_eq!(parse_flag("yes"), Err(RelayError::InvalidArgument));
}
