use channel_bugyo::api::FolderOperation;
use channel_bugyo::owner::{can_manage, can_subscribe, Owner};
use channel_bugyo::routing::Sender;
use channel_bugyo::store::{BotPolicy, RelayError, RelayStore};

fn user(id: &str) -> Owner {
    Owner::User(id.to_string())
}

fn human(id: &str) -> Sender {
    Sender { user: Some(id.to_string()), bot_id: None }
}

fn names(v: &[&str]) -> Vec<String> {
    v.iter().map(|s| s.to_string()).collect()
}

#[test]
fn policy_decisions() {
    assert!(can_manage(&user("u1"), &user("u1")));
    assert!(!can_manage(&user("u2"), &user("u1")));
    assert!(can_manage(&user("u2"), &Owner::Public));
    assert!(can_subscribe(&user("u1"), &user("u1")));
    assert!(!can_subscribe(&user("u2"), &user("u1")));
    assert!(can_subscribe(&user("u2"), &Owner::Public));
}

#[test]
fn grant_on_foreign_private_tag_is_unauthorized() {
    let mut s = RelayStore::new();
    s.grant_source(&user("u1"), &user("u1"), "t", "C1").unwrap();
    assert_eq!(s.grant_source(&user("u2"), &user("u1"), "t", "C2"), Err(RelayError::Unauthorized));
    assert_eq!(s.get_sources(&user("u1"), "t").unwrap(), names(&["C1"]));
}

#[test]
fn grant_on_public_tag_succeeds_for_anyone() {
    let mut s = RelayStore::new();
    assert_eq!(s.grant_source(&user("u2"), &Owner::Public, "p", "C1"), Ok(()));
    assert_eq!(s.grant_source(&user("u3"), &Owner::Public, "p", "C2"), Ok(()));
    let mut got = s.get_sources(&Owner::Public, "p").unwrap();
    got.sort();
    assert_eq!(got, names(&["C1", "C2"]));
}

#[test]
fn grant_with_empty_identifier_is_invalid() {
    let mut s = RelayStore::new();
    assert_eq!(s.grant_source(&user("u1"), &user("u1"), "", "C1"), Err(RelayError::InvalidArgument));
    assert_eq!(s.grant_source(&user("u1"), &user("u1"), "t", ""), Err(RelayError::InvalidArgument));
    assert!(!s.has_tag(&user("u1"), ""));
}

#[test]
fn revoke_errors() {
    let mut s = RelayStore::new();
    s.grant_source(&user("u1"), &user("u1"), "t", "C1").unwrap();
    assert_eq!(s.revoke_source(&user("u2"), &user("u1"), "t", "C1"), Err(RelayError::Unauthorized));
    assert_eq!(s.revoke_source(&user("u1"), &user("u1"), "none", "C1"), Err(RelayError::NotFound));
    assert_eq!(s.revoke_source(&user("u1"), &user("u1"), "t", ""), Err(RelayError::InvalidArgument));
    assert_eq!(s.revoke_source(&user("u1"), &user("u1"), "t", "C9"), Ok(()));
    assert_eq!(s.get_sources(&user("u1"), "t").unwrap(), names(&["C1"]));
}

#[test]
fn bot_policy_errors() {
    let mut s = RelayStore::new();
    s.grant_source(&user("u1"), &user("u1"), "t", "C1").unwrap();
    assert_eq!(s.set_bot_policy(&user("u2"), &user("u1"), "t", true), Err(RelayError::Unauthorized));
    assert_eq!(s.set_bot_policy(&user("u1"), &user("u1"), "none", true), Err(RelayError::NotFound));
    assert_eq!(s.set_bot_policy(&user("u1"), &user("u1"), "t", true), Ok(()));
    assert!(s.retrieves_bot(&user("u1"), "t"));
    assert_eq!(s.set_bot_policy(&user("u1"), &user("u1"), "t", false), Ok(()));
    assert!(!s.retrieves_bot(&user("u1"), "t"));
}

#[test]
fn subscribe_batch_drops_missing_and_unauthorized() {
    let mut s = RelayStore::new();
    s.grant_source(&user("u1"), &user("u1"), "a", "C1").unwrap();
    s.grant_source(&user("u1"), &user("u1"), "b", "C2").unwrap();
    let applied = s.subscribe_batch("D1", &user("u1"), &names(&["a", "missing", "b"]), &user("u1"));
    assert_eq!(applied, names(&["a", "b"]));
    assert_eq!(s.list_subscriptions("D1").len(), 2);
    let none = s.subscribe_batch("D2", &user("u2"), &names(&["a"]), &user("u1"));
    assert!(none.is_empty());
    assert!(s.list_subscriptions("D2").is_empty());
}

#[test]
fn unsubscribe_batch_by_other_user_changes_nothing() {
    let mut s = RelayStore::new();
    s.grant_source(&user("u1"), &user("u1"), "t1", "C1").unwrap();
    s.subscribe_batch("D1", &user("u1"), &names(&["t1"]), &user("u1"));
    let applied = s.unsubscribe_batch("D1", &user("u2"), &names(&["t1"]), &user("u1"));
    assert!(applied.is_empty());
    let subs = s.list_subscriptions("D1");
    assert_eq!(subs.len(), 1);
    assert_eq!(subs[0].name, "t1");
}

#[test]
fn unsubscribe_batch_by_owner() {
    let mut s = RelayStore::new();
    s.grant_source(&user("u1"), &user("u1"), "t1", "C1").unwrap();
    s.subscribe_batch("D1", &user("u1"), &names(&["t1"]), &user("u1"));
    let applied = s.unsubscribe_batch("D1", &user("u1"), &names(&["t1", "gone"]), &user("u1"));
    assert_eq!(applied, names(&["t1"]));
    assert!(s.list_subscriptions("D1").is_empty());
}

#[test]
fn end_to_end_grant_subscribe_revoke() {
    let mut s = RelayStore::new();
    let u1 = user("u1");
    s.grant_source(&u1, &u1, "eng", "#A").unwrap();
    let applied = s.subscribe_batch("D1", &u1, &names(&["eng"]), &u1);
    assert_eq!(applied, names(&["eng"]));
    assert_eq!(s.targets_for("#A", &human("u5"), "BSELF"), names(&["D1"]));
    s.revoke_source(&u1, &u1, "eng", "#A").unwrap();
    assert!(s.targets_for("#A", &human("u5"), "BSELF").is_empty());
    assert_eq!(s.get_sources(&u1, "eng"), Err(RelayError::NotFound));
}

#[test]
fn select_owner() {
    assert!(matches!(Owner::select("u1", true), Owner::Public));
    assert!(matches!(Owner::select("u1", false), Owner::User(u) if u == "u1"));
    let mut s = RelayStore::new();
    s.operate_channel_list("t", "C1", &Owner::select("u1", false), FolderOperation::Add, None).unwrap();
    assert!(s.has_tag(&user("u1"), "t"));
}

#[test]
fn grant_batch_applies_each_reference_alone() {
    let mut s = RelayStore::new();
    let u1 = user("u1");
    let out = s.operate_sources(&u1, &u1, "t", &names(&["<#C1|a>", "C2", "<#C3|c>"]), true);
    assert_eq!(out, vec![Ok("C1".to_string()), Err(RelayError::InvalidArgument), Ok("C3".to_string())]);
    let mut got = s.get_sources(&u1, "t").unwrap();
    got.sort();
    assert_eq!(got, names(&["C1", "C3"]));
    let denied = s.operate_sources(&user("u2"), &u1, "t", &names(&["<#C4|d>"]), true);
    assert_eq!(denied, vec![Err(RelayError::Unauthorized)]);
}

#[test]
fn revoke_batch_reports_missing_tag_after_last_source() {
    let mut s = RelayStore::new();
    let u1 = user("u1");
    s.operate_sources(&u1, &u1, "t", &names(&["<#C1|a>"]), true);
    let out = s.operate_sources(&u1, &u1, "t", &names(&["<#C1|a>", "<#C1|a>"]), false);
    assert_eq!(out, vec![Ok("C1".to_string()), Err(RelayError::NotFound)]);
    assert!(!s.has_tag(&u1, "t"));
}

#[test]
fn rows_round_trip() {
    let mut s = RelayStore::new();
    let u1 = user("u1");
    s.grant_source(&u1, &u1, "t", "C1").unwrap();
    s.set_bot_policy(&u1, &u1, "t", true).unwrap();
    s.subscribe_batch("D1", &u1, &names(&["t"]), &u1);
    let (members, bots, subs) = s.rows();
    let copy = RelayStore::from_rows(members, bots, subs);
    assert_eq!(copy.get_sources(&u1, "t").unwrap(), names(&["C1"]));
    assert!(copy.retrieves_bot(&u1, "t"));
    assert_eq!(copy.targets_for("C1", &Sender { user: None, bot_id: Some("B1".to_string()) }, "BSELF"), names(&["D1"]));
}

#[test]
fn from_rows_drops_policy_of_missing_tag() {
    let s = RelayStore::from_rows(vec![], vec![BotPolicy { owner: user("u1"), tag: "t".to_string() }], vec![]);
    assert!(!s.retrieves_bot(&user("u1"), "t"));
}
