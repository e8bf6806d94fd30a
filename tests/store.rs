use channel_bugyo::api::FolderOperation;
use channel_bugyo::owner::Owner;
use channel_bugyo::store::{RelayError, RelayStore};

fn user(id: &str) -> Owner {
    Owner::User(id.to_string())
}

fn sorted(mut v: Vec<String>) -> Vec<String> {
    v.sort();
    v
}

#[test]
fn add_source_twice_equals_once() {
    let mut once = RelayStore::new();
    once.add_source(&user("U1"), "news", "C1");
    let mut twice = RelayStore::new();
    twice.add_source(&user("U1"), "news", "C1");
    twice.add_source(&user("U1"), "news", "C1");
    assert_eq!(once.get_sources(&user("U1"), "news").unwrap(), vec!["C1".to_string()]);
    assert_eq!(twice.get_sources(&user("U1"), "news").unwrap(), vec!["C1".to_string()]);
}

#[test]
fn subscribe_twice_equals_once() {
    let mut s = RelayStore::new();
    s.add_source(&user("U1"), "news", "C1");
    s.subscribe("D1", &user("U1"), "news");
    s.subscribe("D1", &user("U1"), "news");
    let subs = s.list_subscriptions("D1");
    assert_eq!(subs.len(), 1);
    assert_eq!(subs[0].name, "news");
}

#[test]
fn removing_last_source_deletes_tag() {
    let mut s = RelayStore::new();
    s.add_source(&user("U1"), "news", "C1");
    s.set_retrieve_bot(&user("U1"), "news", true).unwrap();
    s.remove_source(&user("U1"), "news", "C1");
    assert_eq!(s.get_sources(&user("U1"), "news"), Err(RelayError::NotFound));
    assert!(!s.has_tag(&user("U1"), "news"));
    // a tag made again starts with the default bot policy
    s.add_source(&user("U1"), "news", "C2");
    assert!(!s.retrieves_bot(&user("U1"), "news"));
}

#[test]
fn removing_one_of_two_sources_keeps_tag() {
    let mut s = RelayStore::new();
    s.add_source(&user("U1"), "news", "C1");
    s.add_source(&user("U1"), "news", "C2");
    s.remove_source(&user("U1"), "news", "C1");
    assert_eq!(s.get_sources(&user("U1"), "news").unwrap(), vec!["C2".to_string()]);
}

#[test]
fn set_retrieve_bot_on_missing_tag_is_not_found() {
    let mut s = RelayStore::new();
    assert_eq!(s.set_retrieve_bot(&user("U1"), "none", true), Err(RelayError::NotFound));
    assert!(!s.has_tag(&user("U1"), "none"));
}

#[test]
fn list_tags_is_per_owner() {
    let mut s = RelayStore::new();
    s.add_source(&user("U1"), "a", "C1");
    s.add_source(&user("U1"), "a", "C2");
    s.add_source(&user("U1"), "b", "C1");
    s.add_source(&user("U2"), "c", "C1");
    s.add_source(&Owner::Public, "p", "C3");
    assert_eq!(sorted(s.list_tags(&user("U1"))), vec!["a".to_string(), "b".to_string()]);
    assert_eq!(s.list_tags(&Owner::Public), vec!["p".to_string()]);
    let (own, public) = s.list_visible_tags(&user("U2"));
    assert_eq!(own, vec!["c".to_string()]);
    assert_eq!(public, vec!["p".to_string()]);
}

#[test]
fn unsubscribe_removes_only_that_subscription() {
    let mut s = RelayStore::new();
    s.add_source(&user("U1"), "a", "C1");
    s.add_source(&user("U1"), "b", "C1");
    s.subscribe("D1", &user("U1"), "a");
    s.subscribe("D1", &user("U1"), "b");
    s.unsubscribe("D1", &user("U1"), "a");
    s.unsubscribe("D1", &user("U1"), "a");
    let subs = s.list_subscriptions("D1");
    assert_eq!(subs.len(), 1);
    assert_eq!(subs[0].name, "b");
}

#[test]
fn test_register_channel() {
    let mut s = RelayStore::new();
    s.add_source(&user("U0987"), "test", "C01234");
    assert_eq!(s.get_sources(&user("U0987"), "test").unwrap(), vec!["C01234".to_string()]);
}

#[test]
fn test_unregister_channel() {
    let mut s = RelayStore::new();
    s.add_source(&user("U0987"), "test", "C01234");
    s.remove_source(&user("U0987"), "test", "C01234");
    assert!(s.get_sources(&user("U0987"), "test").is_err());
}

#[test]
fn test_retrieve_bot() {
    let mut s = RelayStore::new();
    s.add_source(&user("U0987"), "test", "C01234");
    assert!(!s.retrieves_bot(&user("U0987"), "test"));
    s.set_retrieve_bot(&user("U0987"), "test", true).unwrap();
    assert!(s.retrieves_bot(&user("U0987"), "test"));
}

#[test]
fn test_is_valid() {
    let mut s = RelayStore::new();
    s.add_source(&user("U0987"), "test", "C01234");
    assert!(s.has_tag(&user("U0987"), "test"));
    assert!(!s.has_tag(&user("U000"), "test"));
}

#[test]
fn test_add_tag() {
    let mut s = RelayStore::new();
    s.add_source(&user("U0987654"), "test_dist", "C1");
    s.subscribe("C012345dist", &user("U0987654"), "test_dist");
    let subs = s.list_subscriptions("C012345dist");
    assert_eq!(subs.len(), 1);
    assert_eq!(subs[0].name, "test_dist");
}

#[test]
fn test_remove() {
    let mut s = RelayStore::new();
    s.add_source(&user("U0987654"), "test_dist", "C1");
    s.subscribe("C012345dist", &user("U0987654"), "test_dist");
    s.unsubscribe("C012345dist", &user("U0987654"), "test_dist");
    assert!(s.list_subscriptions("C012345dist").is_empty());
}

#[test]
fn dist_test_tag_list() {
    let mut s = RelayStore::new();
    s.add_source(&user("U0987654"), "test_dist", "C1");
    s.subscribe("C012345dist", &user("U0987654"), "test_dist");
    let names: Vec<String> = s.list_subscriptions("C012345dist").into_iter().map(|t| t.name).collect();
    assert!(names.contains(&"test_dist".to_string()));
}

#[test]
fn fetch_user_folder_test_tag_list() {
    let mut s = RelayStore::new();
    s.add_source(&user("U00001"), "test_a", "C01");
    s.add_source(&user("U00001"), "test_b", "C02");
    s.add_source(&Owner::Public, "test_pub", "C03");
    let tag_list_user = s.list_tags(&user("U00001"));
    let tag_list_pub = s.list_tags(&Owner::Public);
    assert!(tag_list_pub.contains(&"test_pub".to_string()));
    assert!(["test_a", "test_b"].iter().all(|t| tag_list_user.contains(&t.to_string())));
}

#[test]
fn test_channel_list() {
    let mut s = RelayStore::new();
    s.add_source(&user("U00001"), "test_a", "C01");
    s.add_source(&user("U00001"), "test_a", "C02");
    s.add_source(&Owner::Public, "test_pub", "C03");
    let ch_list = s.get_sources(&user("U00001"), "test_a").unwrap();
    let ch_list_no_auth = s.get_sources(&user("U00002"), "test_a");
    let ch_list_pub = s.get_sources(&Owner::Public, "test_pub").unwrap();
    assert_eq!(ch_list_no_auth, Err(RelayError::NotFound));
    assert!(["C01", "C02"].iter().all(|c| ch_list.contains(&c.to_string())));
    assert!(ch_list_pub.contains(&"C03".to_string()));
}

#[test]
fn test_add_dists() {
    let mut s = RelayStore::new();
    s.add_source(&user("U1"), "poi", "C1");
    s.subscribe("C012345678", &user("U1"), "poi");
    assert!(s.list_subscriptions("C012345678").iter().any(|t| t.name == "poi"));
}

#[test]
fn test_create_and_add_channel_list() {
    let mut s = RelayStore::new();
    let u = user("U0123455");
    s.operate_channel_list("test", "C01234567", &u, FolderOperation::Add, None).unwrap();
    let has_channel = s.get_sources(&u, "test").unwrap().contains(&"C01234567".to_string());
    s.operate_channel_list("test", "C01234567", &u, FolderOperation::Delete, None).unwrap();
    assert!(has_channel);
}

#[test]
fn delete_channel_list_test() {
    let mut s = RelayStore::new();
    let u = user("U01234557");
    let before = s.list_tags(&u);
    s.operate_channel_list("test", "C987654321", &u, FolderOperation::Add, None).unwrap();
    s.operate_channel_list("test", "C987654321", &u, FolderOperation::Delete, None).unwrap();
    assert_eq!(before, s.list_tags(&u));
}

#[test]
fn operate_retrieve_bot_needs_a_flag() {
    let mut s = RelayStore::new();
    let u = user("U1");
    s.operate_channel_list("t", "C1", &u, FolderOperation::Add, None).unwrap();
    assert_eq!(
        s.operate_channel_list("t", "C1", &u, FolderOperation::RetrieveBot, None),
        Err(RelayError::InvalidArgument)
    );
    assert_eq!(s.operate_channel_list("t", "C1", &u, FolderOperation::RetrieveBot, Some(true)), Ok(()));
    assert!(s.retrieves_bot(&u, "t"));
    assert_eq!(
        s.operate_channel_list("missing", "C1", &u, FolderOperation::RetrieveBot, Some(true)),
        Err(RelayError::NotFound)
    );
}
