use channel_bugyo::help::{choose_text, ADD_TEXT, HELP_TEXT, UNDEFINED_TEXT};
use channel_bugyo::store::RelayError;
use channel_bugyo::text::{channel_id_to_channel_name, channel_preprocess, escape_mention, process_message};

#[test]
fn channel_preprocess_test() {
    let slack_channel = "<#test_channel|https://xxxxxxxxxxxxxxxx>";
    let processed = channel_preprocess(slack_channel).unwrap();
    assert_eq!("test_channel", processed);
}

#[test]
fn channel_preprocess_edge_cases() {
    assert_eq!(channel_preprocess("C123"), Err(RelayError::InvalidArgument));
    assert_eq!(channel_preprocess("<#|x>"), Err(RelayError::InvalidArgument));
    assert_eq!(channel_preprocess("<#C1>"), Err(RelayError::InvalidArgument));
    assert_eq!(channel_preprocess("x <#|y> <#C2|z>").unwrap(), "C2");
    assert_eq!(channel_preprocess("<#C1|a|b>").unwrap(), "C1");
    assert_eq!(channel_preprocess("<#<#C3|n>").unwrap(), "<#C3");
}

#[test]
fn channel_id_to_channel_name_test() {
    let processed = channel_id_to_channel_name("C12345678");
    assert_eq!("<#C12345678>", processed);
}

#[test]
fn escape_mention_test() {
    let test_txt = "test mention <@U12345T435T> test";
    let new = escape_mention(test_txt);
    assert_eq!("test mention @U12345T435T test".to_string(), new);
}

#[test]
fn escape_mention_edge_cases() {
    assert_eq!(escape_mention(""), "");
    assert_eq!(escape_mention("<@U1><@U2>"), "@U1@U2");
    assert_eq!(escape_mention("<@u1> <@> <@U1"), "<@u1> <@> <@U1");
    assert_eq!(escape_mention("<<@AB9>>"), "<@AB9>");
}

#[test]
fn process_message_prefixes_source_link() {
    assert_eq!(process_message("hi <@U1>", "C9"), " `<#C9>` hi @U1");
}

#[test]
fn choose_text_picks_by_command() {
    assert_eq!(choose_text("help"), HELP_TEXT);
    assert_eq!(choose_text("add"), ADD_TEXT);
    assert_eq!(choose_text("nope"), UNDEFINED_TEXT);
    assert!(choose_text("target_list").contains("target_list"));
}
