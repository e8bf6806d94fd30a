//! Help texts of the slash command.
use vstd::prelude::*;
use crate::text::same_text;

verus! {

pub const HELP_TEXT: &'static str = "Channel Bugyo は、カスタマイズ可能なチャンネルメッセージ集約を行うためのSlack用アプリケーションです。
このアプリでは、収集したいチャンネルを管理するためにタグを使用します。タグにより、特定のトピックやプロジェクトごとに関連するチャンネルをまとめることができます。
タグには、ユーザーのみがアクセスできる「ユーザータグ」と、誰でもアクセスできる「パブリックタグ」という2つの種類があります。
「add」コマンドを使用すると、特定のタグにチャンネルを登録できます。例えば、add --publicというオプションを追加すると、パブリックなタグの管理が可能です。
使用可能なコマンドとして以下が存在し、 `/channel_bugyo help add` のように呼び出すことで、コマンドごとのヘルプを閲覧可能です。
使用可能なコマンド： `add, delete, retrieve_bot, ch_list, tag_list, set, unset, create_channel, target_list`";

pub const ADD_TEXT: &'static str = "指定したタグにチャンネルを追加します。デフォルトではプライベートタグとして、登録したユーザのみがアクセス可能です.。
`/channel_bugyo add [tag] [#channel_1] [#channel_2] [#channel_3] ...`
`/channel_bugyo add --public [tag] [#channel_1] [#channel_2] [#channel_3] ...`";

pub const DELETE_TEXT: &'static str = "指定したタグからチャンネルを削除します。
`/channel_bugyo delete [tag] [#channel_1] [#channel_2] [#channel_3] ...`
`/channel_bugyo delete --public [tag] [#channel_1] [#channel_2] [#channel_3] ...`";

pub const RETBOT_TEXT: &'static str = "指定したタグがボットによるメッセージを収集するかを設定します。（初期値は false)
第二引数が true であれば、ボットメッセージを収集するようになり、false であれば、ボットメッセージを無視します。
`/channel_bugyo retrieve_bot [tag] [bool]`
`/channel_bugyo retrieve_bot --public [tag] [bool]`";

pub const CH_LS_TEXT: &'static str = "指定したタグの収集対象チャンネルの一覧を表示します。
`/channel_bugyo ch_list [tag]`
`/channel_bugyo ch_list --public [tag]`";

pub const TAG_LS_TEXT: &'static str = "存在するタグの一覧を表示します。
`/channel_bugyo tag_list`";

pub const SET_TEXT: &'static str = "Channel Bugyo が追加されているチャンネルにおいて使用することで、そのチャンネルに、指定したタグで収集対象となっているチャンネルのメッセージを収集します。
`/channel_bugyo set [tag_1] [tag_2] [tag_3] ...`
`/channel_bugyo set --public [tag_1] [tag_2] [tag_3] ...`";

pub const UNSET_TEXT: &'static str = "set されているタグを収集対象から外します。
`/channel_bugyo unset [tag_1] [tag_2] [tag_3] ...`
`/channel_bugyo unset --public [tag_1] [tag_2] [tag_3] ...`";

pub const CREATE_TEXT: &'static str = "指定したタグを収集対象とする新たなプライベートチャンネルを作成します。
`/channel_bugyo create_channel [new_channel_name] [tag_1] [tag_2] [tag_3] ...`
`/channel_bugyo create_channel --public [new_channel_name] [tag_1] [tag_2] [tag_3] ...`";

pub const TARGET_LS_TEXT: &'static str = "現在チャンネルが収集対象としているタグの一覧を表示します。
`/channel_bugyo target_list`";

pub const UNDEFINED_TEXT: &'static str = "このコマンドは未定義です。";

/// The help text for a command name.
pub open spec fn help_text(arg: Seq<char>) -> Seq<char> {
    if arg == "help"@ {
        HELP_TEXT@
    } else if arg == "add"@ {
        ADD_TEXT@
    } else if arg == "delete"@ {
        DELETE_TEXT@
    } else if arg == "retrieve_bot"@ {
        RETBOT_TEXT@
    } else if arg == "ch_list"@ {
        CH_LS_TEXT@
    } else if arg == "tag_list"@ {
        TAG_LS_TEXT@
    } else if arg == "set"@ {
        SET_TEXT@
    } else if arg == "unset"@ {
        UNSET_TEXT@
    } else if arg == "create_channel"@ {
        CREATE_TEXT@
    } else if arg == "target_list"@ {
        TARGET_LS_TEXT@
    } else {
        UNDEFINED_TEXT@
    }
}

/// The help text for the command named by `arg`; a fixed notice for a name
/// that is no command.
pub fn choose_text(arg: &str) -> (r: String)
    ensures
        r@ == help_text(arg@),
{
    let text = if same_text(arg, "help") {
        HELP_TEXT
    } else if same_text(arg, "add") {
        ADD_TEXT
    } else if same_text(arg, "delete") {
        DELETE_TEXT
    } else if same_text(arg, "retrieve_bot") {
        RETBOT_TEXT
    } else if same_text(arg, "ch_list") {
        CH_LS_TEXT
    } else if same_text(arg, "tag_list") {
        TAG_LS_TEXT
    } else if same_text(arg, "set") {
        SET_TEXT
    } else if same_text(arg, "unset") {
        UNSET_TEXT
    } else if same_text(arg, "create_channel") {
        CREATE_TEXT
    } else if same_text(arg, "target_list") {
        TARGET_LS_TEXT
    } else {
        UNDEFINED_TEXT
    };
    String::from_str(text)
}

} // verus!
