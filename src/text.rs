//! The chat platform's text forms of channel references and user mentions.
use vstd::prelude::*;
use crate::store::RelayError;

verus! {

/// The first `'|'` at or after `k`, or the length when there is none.
pub open spec fn bar_from(s: Seq<char>, k: int) -> int
    decreases s.len() - k,
{
    if k < 0 || k >= s.len() {
        s.len() as int
    } else if s[k] == '|' {
        k
    } else {
        bar_from(s, k + 1)
    }
}

/// The identifier of the first channel reference `<#ID|...` starting at or
/// after `i`: `ID` is a non-empty run of characters other than `'|'`.
pub open spec fn channel_ref_from(s: Seq<char>, i: int) -> Option<Seq<char>>
    decreases s.len() - i,
{
    if i < 0 || i + 1 >= s.len() {
        None
    } else if s[i] == '<' && s[i + 1] == '#' && i + 2 < bar_from(s, i + 2) < s.len() {
        Some(s.subrange(i + 2, bar_from(s, i + 2)))
    } else {
        channel_ref_from(s, i + 1)
    }
}

/// The identifier of the first channel reference in `s`.
pub open spec fn channel_ref(s: Seq<char>) -> Option<Seq<char>> {
    channel_ref_from(s, 0)
}

/// A character of a user identifier in a mention.
pub open spec fn is_id_char(c: char) -> bool {
    ('A' <= c && c <= 'Z') || ('0' <= c && c <= '9')
}

/// The first position at or after `k` that holds no identifier character.
pub open spec fn id_end(s: Seq<char>, k: int) -> int
    decreases s.len() - k,
{
    if k < 0 || k >= s.len() {
        s.len() as int
    } else if !is_id_char(s[k]) {
        k
    } else {
        id_end(s, k + 1)
    }
}

/// A mention `<@ID>` starts at `i`.
pub open spec fn mention_at(s: Seq<char>, i: int) -> bool {
    0 <= i && i + 1 < s.len() && s[i] == '<' && s[i + 1] == '@' && i + 2 < id_end(s, i + 2) < s.len()
        && s[id_end(s, i + 2)] == '>'
}

/// `s` from `i` on, with each mention `<@ID>` written `@ID`, left to right.
pub open spec fn escaped_from(s: Seq<char>, i: int) -> Seq<char>
    decreases s.len() - i,
{
    if i < 0 || i >= s.len() {
        Seq::empty()
    } else if mention_at(s, i) {
        seq!['@'] + s.subrange(i + 2, id_end(s, i + 2)) + escaped_from(s, id_end(s, i + 2) + 1)
    } else {
        seq![s[i]] + escaped_from(s, i + 1)
    }
}

/// Whether two strings hold the same characters.
pub fn same_text(a: &str, b: &str) -> (r: bool)
    ensures
        r == (a@ == b@),
{
    String::from_str(a).eq(&String::from_str(b))
}

fn chars_of(s: &str) -> (r: Vec<char>)
    ensures
        r@ == s@,
{
    let n = s.unicode_len();
    let mut out: Vec<char> = Vec::new();
    let mut i: usize = 0;
    while i < n
        invariant
            n == s@.len(),
            i <= n,
            out@ == s@.take(i as int),
        decreases n - i,
    {
        out.push(s.get_char(i));
        assert(out@ =~= s@.take(i + 1));
        i = i + 1;
    }
    assert(out@ =~= s@);
    out
}

/// The identifier of the first channel reference `<#ID|label>` in `channel`;
/// `InvalidArgument` when there is none.
pub fn channel_preprocess(channel: &str) -> (r: Result<String, RelayError>)
    ensures
        match channel_ref(channel@) {
            Some(id) => r matches Ok(v) && v@ == id,
            None => r == Err::<String, RelayError>(RelayError::InvalidArgument),
        },
{
    let cs = chars_of(channel);
    let n = cs.len();
    let mut i: usize = 0;
    while i < n
        invariant
            cs@ == channel@,
            n == cs@.len(),
            i <= n,
            channel_ref(channel@) == channel_ref_from(channel@, i as int),
        decreases n - i,
    {
        if i + 1 < n && cs[i] == '<' && cs[i + 1] == '#' {
            let mut j: usize = i + 2;
            while j < n && cs[j] != '|'
                invariant
                    cs@ == channel@,
                    n == cs@.len(),
                    i + 2 <= j <= n,
                    bar_from(channel@, i + 2) == bar_from(channel@, j as int),
                decreases n - j,
            {
                j = j + 1;
            }
            if j < n && j > i + 2 {
                let id = channel.substring_char(i + 2, j);
                return Ok(String::from_str(id));
            }
        }
        i = i + 1;
    }
    Err(RelayError::InvalidArgument)
}

/// The channel reference `<#ID>` that the chat platform renders as a link.
pub fn channel_id_to_channel_name(channel_id: &str) -> (r: String)
    ensures
        r@ == seq!['<', '#'] + channel_id@ + seq!['>'],
{
    proof {
        reveal_strlit("<#");
        reveal_strlit(">");
    }
    let mut r = String::from_str("<#");
    r.append(channel_id);
    r.append(">");
    assert(r@ =~= seq!['<', '#'] + channel_id@ + seq!['>']);
    r
}

/// `txt` with every user mention `<@ID>` turned into the plain text `@ID`, so
/// that a relayed message notifies nobody.
pub fn escape_mention(txt: &str) -> (r: String)
    ensures
        r@ == escaped_from(txt@, 0),
{
    let cs = chars_of(txt);
    let n = cs.len();
    let mut out = String::new();
    let mut start: usize = 0;
    let mut i: usize = 0;
    while i < n
        invariant
            cs@ == txt@,
            n == cs@.len(),
            start <= i <= n,
            out@ + txt@.subrange(start as int, i as int) + escaped_from(txt@, i as int) == escaped_from(txt@, 0),
        decreases n - i,
    {
        let mut matched = false;
        if i + 1 < n && cs[i] == '<' && cs[i + 1] == '@' {
            let mut j: usize = i + 2;
            while j < n && (('A' <= cs[j] && cs[j] <= 'Z') || ('0' <= cs[j] && cs[j] <= '9'))
                invariant
                    cs@ == txt@,
                    n == cs@.len(),
                    i + 2 <= j <= n,
                    id_end(txt@, i + 2) == id_end(txt@, j as int),
                decreases n - j,
            {
                j = j + 1;
            }
            if j < n && j > i + 2 && cs[j] == '>' {
                assert(mention_at(txt@, i as int));
                let ghost before = out@;
                out.append(txt.substring_char(start, i));
                let ghost mid = out@;
                assert(mid == before + txt@.subrange(start as int, i as int));
                proof {
                    reveal_strlit("@");
                    assert("@"@ =~= seq!['@']);
                }
                out.append("@");
                assert(out@ =~= mid + seq!['@']);
                out.append(txt.substring_char(i + 2, j));
                proof {
                    let s = txt@;
                    assert(out@ == mid + seq!['@'] + s.subrange(i + 2, j as int));
                    assert(escaped_from(s, i as int) == seq!['@'] + s.subrange(i + 2, j as int) + escaped_from(s, j + 1));
                    assert(out@ + s.subrange(j + 1, j + 1) + escaped_from(s, j + 1) =~= before + s.subrange(start as int, i as int) + escaped_from(s, i as int));
                }
                start = j + 1;
                i = j + 1;
                matched = true;
            }
        }
        if !matched {
            proof {
                let s = txt@;
                assert(!mention_at(s, i as int));
                assert(escaped_from(s, i as int) == seq![s[i as int]] + escaped_from(s, i + 1));
                assert(out@ + s.subrange(start as int, i + 1) + escaped_from(s, i + 1) =~= out@ + s.subrange(start as int, i as int) + escaped_from(s, i as int));
            }
            i = i + 1;
        }
    }
    let rest = txt.substring_char(start, n);
    let ghost before = out@;
    out.append(rest);
    assert(out@ =~= before + txt@.subrange(start as int, n as int) + escaped_from(txt@, n as int));
    out
}

/// The text of a relayed message: a link to the source channel, then the
/// message text with its mentions escaped.
pub fn process_message(text: &str, channel_from: &str) -> (r: String)
    ensures
        r@ == seq![' ', '`', '<', '#'] + channel_from@ + seq!['>', '`', ' '] + escaped_from(text@, 0),
{
    proof {
        reveal_strlit(" `<#");
        reveal_strlit(">` ");
        assert(" `<#"@ =~= seq![' ', '`', '<', '#']);
        assert(">` "@ =~= seq!['>', '`', ' ']);
    }
    let mut r = String::from_str(" `<#");
    r.append(channel_from);
    r.append(">` ");
    let body = escape_mention(text);
    r.append(body.as_str());
    r
}

} // verus!
