//! The name and icon under which a relayed message is posted.
use vstd::prelude::*;
use crate::routing::opt_view;

verus! {

/// The icon of a bot that publishes none.
pub const DEFAULT_BOT_ICON: &'static str = "https://avatars.slack-edge.com/2023-03-18/4975228596980_b7f6572d76d9104bbc72_512.png";

/// The serialization of the absolute URL that `s` parses as, if it parses.
pub uninterp spec fn parsed_url(s: Seq<char>) -> Option<Seq<char>>;

/// Relies on `url::Url::parse`, which returns an error on a string that is no
/// absolute URL and never panics, and on `String::from(Url)`, the URL's
/// serialization.
#[verifier::external_body]
fn parse_url(s: &str) -> (r: Option<String>)
    ensures
        opt_view(r) == parsed_url(s@),
{
    match url::Url::parse(s) {
        Ok(u) => Some(String::from(u)),
        Err(_) => None,
    }
}

/// Why a sender's profile could not be built.
#[derive(Debug, Clone, Copy, PartialEq, Eq, Structural)]
pub enum ProfileError {
    /// The sender publishes no icon.
    NoIcon,
    /// The icon's address is no absolute URL.
    InvalidIconUrl,
}

/// The name and icon address of a message's sender.
#[derive(Debug)]
pub struct SenderProfile {
    pub icon_url: String,
    pub name: String,
}

/// A user's shown name: the display name, or the real name when the display
/// name is empty; empty when there is no display name.
pub open spec fn display_name_of(display: Option<Seq<char>>, real_name: Option<Seq<char>>) -> Seq<char> {
    match display {
        None => Seq::empty(),
        Some(d) => if d.len() == 0 {
            match real_name {
                Some(r) => r,
                None => Seq::empty(),
            }
        } else {
            d
        },
    }
}

/// A user's shown name.
pub fn display_name(display: &Option<String>, real_name: &Option<String>) -> (r: String)
    ensures
        r@ == display_name_of(opt_view(*display), opt_view(*real_name)),
{
    match display {
        None => String::new(),
        Some(d) => if d.as_str().unicode_len() == 0 {
            match real_name {
                Some(r) => r.clone(),
                None => String::new(),
            }
        } else {
            d.clone()
        },
    }
}

/// A profile from an icon address already parsed: `InvalidIconUrl` when it
/// did not parse.
pub fn profile_from_parsed(parsed_icon: Option<String>, name: String) -> (r: Result<SenderProfile, ProfileError>)
    ensures
        match opt_view(parsed_icon) {
            None => r == Err::<SenderProfile, ProfileError>(ProfileError::InvalidIconUrl),
            Some(u) => r matches Ok(p) && p.icon_url@ == u && p.name@ == name@,
        },
{
    match parsed_icon {
        None => Err(ProfileError::InvalidIconUrl),
        Some(icon_url) => Ok(SenderProfile { icon_url, name }),
    }
}

/// A user's profile from the full-size image of its icon and its names.
pub fn user_profile(icon_image: &Option<String>, display: &Option<String>, real_name: &Option<String>) -> (r: Result<SenderProfile, ProfileError>)
    ensures
        match opt_view(*icon_image) {
            None => r == Err::<SenderProfile, ProfileError>(ProfileError::NoIcon),
            Some(icon) => match parsed_url(icon) {
                None => r == Err::<SenderProfile, ProfileError>(ProfileError::InvalidIconUrl),
                Some(u) => r matches Ok(p) && p.icon_url@ == u
                    && p.name@ == display_name_of(opt_view(*display), opt_view(*real_name)),
            },
        },
{
    match icon_image {
        None => Err(ProfileError::NoIcon),
        Some(icon) => profile_from_parsed(parse_url(icon.as_str()), display_name(display, real_name)),
    }
}

/// A bot's profile from the addresses of its icons, largest first, and its
/// name: the first icon, or a default icon when the list is empty.
pub fn bot_profile(icons: &Option<Vec<String>>, name: &str) -> (r: Result<SenderProfile, ProfileError>)
    ensures
        match *icons {
            None => r == Err::<SenderProfile, ProfileError>(ProfileError::NoIcon),
            Some(v) => {
                let icon = if v@.len() > 0 { v@[0]@ } else { DEFAULT_BOT_ICON@ };
                match parsed_url(icon) {
                    None => r == Err::<SenderProfile, ProfileError>(ProfileError::InvalidIconUrl),
                    Some(u) => r matches Ok(p) && p.icon_url@ == u && p.name@ == name@,
                }
            },
        },
{
    match icons {
        None => Err(ProfileError::NoIcon),
        Some(v) => {
            let parsed = if v.len() > 0 {
                parse_url(v[0].as_str())
            } else {
                parse_url(DEFAULT_BOT_ICON)
            };
            profile_from_parsed(parsed, String::from_str(name))
        },
    }
}

} // verus!
