//! Stored server credentials and how they are read back.

use vstd::prelude::*;
use vstd::string::StrSliceExecFns;
use crate::api::opt_text;

verus! {

/// A resolved server connection: base URL + API token.
#[derive(Clone, Debug)]
pub struct Credentials {
    pub url: String,
    pub token: String,
}

/// The URL of stored credentials: the one kept with the token unless it is
/// absent or empty, else the URL mirrored in the settings.
pub open spec fn stored_url_text(attr_url: Option<String>, settings_url: Seq<char>) -> Seq<char> {
    if opt_text(attr_url).len() > 0 {
        opt_text(attr_url)
    } else {
        settings_url
    }
}

/// Credentials from what the keyring and settings hold: the token, the URL
/// stored with it (if any) and the URL mirrored in the settings. `None` when
/// the URL or the token turns out empty, which sends the user to onboarding.
pub fn resolve_credentials(attr_url: Option<String>, settings_url: String, token: String) -> (r:
    Option<Credentials>)
    ensures
        r is None <==> (stored_url_text(attr_url, settings_url@).len() == 0 || token@.len() == 0),
        r matches Some(c) ==> c.url@ == stored_url_text(attr_url, settings_url@) && c.token@
            == token@,
{
    let url = match attr_url {
        Some(u) => if u.as_str().unicode_len() > 0 {
            u
        } else {
            settings_url
        },
        None => settings_url,
    };
    if url.as_str().unicode_len() == 0 || token.as_str().unicode_len() == 0 {
        return None;
    }
    Some(Credentials { url, token })
}

} // verus!
