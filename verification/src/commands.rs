//! What the frontend's commands decide before anything is done: which
//! provider or project they name, whether a token or a link is acceptable,
//! and the messages they answer with. Every error reaches the frontend as a
//! string it shows as is.

use vstd::prelude::*;

use crate::model::{parse_provider_spec, watched_view, ProviderKind, WatchedProject, WatchedProjectView};
use crate::text::{begins_with, starts_with, str_eq, trim, trimmed};

verus! {

broadcast use vstd::string::group_string_axioms;

/// The message shown for a failed action: what was being done, then why.
pub fn failure_message(context: &str, err: &str) -> (res: String)
    ensures
        res@ == context@ + ": "@ + err@,
{
    let mut m = String::from_str(context);
    m.append(": ");
    m.append(err);
    m
}

/// The provider a command names.
pub fn parse_provider(raw: &str) -> (res: Result<ProviderKind, String>)
    ensures
        match parse_provider_spec(raw@) {
            Some(k) => res == Ok::<ProviderKind, String>(k),
            None => res matches Err(m) && m@ == "Unknown provider: "@ + raw@,
        },
{
    match ProviderKind::parse(raw) {
        Some(k) => Ok(k),
        None => {
            let mut m = String::from_str("Unknown provider: ");
            m.append(raw);
            Err(m)
        },
    }
}

/// The position of the first watched project with the given id.
pub open spec fn first_watched(ws: Seq<WatchedProjectView>, id: Seq<char>) -> Option<int>
    decreases ws.len(),
{
    if ws.len() == 0 {
        None
    } else if ws[0].id == id {
        Some(0)
    } else {
        match first_watched(ws.drop_first(), id) {
            Some(k) => Some(k + 1),
            None => None,
        }
    }
}

/// The provider of the watched project with the given id; a project that is
/// no longer watched (removed from the settings) is an error.
pub fn project_provider(watched: &Vec<WatchedProject>, project_id: &str) -> (res: Result<ProviderKind, String>)
    ensures
        match first_watched(watched_view(watched@), project_id@) {
            Some(k) => res == Ok::<ProviderKind, String>(watched_view(watched@)[k].provider),
            None => res matches Err(m) && m@ == "Project isn't in the watched list: "@ + project_id@,
        },
{
    let ghost ws = watched_view(watched@);
    let mut i: usize = 0;
    proof {
        assert(ws.skip(0) =~= ws);
    }
    while i < watched.len()
        invariant
            i <= watched@.len(),
            ws == watched_view(watched@),
            first_watched(ws, project_id@) == match first_watched(ws.skip(i as int), project_id@) {
                Some(k) => Some(k + i),
                None => None,
            },
        decreases watched@.len() - i,
    {
        proof {
            assert(ws.skip(i as int).drop_first() =~= ws.skip(i + 1));
            assert(ws.skip(i as int)[0] == ws[i as int]);
        }
        if str_eq(watched[i].id.as_str(), project_id) {
            return Ok(watched[i].provider);
        }
        i += 1;
    }
    let mut m = String::from_str("Project isn't in the watched list: ");
    m.append(project_id);
    Err(m)
}

/// A token as entered: surrounding whitespace dropped; nothing left is an
/// error.
pub fn checked_token(raw: &str) -> (res: Result<String, String>)
    ensures
        trimmed(raw@).len() > 0 ==> (res matches Ok(t) && t@ == trimmed(raw@)),
        trimmed(raw@).len() == 0 ==> (res matches Err(m) && m@ == "Token cannot be empty."@),
{
    let t = trim(raw);
    if t.as_str().is_empty() {
        Err(String::from_str("Token cannot be empty."))
    } else {
        Ok(t)
    }
}

/// Only http(s) links may be opened: an arbitrary string from the webview
/// must not launch anything else.
pub fn check_external_url(url: &str) -> (res: Result<(), String>)
    ensures
        (begins_with(url@, "https://"@) || begins_with(url@, "http://"@)) ==> res is Ok,
        !(begins_with(url@, "https://"@) || begins_with(url@, "http://"@)) ==> (res matches Err(m)
            && m@ == "Only http/https addresses can be opened."@),
{
    if starts_with(url, "https://") || starts_with(url, "http://") {
        Ok(())
    } else {
        Err(String::from_str("Only http/https addresses can be opened."))
    }
}

/// The notch size the frontend reports, never below one point either way.
pub fn notch_size(width: u32, height: u32) -> (res: (u32, u32))
    ensures
        res.0 == if width < 1 { 1 } else { width },
        res.1 == if height < 1 { 1 } else { height },
{
    (if width < 1 { 1 } else { width }, if height < 1 { 1 } else { height })
}

// ------------------------------------------------------------ secrets --

/// The keychain account a provider's token is stored under. GitLab keeps
/// the older name so tokens saved by existing installs are still found.
pub open spec fn account_spec(kind: ProviderKind) -> Seq<char> {
    match kind {
        ProviderKind::Gitlab => "gitlab-token"@,
        ProviderKind::Github => "github-token"@,
        ProviderKind::Azure => "azure-token"@,
    }
}

pub fn account(kind: ProviderKind) -> (res: &'static str)
    ensures
        res@ == account_spec(kind),
{
    match kind {
        ProviderKind::Gitlab => "gitlab-token",
        ProviderKind::Github => "github-token",
        ProviderKind::Azure => "azure-token",
    }
}

/// The file a provider's token falls back to when the keychain can't be
/// reached; GitLab's name comes from an older version.
pub open spec fn fallback_file_spec(kind: ProviderKind) -> Seq<char> {
    match kind {
        ProviderKind::Gitlab => "token.txt"@,
        ProviderKind::Github => "token-github.txt"@,
        ProviderKind::Azure => "token-azure.txt"@,
    }
}

pub fn fallback_file(kind: ProviderKind) -> (res: &'static str)
    ensures
        res@ == fallback_file_spec(kind),
{
    match kind {
        ProviderKind::Gitlab => "token.txt",
        ProviderKind::Github => "token-github.txt",
        ProviderKind::Azure => "token-azure.txt",
    }
}

/// A token read from the keychain counts only when it isn't empty.
pub fn keychain_token(read: Option<String>) -> (res: Option<String>)
    ensures
        match read {
            Some(t) => if t@.len() > 0 {
                res matches Some(u) && u@ == t@
            } else {
                res is None
            },
            None => res is None,
        },
{
    match read {
        Some(t) => if t.as_str().is_empty() {
            None
        } else {
            Some(t)
        },
        None => None,
    }
}

/// A token read from the fallback file: its text trimmed, when anything is
/// left.
pub fn file_token(text: &str) -> (res: Option<String>)
    ensures
        trimmed(text@).len() > 0 ==> (res matches Some(t) && t@ == trimmed(text@)),
        trimmed(text@).len() == 0 ==> res is None,
{
    let t = trim(text);
    if t.as_str().is_empty() {
        None
    } else {
        Some(t)
    }
}

} // verus!
