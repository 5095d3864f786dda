//! Settings of the server as read from the environment: how each value is
//! read, and which combinations are refused.

use vstd::prelude::*;

use crate::projects::opt_view;
use crate::text::{
    ascii_lowercase, chars_of, eq_lit, is_ascii_digit, is_ascii_lower, is_one_of, one_of, push_str,
    starts_with, string_of, to_ascii_lowercase, trim, trim_chars,
};

verus! {

pub const TRUE_WORDS: [&'static str; 4] = ["1", "true", "yes", "on"];

pub const FALSE_WORDS: [&'static str; 4] = ["0", "false", "no", "off"];

/// A boolean setting: `1`, `true`, `yes`, `on` or `0`, `false`, `no`, `off`,
/// trimmed and in any ASCII case; anything else is refused.
pub open spec fn spec_parse_bool(value: Seq<char>) -> Option<bool> {
    let v = ascii_lowercase(trim(value));
    if one_of(v, TRUE_WORDS@) {
        Some(true)
    } else if one_of(v, FALSE_WORDS@) {
        Some(false)
    } else {
        None
    }
}

pub fn parse_bool_setting(value: &str) -> (r: Option<bool>)
    ensures
        r == spec_parse_bool(value@),
{
    let c = chars_of(value);
    let t = trim_chars(c.as_slice());
    let v = to_ascii_lowercase(t.as_slice());
    if is_one_of(v.as_slice(), &TRUE_WORDS) {
        Some(true)
    } else if is_one_of(v.as_slice(), &FALSE_WORDS) {
        Some(false)
    } else {
        None
    }
}

/// The message of a boolean setting that is neither true nor false.
pub fn not_a_boolean(name: &str) -> (r: String)
    ensures
        r@ == name@ + " must be a boolean"@,
{
    let mut m = chars_of(name);
    push_str(&mut m, " must be a boolean");
    string_of(m.as_slice())
}

/// An optional text setting: absent stays absent, a given value is trimmed
/// and must not be blank (the error is the message).
pub fn non_empty_setting(name: &str, value: Option<String>) -> (r: Result<Option<String>, String>)
    ensures
        match opt_view(value) {
            None => r matches Ok(None),
            Some(v) => if trim(v).len() == 0 {
                r matches Err(m) && m@ == name@ + " must not be empty"@
            } else {
                r matches Ok(Some(t)) && t@ == trim(v)
            },
        },
{
    match value {
        None => Ok(None),
        Some(v) => {
            let c = chars_of(v.as_str());
            let t = trim_chars(c.as_slice());
            if t.len() == 0 {
                let mut m = chars_of(name);
                push_str(&mut m, " must not be empty");
                Err(string_of(m.as_slice()))
            } else {
                Ok(Some(string_of(t.as_slice())))
            }
        },
    }
}

/// A size in MiB as bytes.
pub fn megabytes(mb: u64) -> (r: u64)
    requires
        mb * 1048576 <= u64::MAX,
    ensures
        r == mb * 1048576,
{
    mb * 1024 * 1024
}

/// The prefix of published repositories: trimmed, in ASCII lower case.
pub fn normalize_repo_prefix(value: &str) -> (r: String)
    ensures
        r@ == ascii_lowercase(trim(value@)),
{
    let c = chars_of(value);
    let t = trim_chars(c.as_slice());
    let l = to_ascii_lowercase(t.as_slice());
    string_of(l.as_slice())
}

/// A repository prefix: lower-case ASCII letters, digits and hyphens, not empty.
pub open spec fn spec_valid_repo_prefix(prefix: Seq<char>) -> bool {
    prefix.len() > 0 && forall|i: int|
        0 <= i < prefix.len() ==> is_ascii_lower(#[trigger] prefix[i]) || is_ascii_digit(prefix[i])
            || prefix[i] == '-'
}

pub fn valid_repo_prefix(prefix: &str) -> (r: bool)
    ensures
        r == spec_valid_repo_prefix(prefix@),
{
    let p = chars_of(prefix);
    if p.len() == 0 {
        return false;
    }
    let mut i: usize = 0;
    while i < p.len()
        invariant
            0 <= i <= p@.len(),
            p@ == prefix@,
            forall|j: int|
                0 <= j < i ==> is_ascii_lower(#[trigger] p@[j]) || is_ascii_digit(p@[j]) || p@[j] == '-',
        decreases p.len() - i,
    {
        let c = p[i];
        if !(('a' <= c && c <= 'z') || ('0' <= c && c <= '9') || c == '-') {
            assert(!(is_ascii_lower(p@[i as int]) || is_ascii_digit(p@[i as int]) || p@[i as int] == '-'));
            return false;
        }
        i += 1;
    }
    true
}

/// Why a combination of settings is refused, if it is: an enabled Codex
/// runner needs its endpoint and credentials (a key file, else `auth.json` in
/// the Codex home: `codex_home_auth_exists`), an enabled publisher its owner
/// and token file, and the repository prefix must be valid.
pub open spec fn settings_failure(
    codex_enabled: bool,
    codex_base_url: bool,
    codex_model: bool,
    codex_api_key_file: bool,
    codex_home_auth_exists: bool,
    github_enabled: bool,
    github_owner: bool,
    github_token_file: bool,
    repo_prefix: Seq<char>,
) -> Option<Seq<char>> {
    if codex_enabled && (!codex_base_url || !codex_model) {
        Some("ICTHUB_CODEX_ENABLED=true requires ICTHUB_CODEX_BASE_URL and ICTHUB_CODEX_MODEL"@)
    } else if codex_enabled && !codex_api_key_file && !codex_home_auth_exists {
        Some(
            "ICTHUB_CODEX_ENABLED=true requires either ICTHUB_CODEX_API_KEY_FILE or ICTHUB_CODEX_HOME/auth.json"@,
        )
    } else if github_enabled && (!github_owner || !github_token_file) {
        Some(
            "ICTHUB_GITHUB_ENABLED=true requires ICTHUB_GITHUB_OWNER and ICTHUB_GITHUB_TOKEN_FILE"@,
        )
    } else if !spec_valid_repo_prefix(repo_prefix) {
        Some("ICTHUB_GITHUB_REPO_PREFIX must use lowercase letters, digits, or hyphens"@)
    } else {
        None
    }
}

/// Checks a combination of settings (see `settings_failure`); each flag says
/// whether the setting is present.
pub fn check_settings(
    codex_enabled: bool,
    codex_base_url: bool,
    codex_model: bool,
    codex_api_key_file: bool,
    codex_home_auth_exists: bool,
    github_enabled: bool,
    github_owner: bool,
    github_token_file: bool,
    repo_prefix: &str,
) -> (r: Result<(), String>)
    ensures
        match settings_failure(
            codex_enabled,
            codex_base_url,
            codex_model,
            codex_api_key_file,
            codex_home_auth_exists,
            github_enabled,
            github_owner,
            github_token_file,
            repo_prefix@,
        ) {
            Some(m) => r matches Err(e) && e@ == m,
            None => r is Ok,
        },
{
    if codex_enabled && (!codex_base_url || !codex_model) {
        return Err(
            String::from_str(
                "ICTHUB_CODEX_ENABLED=true requires ICTHUB_CODEX_BASE_URL and ICTHUB_CODEX_MODEL",
            ),
        );
    }
    if codex_enabled && !codex_api_key_file && !codex_home_auth_exists {
        return Err(
            String::from_str(
                "ICTHUB_CODEX_ENABLED=true requires either ICTHUB_CODEX_API_KEY_FILE or ICTHUB_CODEX_HOME/auth.json",
            ),
        );
    }
    if github_enabled && (!github_owner || !github_token_file) {
        return Err(
            String::from_str(
                "ICTHUB_GITHUB_ENABLED=true requires ICTHUB_GITHUB_OWNER and ICTHUB_GITHUB_TOKEN_FILE",
            ),
        );
    }
    if !valid_repo_prefix(repo_prefix) {
        return Err(
            String::from_str(
                "ICTHUB_GITHUB_REPO_PREFIX must use lowercase letters, digits, or hyphens",
            ),
        );
    }
    Ok(())
}

/// The file of a SQLite database address: what follows `sqlite://` up to the
/// first `?`; none for other addresses and for `:memory:`.
pub open spec fn spec_sqlite_file_path(url: Seq<char>) -> Option<Seq<char>> {
    if !starts_with(url, "sqlite://"@) {
        None
    } else {
        let rest = url.subrange(9, url.len() as int);
        let path = crate::paths::split_seq(rest, seq!['?'])[0];
        if path == ":memory:"@ {
            None
        } else {
            Some(path)
        }
    }
}

pub fn sqlite_file_path(url: &str) -> (r: Option<String>)
    ensures
        opt_view(r) == spec_sqlite_file_path(url@),
{
    let u = chars_of(url);
    if !crate::text::starts_with_lit(u.as_slice(), "sqlite://") {
        return None;
    }
    proof {
        reveal_strlit("sqlite://");
    }
    let rest = crate::text::slice_chars(u.as_slice(), 9, u.len());
    let seps: Vec<char> = vec!['?'];
    assert(seps@ =~= seq!['?']);
    let pieces = crate::paths::split_any(rest.as_slice(), seps.as_slice());
    proof {
        crate::paths::lemma_split_nonempty(rest@, seps@);
    }
    let path = &pieces[0];
    if eq_lit(path.as_slice(), ":memory:") {
        None
    } else {
        Some(string_of(path.as_slice()))
    }
}

/// The default database: `data/icthub.db`, created where missing.
pub fn default_database_url() -> (r: String)
    ensures
        r@ == "sqlite://data/icthub.db?mode=rwc"@,
{
    String::from_str("sqlite://data/icthub.db?mode=rwc")
}

} // verus!
