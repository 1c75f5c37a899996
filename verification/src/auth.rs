//! Cloud sign-in: the signed-in account, the sign-in and token-exchange
//! endpoints, the deep link that carries the sign-in code, and what signing
//! in and out does to the settings.
use vstd::prelude::*;

use crate::settings::config::AppSettings;
use crate::text::{chars_eq, chars_of, string_from_chars, trim_chars, trimmed};
use crate::upload::{trim_trailing_slashes, without_trailing_slashes};

verus! {

/// The signed-in account shown in the UI.
#[derive(Debug, Clone)]
pub struct AuthState {
    pub authenticated: bool,
    pub display_name: String,
    pub email: String,
}

impl Default for AuthState {
    /// Signed out.
    fn default() -> (r: Self)
        ensures
            !r.authenticated,
            r.display_name@.len() == 0,
            r.email@.len() == 0,
    {
        AuthState { authenticated: false, display_name: String::new(), email: String::new() }
    }
}

/// Holds the sign-in state.
pub struct AuthManager {
    pub state: AuthState,
}

impl AuthManager {
    /// A manager that is signed out.
    pub fn new() -> (r: Self)
        ensures
            !r.state.authenticated,
            r.state.display_name@.len() == 0,
            r.state.email@.len() == 0,
    {
        AuthManager { state: AuthState::default() }
    }

    /// Records a completed sign-in.
    pub fn signed_in(&mut self, display_name: String, email: String)
        ensures
            final(self).state.authenticated,
            final(self).state.display_name == display_name,
            final(self).state.email == email,
    {
        self.state = AuthState { authenticated: true, display_name, email };
    }

    /// Records a sign-out.
    pub fn signed_out(&mut self)
        ensures
            !final(self).state.authenticated,
            final(self).state.display_name@.len() == 0,
            final(self).state.email@.len() == 0,
    {
        self.state = AuthState::default();
    }
}

/// The browser sign-in page of the server, if one is configured.
pub fn login_url(server_url: &str) -> (r: Option<String>)
    ensures
        server_url@.len() == 0 ==> r is None,
        server_url@.len() > 0 ==> (r matches Some(u) && u@ == without_trailing_slashes(server_url@)
            + "/api/auth/google?desktop=true&next=/dashboard"@),
{
    if server_url.is_empty() {
        return None;
    }
    let mut url = trim_trailing_slashes(server_url);
    url.append("/api/auth/google?desktop=true&next=/dashboard");
    Some(url)
}

/// Where a sign-in code is exchanged, and where the API key is created.
pub struct AuthEndpoints {
    pub base_url: String,
    pub exchange_url: String,
    pub api_keys_url: String,
}

/// The endpoints used to finish a sign-in, or the error when no server is
/// configured.
pub fn callback_endpoints(server_url: &str) -> (r: Result<AuthEndpoints, String>)
    ensures
        server_url@.len() == 0 ==> (r matches Err(e) && e@ == "Server URL not configured"@),
        server_url@.len() > 0 ==> (r matches Ok(ep) && ep.base_url@ == without_trailing_slashes(
            server_url@,
        ) && ep.exchange_url@ == without_trailing_slashes(server_url@) + "/api/auth/desktop/exchange"@
            && ep.api_keys_url@ == without_trailing_slashes(server_url@) + "/api/auth/api-keys"@),
{
    if server_url.is_empty() {
        return Err(String::from_str("Server URL not configured"));
    }
    let base = trim_trailing_slashes(server_url);
    let mut exchange_url = base.clone();
    exchange_url.append("/api/auth/desktop/exchange");
    let mut api_keys_url = base.clone();
    api_keys_url.append("/api/auth/api-keys");
    Ok(AuthEndpoints { base_url: base, exchange_url, api_keys_url })
}

/// `settings` with the signed-in account and its API key; nothing else
/// changes.
pub fn with_account(settings: AppSettings, api_key: String, display_name: String, email: String) -> (r:
    AppSettings)
    ensures
        r.cloud.api_key == api_key,
        r.cloud.account_display_name == display_name,
        r.cloud.account_email == email,
        r.cloud.server_url == settings.cloud.server_url,
        r.cloud.auto_upload == settings.cloud.auto_upload,
        r.cloud.max_concurrent_uploads == settings.cloud.max_concurrent_uploads,
        r.recording == settings.recording,
        r.hotkeys == settings.hotkeys,
        r.general == settings.general,
        r.storage == settings.storage,
{
    let mut s = settings;
    s.cloud.api_key = api_key;
    s.cloud.account_display_name = display_name;
    s.cloud.account_email = email;
    s
}

/// `settings` with the account and API key cleared; nothing else changes.
pub fn without_account(settings: AppSettings) -> (r: AppSettings)
    ensures
        r.cloud.api_key@.len() == 0,
        r.cloud.account_display_name@.len() == 0,
        r.cloud.account_email@.len() == 0,
        r.cloud.server_url == settings.cloud.server_url,
        r.cloud.auto_upload == settings.cloud.auto_upload,
        r.cloud.max_concurrent_uploads == settings.cloud.max_concurrent_uploads,
        r.recording == settings.recording,
        r.hotkeys == settings.hotkeys,
        r.general == settings.general,
        r.storage == settings.storage,
{
    let mut s = settings;
    s.cloud.api_key = String::new();
    s.cloud.account_display_name = String::new();
    s.cloud.account_email = String::new();
    s
}

/// Whether a stored API key has the expected form: non-empty and starting
/// with `prism_` (the server is not asked).
pub fn api_key_looks_valid(api_key: &str) -> (r: bool)
    ensures
        r == (api_key@.len() > 0 && api_key@.len() >= 6 && api_key@.subrange(0, 6) == "prism_"@),
{
    let k = chars_of(api_key);
    let p = chars_of("prism_");
    proof {
        reveal_strlit("prism_");
    }
    if k.len() < 6 {
        return false;
    }
    let mut head: Vec<char> = Vec::new();
    let mut i: usize = 0;
    while i < 6
        invariant
            i <= 6,
            k@.len() >= 6,
            head@ == k@.subrange(0, i as int),
        decreases 6 - i,
    {
        head.push(k[i]);
        i += 1;
        assert(head@ =~= k@.subrange(0, i as int));
    }
    chars_eq(head.as_slice(), p.as_slice())
}

/// Index of the first `c` in `s` at or after `from`.
pub open spec fn find_char_from(s: Seq<char>, c: char, from: int) -> Option<int>
    decreases s.len() - from,
{
    if from < 0 || from >= s.len() {
        None
    } else if s[from] == c {
        Some(from)
    } else {
        find_char_from(s, c, from + 1)
    }
}

/// The `code` of a query: pairs separated by `&`, each `key=value` split at
/// its first `=`. The first pair keyed `code` with a non-empty value gives
/// it; a pair without `=` ends the search with nothing.
pub open spec fn query_code(q: Seq<char>) -> Option<Seq<char>>
    decreases q.len(),
{
    let (pair, rest) = match find_char_from(q, '&', 0) {
        Some(a) => (q.subrange(0, a), Some(q.subrange(a + 1, q.len() as int))),
        None => (q, None),
    };
    match find_char_from(pair, '=', 0) {
        None => None,
        Some(e) => {
            let key = pair.subrange(0, e);
            let value = pair.subrange(e + 1, pair.len() as int);
            if key == "code"@ && value.len() > 0 {
                Some(value)
            } else {
                match rest {
                    Some(r) => if r.len() < q.len() {
                        query_code(r)
                    } else {
                        None
                    },
                    None => None,
                }
            }
        },
    }
}

/// The sign-in code of a `prism://auth/callback?code=…` deep link: the
/// query after the first `?` of the trimmed URL.
pub open spec fn deep_link_code(url: Seq<char>) -> Option<Seq<char>> {
    let u = trimmed(url);
    match find_char_from(u, '?', 0) {
        Some(i) => query_code(u.subrange(i + 1, u.len() as int)),
        None => None,
    }
}

proof fn lemma_find_char_bounds(s: Seq<char>, c: char, from: int)
    requires
        0 <= from,
    ensures
        find_char_from(s, c, from) matches Some(i) ==> from <= i < s.len() && s[i] == c,
    decreases s.len() - from,
{
    if from < s.len() && s[from] != c {
        lemma_find_char_bounds(s, c, from + 1);
    }
}

fn find_char(s: &[char], c: char, from: usize, to: usize) -> (r: Option<usize>)
    requires
        from <= to <= s@.len(),
    ensures
        match find_char_from(s@.subrange(0, to as int), c, from as int) {
            Some(i) => r == Some(i as usize),
            None => r is None,
        },
{
    let ghost t = s@.subrange(0, to as int);
    let mut i = from;
    while i < to
        invariant
            from <= i <= to <= s@.len(),
            t == s@.subrange(0, to as int),
            find_char_from(t, c, i as int) == find_char_from(t, c, from as int),
        decreases to - i,
    {
        if s[i] == c {
            return Some(i);
        }
        i += 1;
    }
    None
}

proof fn lemma_find_char_shift(s: Seq<char>, c: char, lo: int, hi: int, from: int)
    requires
        0 <= lo <= hi <= s.len(),
        0 <= from,
    ensures
        find_char_from(s.subrange(lo, hi), c, from) == match find_char_from(s.subrange(0, hi), c, lo + from) {
            Some(i) => Some(i - lo),
            None => None,
        },
    decreases hi - lo - from,
{
    if from < hi - lo {
        assert(s.subrange(lo, hi)[from] == s.subrange(0, hi)[lo + from]);
        lemma_find_char_shift(s, c, lo, hi, from + 1);
    }
}

/// Extracts the `code` query parameter from a
/// `prism://auth/callback?code=…` URL.
pub fn extract_auth_code(url: &str) -> (r: Option<String>)
    ensures
        match deep_link_code(url@) {
            Some(code) => r matches Some(s) && s@ == code,
            None => r is None,
        },
{
    let u = trim_chars(chars_of(url).as_slice());
    let n = u.len();
    proof {
        lemma_find_char_bounds(u@, '?', 0);
        assert(u@.subrange(0, n as int) =~= u@);
    }
    let q = match find_char(u.as_slice(), '?', 0, n) {
        Some(q) => q,
        None => {
            return None;
        },
    };
    let mut start = q + 1;
    loop
        invariant
            q < start <= n,
            n == u@.len(),
            u@ == trimmed(url@),
            find_char_from(u@, '?', 0) == Some(q as int),
            deep_link_code(url@) == query_code(u@.subrange(start as int, n as int)),
        decreases n - start,
    {
        let ghost rest = u@.subrange(start as int, n as int);
        let amp = find_char(u.as_slice(), '&', start, n);
        proof {
            lemma_find_char_shift(u@, '&', start as int, n as int, 0);
            lemma_find_char_bounds(u@.subrange(0, n as int), '&', start as int);
            assert(u@.subrange(0, n as int) =~= u@);
        }
        let end = match amp {
            Some(a) => a,
            None => n,
        };
        let eq = find_char(u.as_slice(), '=', start, end);
        proof {
            let pair = rest.subrange(0, end - start);
            assert(pair =~= u@.subrange(start as int, end as int));
            lemma_find_char_shift(u@, '=', start as int, end as int, 0);
            lemma_find_char_bounds(u@.subrange(0, end as int), '=', start as int);
            assert(u@.subrange(start as int, end as int) =~= u@.subrange(0, end as int).subrange(
                start as int,
                end as int,
            ));
            lemma_find_char_shift(u@.subrange(0, end as int), '=', start as int, end as int, 0);
        }
        let e = match eq {
            Some(e) => e,
            None => {
                return None;
            },
        };
        let key_len = e - start;
        let mut key: Vec<char> = Vec::new();
        let mut i = start;
        while i < e
            invariant
                start <= i <= e < end <= n,
                n == u@.len(),
                key@ == u@.subrange(start as int, i as int),
            decreases e - i,
        {
            key.push(u[i]);
            i += 1;
            assert(key@ =~= u@.subrange(start as int, i as int));
        }
        let mut value: Vec<char> = Vec::new();
        let mut j = e + 1;
        while j < end
            invariant
                e < j <= end <= n,
                n == u@.len(),
                value@ == u@.subrange(e + 1, j as int),
            decreases end - j,
        {
            value.push(u[j]);
            j += 1;
            assert(value@ =~= u@.subrange(e + 1, j as int));
        }
        if chars_eq(key.as_slice(), chars_of("code").as_slice()) && value.len() > 0 {
            proof {
                assert(rest.subrange(0, end - start).subrange(0, e - start) =~= key@);
                assert(rest.subrange(0, end - start).subrange(e - start + 1, end - start) =~= value@);
            }
            return Some(string_from_chars(value.as_slice()));
        }
        proof {
            assert(rest.subrange(0, end - start).subrange(0, e - start) =~= key@);
            assert(rest.subrange(0, end - start).subrange(e - start + 1, end - start) =~= value@);
        }
        match amp {
            Some(a) => {
                proof {
                    assert(rest.subrange(a - start + 1, rest.len() as int) =~= u@.subrange(
                        a + 1,
                        n as int,
                    ));
                }
                start = a + 1;
            },
            None => {
                return None;
            },
        }
    }
}

} // verus!
