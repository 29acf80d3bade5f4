//! The signed-in session, and the addresses that its base URL leads to.
use vstd::prelude::*;

use crate::json;
use crate::json::{at, read_bytes, text_in, tree, Tree};
use crate::pieces::{law_a_piece_ends_at_its_separator, pieces, split};
use crate::text::{
    blank, contains, end_trimmed, ends_with, has_prefix, has_suffix, is_blank,
    lemma_end_trimmed_shape, lemma_part_within, lemma_two_parts, occurs, stands_at, starts_with,
    strip_suffix, trim_end, Class,
};

verus! {

/// Who talks to which backend.
#[derive(Clone, Debug)]
pub struct Session {
    pub base_url: String,
    pub codex_home: String,
    pub bearer_token: String,
    pub account_id: Option<String>,
    pub user_agent: String,
}

/// Why no session could be made.
#[derive(Clone, Copy, Debug, PartialEq, Eq, Structural)]
pub enum LoadError {
    /// No credentials are stored.
    NotSignedIn,
    /// The stored token is blank.
    EmptyToken,
}

impl LoadError {
    pub open spec fn text(self) -> Seq<char> {
        match self {
            LoadError::NotSignedIn => "Not signed in. Run `codex login` and re-try."@,
            LoadError::EmptyToken =>
                "Not signed in (empty token). Run `codex login` and re-try."@,
        }
    }

    /// What the user is told.
    pub fn message(self) -> (r: String)
        ensures
            r@ == self.text(),
    {
        match self {
            LoadError::NotSignedIn => "Not signed in. Run `codex login` and re-try.".to_string(),
            LoadError::EmptyToken =>
                "Not signed in (empty token). Run `codex login` and re-try.".to_string(),
        }
    }
}

/// The base URL in the form that the backend is addressed with: without slashes at its end, and
/// for ChatGPT hosts with `/backend-api` where that is missing.
pub open spec fn normalized(s: Seq<char>) -> Seq<char> {
    let b = end_trimmed(s, Class::Only('/'));
    if (has_prefix(b, "https://chatgpt.com"@) || has_prefix(b, "https://chat.openai.com"@))
        && !occurs(b, "/backend-api"@) {
        b + "/backend-api"@
    } else {
        b
    }
}

/// Normalize the configured base URL to a canonical form used by the backend client.
/// - trims trailing '/'
/// - appends '/backend-api' for ChatGPT hosts when missing
pub fn normalize_base_url(input: &str) -> (r: String)
    ensures
        r@ == normalized(input@),
{
    let mut base_url = trim_end(input, Class::Only('/'));
    if (starts_with(&base_url, "https://chatgpt.com") || starts_with(
        &base_url,
        "https://chat.openai.com",
    )) && !contains(&base_url, "/backend-api") {
        base_url.append("/backend-api");
    }
    base_url
}

/// The address in a browser of a task of the backend at `base`.
pub open spec fn task_address(base: Seq<char>, task_id: Seq<char>) -> Seq<char> {
    let n = normalized(base);
    if has_suffix(n, "/backend-api"@) {
        n.take(n.len() - "/backend-api"@.len()) + "/codex/tasks/"@ + task_id
    } else if has_suffix(n, "/api/codex"@) {
        n.take(n.len() - "/api/codex"@.len()) + "/codex/tasks/"@ + task_id
    } else if has_suffix(n, "/codex"@) {
        n + "/tasks/"@ + task_id
    } else {
        n + "/codex/tasks/"@ + task_id
    }
}

/// Construct a browser-friendly task URL for the given backend base URL.
pub fn task_url(base_url: &str, task_id: &str) -> (r: String)
    ensures
        r@ == task_address(base_url@, task_id@),
{
    let normal = normalize_base_url(base_url);
    if let Some(mut root) = strip_suffix(&normal, "/backend-api") {
        root.append("/codex/tasks/");
        root.append(task_id);
        return root;
    }
    if let Some(mut root) = strip_suffix(&normal, "/api/codex") {
        root.append("/codex/tasks/");
        root.append(task_id);
        return root;
    }
    if ends_with(&normal, "/codex") {
        let mut url = normal;
        url.append("/tasks/");
        url.append(task_id);
        return url;
    }
    let mut url = normal;
    url.append("/codex/tasks/");
    url.append(task_id);
    url
}

/// What URL-safe base64 without padding makes of a text, where the text is such base64.
pub uninterp spec fn base64_decoded(s: Seq<char>) -> Option<Seq<u8>>;

/// `base64::Engine::decode` of `URL_SAFE_NO_PAD`: what it decodes is a function of the text.
#[verifier::external_body]
fn base64_decode(s: &str) -> (r: Option<Vec<u8>>)
    ensures
        match r {
            Some(b) => base64_decoded(s@) == Some(b@),
            None => base64_decoded(s@) is None,
        },
{
    base64::Engine::decode(&base64::engine::general_purpose::URL_SAFE_NO_PAD, s).ok()
}

/// The account id that the claims of a token name.
pub open spec fn claimed_account(claims: Tree) -> Option<Seq<char>> {
    match at(claims, seq!["https://api.openai.com/auth"@, "chatgpt_account_id"@]) {
        Some(t) => text_in(t),
        None => None,
    }
}

/// The account id that the claims of a token name.
pub fn account_in_claims(claims: &serde_json::Value) -> (r: Option<String>)
    ensures
        r.deep_view() == claimed_account(tree(*claims)),
{
    let ghost path = seq!["https://api.openai.com/auth"@, "chatgpt_account_id"@];
    proof {
        reveal_with_fuel(at, 3);
        assert(path.drop_first() == seq!["chatgpt_account_id"@]);
        assert(path.drop_first().drop_first() == Seq::<Seq<char>>::empty());
    }
    match json::get(claims, "https://api.openai.com/auth") {
        None => None,
        Some(auth) => match json::get(auth, "chatgpt_account_id") {
            None => None,
            Some(id) => match json::as_str(id) {
                None => None,
                Some(s) => Some(s.to_string()),
            },
        },
    }
}

/// The account id that the payload of a token names, once it is decoded.
pub open spec fn payload_account(bytes: Seq<u8>) -> Option<Seq<char>> {
    match read_bytes(bytes) {
        Some(claims) => claimed_account(claims),
        None => None,
    }
}

/// The account id that the payload of a token names, once it is decoded.
pub fn account_in_payload(bytes: &[u8]) -> (r: Option<String>)
    ensures
        r.deep_view() == payload_account(bytes@),
{
    match json::from_slice(bytes) {
        Ok(claims) => account_in_claims(&claims),
        Err(_) => None,
    }
}

/// The middle part of a token: the second of its parts between dots, where there are at least
/// three of them and the first three are not empty.
pub open spec fn token_payload(token: Seq<char>) -> Option<Seq<char>> {
    let p = pieces(token, '.');
    if p.len() >= 3 && p[0].len() > 0 && p[1].len() > 0 && p[2].len() > 0 {
        Some(p[1])
    } else {
        None
    }
}

/// The middle part of a token.
pub fn payload_of(token: &str) -> (r: Option<String>)
    ensures
        r.deep_view() == token_payload(token@),
{
    let parts = split(token, '.');
    assert(forall|i: int|
        0 <= i < parts@.len() ==> #[trigger] parts.deep_view()[i] == parts@[i]@);
    if parts.len() < 3 || parts[0].as_str().is_empty() || parts[1].as_str().is_empty() || parts[2].as_str().is_empty() {
        return None;
    }
    Some(parts[1].clone())
}

/// The account id that a token names.
pub open spec fn token_account(token: Seq<char>) -> Option<Seq<char>> {
    match token_payload(token) {
        Some(p) => match base64_decoded(p) {
            Some(bytes) => payload_account(bytes),
            None => None,
        },
        None => None,
    }
}

/// Extract the ChatGPT account id from a JWT token, when present.
pub fn extract_chatgpt_account_id(token: &str) -> (r: Option<String>)
    ensures
        r.deep_view() == token_account(token@),
{
    match payload_of(token) {
        None => None,
        Some(payload) => match base64_decode(&payload) {
            None => None,
            Some(bytes) => account_in_payload(&bytes),
        },
    }
}

/// Whether a text can be the value of a header: no control character but the tab.
pub open spec fn is_header_text(s: Seq<char>) -> bool {
    forall|i: int|
        0 <= i < s.len() ==> ((#[trigger] s[i]) as u32 >= 32 && s[i] as u32 != 127) || s[i] == '\t'
}

/// `reqwest::header::HeaderValue::from_str`: it takes a text whose UTF-8 bytes are all 32 or more
/// and not 127, or tabs. The bytes of a character above 127 are all above 127.
#[verifier::external_body]
fn header_value_ok(s: &str) -> (r: bool)
    ensures
        r == is_header_text(s@),
{
    reqwest::header::HeaderValue::from_str(s).is_ok()
}

/// The base URL that counts: the one that is given on the command line, else the one of the
/// environment, else the one of the configuration.
pub open spec fn chosen_base(
    given: Option<Seq<char>>,
    env: Option<Seq<char>>,
    config: Seq<char>,
) -> Seq<char> {
    match (given, env) {
        (Some(u), _) => u,
        (None, Some(u)) => u,
        (None, None) => config,
    }
}

/// The account of a session: the one that was stored, else the one that the token names.
pub open spec fn account_for(stored: Option<Seq<char>>, token: Seq<char>) -> Option<Seq<char>> {
    match stored {
        Some(a) => Some(a),
        None => token_account(token),
    }
}

impl Session {
    /// The headers that every request carries, in the order in which they are set.
    pub open spec fn header_fields(self) -> Seq<(Seq<char>, Seq<char>)> {
        let agent = if is_header_text(self.user_agent@) {
            self.user_agent@
        } else {
            "cloudex"@
        };
        let bearer = "Bearer "@ + self.bearer_token@;
        let one = seq![("user-agent"@, agent)];
        let two = if is_header_text(bearer) {
            one.push(("authorization"@, bearer))
        } else {
            one
        };
        match self.account_id {
            Some(acc) => if is_header_text(acc@) {
                two.push(("chatgpt-account-id"@, acc@))
            } else {
                two
            },
            None => two,
        }
    }

    /// The headers that every request carries: the user agent, the bearer token, and the account
    /// id where there is one. A value that no header can carry is left out; a user agent that no
    /// header can carry gives way to `cloudex`.
    pub fn headers(&self) -> (r: Vec<(String, String)>)
        ensures
            r.deep_view() == self.header_fields(),
    {
        let mut headers: Vec<(String, String)> = Vec::new();
        let agent = if header_value_ok(&self.user_agent) {
            self.user_agent.clone()
        } else {
            "cloudex".to_string()
        };
        headers.push(("user-agent".to_string(), agent));
        let mut bearer = "Bearer ".to_string();
        bearer.append(&self.bearer_token);
        assert(headers.deep_view() == seq![("user-agent"@, agent@)]);
        let ghost one = headers.deep_view();
        if header_value_ok(&bearer) {
            headers.push(("authorization".to_string(), bearer));
            assert(headers.deep_view() == one.push(("authorization"@, bearer@)));
        }
        let ghost two = headers.deep_view();
        if let Some(acc) = &self.account_id {
            if header_value_ok(acc) {
                headers.push(("chatgpt-account-id".to_string(), acc.clone()));
                assert(headers.deep_view() == two.push(("chatgpt-account-id"@, acc@)));
            }
        }
        headers
    }

    /// Makes a session out of what the configuration, the environment and the stored credentials
    /// hold. `token` is the stored token, where there are credentials; `account_id` the account
    /// that was stored with it.
    pub fn load(
        base_url_override: Option<String>,
        env_base_url: Option<String>,
        config_base_url: String,
        codex_home: String,
        token: Option<String>,
        account_id: Option<String>,
        user_agent: String,
    ) -> (r: Result<Session, LoadError>)
        ensures
            match r {
                Ok(s) => {
                    &&& token is Some
                    &&& !is_blank(token->0@)
                    &&& s.base_url@ == normalized(
                        chosen_base(
                            base_url_override.deep_view(),
                            env_base_url.deep_view(),
                            config_base_url@,
                        ),
                    )
                    &&& s.codex_home == codex_home
                    &&& Some(s.bearer_token) == token
                    &&& s.account_id.deep_view() == account_for(
                        account_id.deep_view(),
                        token->0@,
                    )
                    &&& s.user_agent == user_agent
                },
                Err(LoadError::NotSignedIn) => token is None,
                Err(LoadError::EmptyToken) => token is Some && is_blank(token->0@),
            },
    {
        let chosen = match base_url_override {
            Some(u) => u,
            None => match env_base_url {
                Some(u) => u,
                None => config_base_url,
            },
        };
        let base_url = normalize_base_url(&chosen);
        let bearer_token = match token {
            None => {
                return Err(LoadError::NotSignedIn);
            },
            Some(t) => t,
        };
        if blank(&bearer_token) {
            return Err(LoadError::EmptyToken);
        }
        let account_id = match account_id {
            Some(a) => Some(a),
            None => extract_chatgpt_account_id(&bearer_token),
        };
        Ok(Session { base_url, codex_home, bearer_token, account_id, user_agent })
    }
}

/// A normalized base URL never ends with a slash.
pub proof fn law_normalized_has_no_slash_at_its_end(s: Seq<char>)
    ensures
        normalized(s).len() == 0 || normalized(s).last() != '/',
{
    reveal_strlit("/backend-api");
    lemma_end_trimmed_shape(s, Class::Only('/'));
}

/// Normalizing a base URL again changes nothing.
pub proof fn law_normalizing_is_idempotent(s: Seq<char>)
    ensures
        normalized(normalized(s)) == normalized(s),
{
    reveal_strlit("/backend-api");
    law_normalized_has_no_slash_at_its_end(s);
    let b = end_trimmed(s, Class::Only('/'));
    let n = normalized(s);
    assert(end_trimmed(n, Class::Only('/')) == n);
    if n != b {
        assert(n.subrange(b.len() as int, n.len() as int) == "/backend-api"@);
        assert(stands_at(n, "/backend-api"@, b.len() as int));
    }
}

/// A ChatGPT base URL is always addressed through `/backend-api`.
pub proof fn law_chatgpt_hosts_get_the_backend_path(s: Seq<char>)
    requires
        has_prefix(end_trimmed(s, Class::Only('/')), "https://chatgpt.com"@) || has_prefix(
            end_trimmed(s, Class::Only('/')),
            "https://chat.openai.com"@,
        ),
    ensures
        occurs(normalized(s), "/backend-api"@),
{
    let b = end_trimmed(s, Class::Only('/'));
    let n = normalized(s);
    if !occurs(b, "/backend-api"@) {
        assert(n.subrange(b.len() as int, n.len() as int) == "/backend-api"@);
        assert(stands_at(n, "/backend-api"@, b.len() as int));
    }
}

/// A task has the same address whether or not its base URL was normalized before.
pub proof fn law_task_address_ignores_normalizing(base: Seq<char>, task_id: Seq<char>)
    ensures
        task_address(normalized(base), task_id) == task_address(base, task_id),
{
    law_normalizing_is_idempotent(base);
}

/// The address of a task always ends with `/codex/tasks/` and the id of the task.
pub proof fn law_task_address_ends_with_the_task(base: Seq<char>, task_id: Seq<char>)
    ensures
        has_suffix(task_address(base, task_id), "/codex/tasks/"@ + task_id),
{
    reveal_strlit("/codex");
    reveal_strlit("/tasks/");
    reveal_strlit("/codex/tasks/");
    let n = normalized(base);
    let u = task_address(base, task_id);
    let e = "/codex/tasks/"@ + task_id;
    assert("/codex"@ + "/tasks/"@ == "/codex/tasks/"@);
    if !has_suffix(n, "/backend-api"@) && !has_suffix(n, "/api/codex"@) && has_suffix(n, "/codex"@) {
        let m = n.take(n.len() - 6);
        assert(n == m + "/codex"@) by {
            assert(n.subrange(n.len() - 6, n.len() as int) == "/codex"@);
        }
        assert(u == m + e);
        assert(u.subrange(u.len() - e.len(), u.len() as int) == e);
    } else {
        assert(u.subrange(u.len() - e.len(), u.len() as int) == e);
    }
}

/// The command line is heard before the environment, and that before the configuration.
pub proof fn law_the_nearest_base_counts(
    given: Option<Seq<char>>,
    env: Option<Seq<char>>,
    config: Seq<char>,
)
    ensures
        given matches Some(u) ==> chosen_base(given, env, config) == u,
        given is None ==> (env matches Some(u) ==> chosen_base(given, env, config) == u),
        given is None && env is None ==> chosen_base(given, env, config) == config,
{
}

/// A stored account counts; only without one the token is asked for it.
pub proof fn law_a_stored_account_counts(stored: Option<Seq<char>>, token: Seq<char>)
    ensures
        stored is Some ==> account_for(stored, token) == stored,
        stored is None ==> account_for(stored, token) == token_account(token),
{
}

/// Other hosts than those of ChatGPT are addressed as they are, without slashes at the end; and so
/// are those of ChatGPT where the path of the backend is given. Otherwise just that path is added.
pub proof fn law_a_base_url_stays_what_it_is(s: Seq<char>)
    ensures
        ({
            let b = end_trimmed(s, Class::Only('/'));
            let chatgpt = has_prefix(b, "https://chatgpt.com"@) || has_prefix(
                b,
                "https://chat.openai.com"@,
            );
            &&& has_prefix(normalized(s), b)
            &&& !chatgpt || occurs(b, "/backend-api"@) ==> normalized(s) == b
            &&& chatgpt && !occurs(b, "/backend-api"@) ==> normalized(s) == b + "/backend-api"@
        }),
{
    let b = end_trimmed(s, Class::Only('/'));
    lemma_two_parts(b, "/backend-api"@);
    lemma_two_parts(b, Seq::empty());
    assert(b + Seq::<char>::empty() =~= b);
}

/// A task is looked at below the root of its host, whichever path of the backend the base URL
/// leads to.
pub proof fn law_a_task_is_looked_at_below_the_root(root: Seq<char>, task_id: Seq<char>)
    ensures
        task_address(root + "/backend-api"@, task_id) == root + "/codex/tasks/"@ + task_id,
        !has_prefix(root + "/api/codex"@, "https://chatgpt.com"@) && !has_prefix(
            root + "/api/codex"@,
            "https://chat.openai.com"@,
        ) ==> task_address(root + "/api/codex"@, task_id) == root + "/codex/tasks/"@ + task_id,
        normalized(root) == root && !has_suffix(root, "/backend-api"@) && !has_suffix(
            root,
            "/codex"@,
        ) && !has_suffix(root, "/api/codex"@) ==> task_address(root, task_id) == root
            + "/codex/tasks/"@ + task_id,
{
    reveal_strlit("/backend-api");
    reveal_strlit("/api/codex");
    let p = "/backend-api"@;
    let a = root + p;
    assert(a.last() == 'i');
    assert(end_trimmed(a, Class::Only('/')) == a);
    lemma_two_parts(root, p);
    lemma_part_within(root, p, Seq::empty());
    assert(root + p + Seq::<char>::empty() =~= a);
    assert(a.take(a.len() - p.len()) =~= root);
    let q = "/api/codex"@;
    let b = root + q;
    assert(b.last() == 'x');
    assert(end_trimmed(b, Class::Only('/')) == b);
    lemma_two_parts(root, q);
    assert(b.take(b.len() - q.len()) =~= root);
    if !has_prefix(b, "https://chatgpt.com"@) && !has_prefix(b, "https://chat.openai.com"@) {
        assert(normalized(b) == b);
        if has_suffix(b, p) {
            assert(b.subrange(b.len() - p.len(), b.len() as int).last() == b.last());
        }
    }
}

/// The middle part of a token is what stands between its first two dots; a token with fewer parts
/// than three, or with an empty one among them, has none.
pub proof fn law_the_payload_stands_between_dots(
    a: Seq<char>,
    b: Seq<char>,
    c: Seq<char>,
    rest: Seq<char>,
)
    requires
        !a.contains('.'),
        !b.contains('.'),
        !c.contains('.'),
    ensures
        a.len() > 0 && b.len() > 0 && c.len() > 0 ==> token_payload(
            a + seq!['.'] + (b + seq!['.'] + c),
        ) == Some(b) && token_payload(
            a + seq!['.'] + (b + seq!['.'] + (c + seq!['.'] + rest)),
        ) == Some(b),
        a.len() == 0 || b.len() == 0 || c.len() == 0 ==> token_payload(
            a + seq!['.'] + (b + seq!['.'] + c),
        ) is None,
        token_payload(a + seq!['.'] + b) is None,
        token_payload(a) is None,
{
    let d = seq!['.'];
    law_a_piece_ends_at_its_separator(c, '.', rest);
    law_a_piece_ends_at_its_separator(b, '.', c);
    law_a_piece_ends_at_its_separator(b, '.', c + d + rest);
    law_a_piece_ends_at_its_separator(a, '.', b + d + c);
    law_a_piece_ends_at_its_separator(a, '.', b + d + (c + d + rest));
    law_a_piece_ends_at_its_separator(a, '.', b);
}

/// The account that claims name is the text at its place in them.
pub proof fn law_the_account_stands_in_the_claims(claims: Tree)
    ensures
        ({
            let t = at(claims, seq!["https://api.openai.com/auth"@, "chatgpt_account_id"@]);
            &&& t is None ==> claimed_account(claims) is None
            &&& t matches Some(x) ==> claimed_account(claims) == text_in(x)
        }),
{
}

/// Every request says who asks: with the user agent first, with the bearer token, and with the
/// account where there is one, each where a header can carry it; and no header carries a control
/// character.
pub proof fn law_every_request_says_who_asks(s: Session)
    ensures
        ({
            let h = s.header_fields();
            let bearer = "Bearer "@ + s.bearer_token@;
            &&& h.len() > 0
            &&& is_header_text(s.user_agent@) ==> h[0] == ("user-agent"@, s.user_agent@)
            &&& !is_header_text(s.user_agent@) ==> h[0] == ("user-agent"@, "cloudex"@)
            &&& is_header_text(bearer) ==> h.contains(("authorization"@, bearer))
            &&& s.account_id matches Some(a) ==> (is_header_text(a@) ==> h.contains(
                ("chatgpt-account-id"@, a@),
            ))
            &&& s.account_id is None ==> h.len() <= 2
            &&& forall|i: int| 0 <= i < h.len() ==> is_header_text((#[trigger] h[i]).1)
        }),
{
    reveal_strlit("cloudex");
    let h = s.header_fields();
    let bearer = "Bearer "@ + s.bearer_token@;
    if is_header_text(bearer) {
        assert(h[1] == ("authorization"@, bearer));
    }
    match s.account_id {
        Some(a) => {
            if is_header_text(a@) {
                assert(h[h.len() - 1] == ("chatgpt-account-id"@, a@));
            }
        },
        None => {},
    }
}

} // verus!
