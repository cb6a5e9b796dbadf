//! The login that the Codex CLI keeps in its `auth.json`: reading it, judging whether its token
//! is still good, and putting a refreshed token into it.

use vstd::prelude::*;

use crate::encoding;
use crate::encoding::{base64url, base64url_bytes};
use crate::json::{bare, int_in, json_parsed, json_read, json_read_bytes};
use crate::json::{json_written_pretty, member, member_of, reads_back, text_in, text_member, SAFE_DEPTH};
use crate::json::{Json, Tree};
use crate::text;

verus! {

/// The OAuth client of the Codex CLI.
pub const CLIENT_ID: &'static str = "app_EMoamEEZ73f0CkXaXp7hrann";

pub const TOKEN_URL: &'static str = "https://auth.openai.com/oauth/token";

/// A token is refreshed this many seconds before it expires.
pub const EXPIRY_MARGIN_SECS: u64 = 120;

/// How many characters of an answer an error message quotes.
pub const QUOTED_CHARS: usize = 200;

#[derive(Debug, Clone, PartialEq, Eq)]
pub struct OAuthTokens {
    pub access_token: String,
    pub account_id: String,
}

/// The text, or none.
pub open spec fn or_empty(s: Option<Seq<char>>) -> Seq<char> {
    match s {
        Some(t) => t,
        None => Seq::empty(),
    }
}

/// A text among the tokens of a login, empty where it is missing.
pub open spec fn token_text(doc: Tree, name: Seq<char>) -> Seq<char> {
    or_empty(text_in(member_of(doc, "tokens"@, name)))
}

fn stored(doc: &Json, name: &str) -> (r: String)
    ensures
        r@ == token_text(doc.tree(), name@),
{
    match doc.get_str_in("tokens", name) {
        Some(s) => text::copy(s),
        None => String::new(),
    }
}

/// The parts of the path of `auth.json`, from the values of `CODEX_HOME`, `USERPROFILE` and
/// `HOME`.
pub fn auth_path(
    codex_home: Option<&str>,
    user_profile: Option<&str>,
    home: Option<&str>,
) -> (r: Result<Vec<String>, String>)
    ensures
        match codex_home {
            Some(c) if text::trimmed(c@).len() > 0 => r matches Ok(p) && p@.len() == 2 && p@[0]@
                == text::trimmed(c@) && p@[1]@ == "auth.json"@,
            _ => match (user_profile, home) {
                (Some(h), _) | (None, Some(h)) => r matches Ok(p) && p@.len() == 3 && p@[0]@ == h@
                    && p@[1]@ == ".codex"@ && p@[2]@ == "auth.json"@,
                (None, None) => r matches Err(e) && e@ == "could not locate home directory"@,
            },
        },
{
    if let Some(c) = codex_home {
        let c = text::trim(c);
        if c.unicode_len() != 0 {
            return Ok(vec![text::copy(c), text::copy("auth.json")]);
        }
    }
    let base = match user_profile {
        Some(h) => Some(h),
        None => home,
    };
    match base {
        Some(h) => Ok(vec![text::copy(h), text::copy(".codex"), text::copy("auth.json")]),
        None => Err(text::copy("could not locate home directory")),
    }
}

/// The login holds an access token.
pub open spec fn logged_in(doc: Tree) -> bool {
    token_text(doc, "access_token"@).len() > 0
}

/// Whether a login holds an access token.
pub fn holds_token(doc: &Json) -> (r: bool)
    ensures
        r == logged_in(doc.tree()),
{
    stored(doc, "access_token").as_str().unicode_len() != 0
}

/// Whether the text of an `auth.json` holds an access token.
pub fn has_oauth(raw: &str) -> (r: bool)
    ensures
        r == (json_read(raw@) matches Some(t) && logged_in(t)),
{
    match Json::read(raw) {
        Ok(doc) => holds_token(&doc),
        Err(_) => false,
    }
}

/// The expiry that the payload of a token states, in seconds.
pub open spec fn payload_exp(payload: Tree) -> Option<u64> {
    match int_in(member(payload, "exp"@), 0, u64::MAX as int) {
        Some(n) => Some(n as u64),
        None => None,
    }
}

/// The payload of a token: base64 between its first two dots, holding JSON.
pub open spec fn token_payload(token: Seq<char>) -> Option<Tree> {
    match text::second_part(token, '.') {
        Some(p) => match base64url_bytes(p) {
            Some(b) => json_read_bytes(b),
            None => None,
        },
        None => None,
    }
}

/// The expiry that a token states, in seconds.
pub open spec fn token_exp(token: Seq<char>) -> Option<u64> {
    match token_payload(token) {
        Some(t) => payload_exp(t),
        None => None,
    }
}

/// The expiry that the payload of a token states, in seconds.
pub fn exp_in(payload: &Json) -> (r: Option<u64>)
    ensures
        r == payload_exp(payload.tree()),
{
    match payload.get("exp") {
        Some(j) => j.as_u64(),
        None => None,
    }
}

/// The expiry that a token states, in seconds.
pub fn jwt_exp(token: &str) -> (r: Option<u64>)
    ensures
        r == token_exp(token@),
{
    let payload = match text::split_second(token, '.') {
        Some(p) => p,
        None => return None,
    };
    let bytes = match encoding::decode_base64url(payload) {
        Some(b) => b,
        None => return None,
    };
    match Json::read_bytes(bytes.as_slice()) {
        Some(doc) => exp_in(&doc),
        None => None,
    }
}

/// The time is far enough from the expiry. A token that states none is never fresh.
pub open spec fn is_fresh(exp: Option<u64>, now: u64) -> bool {
    match exp {
        Some(e) => e > now + EXPIRY_MARGIN_SECS,
        None => false,
    }
}

/// What is to be done to have a good token.
#[derive(Debug, Clone, PartialEq, Eq)]
pub enum TokenPlan {
    /// The stored token is good.
    Use(OAuthTokens),
    /// Exchange this refresh token for a new one.
    Refresh { refresh_token: String },
}

/// [`TokenPlan`], or the message of an error.
pub enum Plan {
    Use { access_token: Seq<char>, account_id: Seq<char> },
    Refresh { refresh_token: Seq<char> },
    Error(Seq<char>),
}

pub open spec fn plan_of(r: Result<TokenPlan, String>) -> Plan {
    match r {
        Ok(TokenPlan::Use(t)) => Plan::Use {
            access_token: t.access_token@,
            account_id: t.account_id@,
        },
        Ok(TokenPlan::Refresh { refresh_token }) => Plan::Refresh {
            refresh_token: refresh_token@,
        },
        Err(e) => Plan::Error(e@),
    }
}

/// What is to be done with a login whose token states the expiry `exp`. Where the server refused
/// the token (`forced`), it is refreshed however good it looks.
pub open spec fn planned(doc: Tree, exp: Option<u64>, now: u64, forced: bool) -> Plan {
    if !logged_in(doc) {
        Plan::Error("auth.json has no access token — run `codex login` again"@)
    } else if !forced && is_fresh(exp, now) {
        Plan::Use {
            access_token: token_text(doc, "access_token"@),
            account_id: token_text(doc, "account_id"@),
        }
    } else if token_text(doc, "refresh_token"@).len() == 0 {
        Plan::Error("access token expired and no refresh token stored — run `codex login`"@)
    } else {
        Plan::Refresh { refresh_token: token_text(doc, "refresh_token"@) }
    }
}

/// What is to be done with a login whose token states the expiry `exp`.
pub fn plan_token(doc: &Json, exp: Option<u64>, now: u64, forced: bool) -> (r: Result<
    TokenPlan,
    String,
>)
    ensures
        plan_of(r) == planned(doc.tree(), exp, now, forced),
{
    let access_token = stored(doc, "access_token");
    let account_id = stored(doc, "account_id");
    if access_token.as_str().unicode_len() == 0 {
        return Err(text::copy("auth.json has no access token — run `codex login` again"));
    }
    let fresh = match exp {
        Some(e) => e > now.saturating_add(EXPIRY_MARGIN_SECS),
        None => false,
    };
    if !forced && fresh {
        return Ok(TokenPlan::Use(OAuthTokens { access_token, account_id }));
    }
    let refresh_token = stored(doc, "refresh_token");
    if refresh_token.as_str().unicode_len() == 0 {
        return Err(
            text::copy("access token expired and no refresh token stored — run `codex login`"),
        );
    }
    Ok(TokenPlan::Refresh { refresh_token })
}

/// What is to be done with the text of an `auth.json`, none where there is no such file. With it
/// comes the document to put a refreshed token into.
pub fn ensure_fresh_token(raw: Option<&str>, path: &str, now: u64, forced: bool) -> (r: Result<
    (TokenPlan, Json),
    String,
>)
    ensures
        match raw {
            None => r matches Err(e) && e@
                == "no Codex login found — run `codex login` once, then restart codex-mic"@,
            Some(s) => match json_parsed(s@) {
                Err(reason) => r matches Err(e) && e@ == path@ + " is not valid JSON: "@ + reason,
                Ok(doc) => match planned(
                    doc,
                    token_exp(token_text(doc, "access_token"@)),
                    now,
                    forced,
                ) {
                    Plan::Error(m) => r matches Err(e) && e@ == m,
                    p => r matches Ok((plan, j)) && plan_of(Ok(plan)) == p && j.tree() == doc,
                },
            },
        },
{
    let raw = match raw {
        Some(s) => s,
        None => return Err(
            text::copy("no Codex login found — run `codex login` once, then restart codex-mic"),
        ),
    };
    let doc = match Json::read(raw) {
        Ok(doc) => doc,
        Err(reason) => {
            let mut out = text::join(path, " is not valid JSON: ");
            out.append(reason.as_str());
            return Err(out);
        },
    };
    let exp = jwt_exp(stored(&doc, "access_token").as_str());
    match plan_token(&doc, exp, now, forced) {
        Ok(plan) => Ok((plan, doc)),
        Err(e) => Err(e),
    }
}

/// The message of a server says that it did not accept the token.
pub open spec fn rejects_token(message: Seq<char>) -> bool {
    ||| text::occurs(message, "uthentication"@)
    ||| text::occurs(message, "nauthorized"@)
    ||| text::occurs(message, "invalidated"@)
    ||| text::occurs(message, "expired"@)
}

/// Whether the message of a server says that it did not accept the token, so that a fresh one
/// may help.
pub fn is_auth_rejection(message: &str) -> (r: bool)
    ensures
        r == rejects_token(message@),
{
    text::contains(message, "uthentication") || text::contains(message, "nauthorized")
        || text::contains(message, "invalidated") || text::contains(message, "expired")
}

/// What a token endpoint is asked.
pub open spec fn refresh_request_tree(refresh_token: Seq<char>) -> Tree {
    bare().plus("client_id"@, Tree::Text(CLIENT_ID@)).plus(
        "grant_type"@,
        Tree::Text("refresh_token"@),
    ).plus("refresh_token"@, Tree::Text(refresh_token))
}

/// What the token endpoint is asked.
pub fn refresh_request(refresh_token: &str) -> (r: Json)
    ensures
        r.tree() == refresh_request_tree(refresh_token@),
{
    Json::object().with("client_id", Json::text(CLIENT_ID)).with(
        "grant_type",
        Json::text("refresh_token"),
    ).with("refresh_token", Json::text(refresh_token))
}

/// The first characters of a text.
pub open spec fn quoted(s: Seq<char>) -> Seq<char> {
    if s.len() <= QUOTED_CHARS {
        s
    } else {
        s.take(QUOTED_CHARS as int)
    }
}

/// What is said where the token endpoint refused.
pub open spec fn refusal(status: Seq<char>, body: Seq<char>) -> Seq<char> {
    "token refresh failed ("@ + status + "): "@ + quoted(body) + " — run `codex login`"@
}

/// What is said where the token endpoint refused.
pub fn refresh_failure(status: &str, body: &str) -> (r: String)
    ensures
        r@ == refusal(status@, body@),
{
    let mut out = text::join("token refresh failed (", status);
    out.append("): ");
    if body.unicode_len() <= QUOTED_CHARS {
        out.append(body);
    } else {
        let part = body.substring_char(0, QUOTED_CHARS);
        assert(part@ =~= body@.take(QUOTED_CHARS as int));
        out.append(part);
    }
    out.append(" — run `codex login`");
    out
}

/// The map with a text of the answer put in, where the answer has it.
pub open spec fn taken_over(m: Map<Seq<char>, Tree>, body: Tree, name: Seq<char>) -> Map<
    Seq<char>,
    Tree,
> {
    match text_member(body, name) {
        Some(s) => m.insert(name, Tree::Text(s)),
        None => m,
    }
}

/// The tokens after a refresh: those of the answer in place of the old, the others as they were.
pub open spec fn refreshed_tokens(tokens: Map<Seq<char>, Tree>, body: Tree) -> Map<
    Seq<char>,
    Tree,
> {
    taken_over(
        taken_over(taken_over(tokens, body, "access_token"@), body, "id_token"@),
        body,
        "refresh_token"@,
    )
}

/// A login after a refresh.
pub open spec fn refreshed(
    doc: Map<Seq<char>, Tree>,
    tokens: Map<Seq<char>, Tree>,
    body: Tree,
    stamp: Seq<char>,
) -> Tree {
    Tree::Object(
        doc.insert("tokens"@, Tree::Object(refreshed_tokens(tokens, body))).insert(
            "last_refresh"@,
            Tree::Text(stamp),
        ),
    )
}

fn take_over(tokens: Json, body: &Json, name: &str) -> (r: Json)
    requires
        tokens.tree() is Object,
    ensures
        r.tree() == Tree::Object(taken_over(tokens.tree()->Object_0, body.tree(), name@)),
{
    match body.get_str(name) {
        Some(s) => tokens.with(name, Json::text(s)),
        None => tokens,
    }
}

/// Puts the answer of the token endpoint into the login. The result is the login to write back
/// and the tokens to go on with.
pub fn apply_refresh(doc: Json, body: &Json, stamp: &str) -> (r: Result<
    (Json, OAuthTokens),
    String,
>)
    ensures
        match (text_member(body.tree(), "access_token"@), member(doc.tree(), "tokens"@)) {
            (None, _) => r matches Err(e) && e@ == "token refresh response had no access_token"@,
            (Some(access), Some(Tree::Object(tokens))) => r matches Ok((j, t)) && j.tree()
                == refreshed(doc.tree()->Object_0, tokens, body.tree(), stamp@)
                && t.access_token@ == access && t.account_id@ == token_text(
                j.tree(),
                "account_id"@,
            ),
            (Some(_), _) => r matches Err(e) && e@ == "auth.json has no tokens object"@,
        },
{
    let access_token = match body.get_str("access_token") {
        Some(s) => text::copy(s),
        None => return Err(text::copy("token refresh response had no access_token")),
    };
    let tokens = match doc.get("tokens") {
        Some(t) => t.copy(),
        None => return Err(text::copy("auth.json has no tokens object")),
    };
    match tokens {
        Json::Object(_) => {},
        _ => return Err(text::copy("auth.json has no tokens object")),
    }
    let tokens = take_over(tokens, body, "access_token");
    let tokens = take_over(tokens, body, "id_token");
    let tokens = take_over(tokens, body, "refresh_token");
    let doc = doc.with("tokens", tokens).with("last_refresh", Json::text(stamp));
    let account_id = stored(&doc, "account_id");
    Ok((doc, OAuthTokens { access_token, account_id }))
}

/// What comes of a refresh that the endpoint answered with a document: the login to write back, as
/// text, and the tokens to go on with, or what is said. Where the login holds whole numbers only
/// and is not nested without end, as a login is, reading that text gives the login again.
pub open spec fn refresh_gives(
    doc: Tree,
    body: Tree,
    stamp: Seq<char>,
    r: Result<(String, OAuthTokens), String>,
) -> bool {
    match (text_member(body, "access_token"@), member(doc, "tokens"@)) {
        (None, _) => r matches Err(e) && e@ == "token refresh response had no access_token"@,
        (Some(access), Some(Tree::Object(tokens))) => {
            let after = refreshed(doc->Object_0, tokens, body, stamp);
            r matches Ok((text, t)) && text@ == json_written_pretty(after) && (reads_back(
                after,
                SAFE_DEPTH as nat,
            ) ==> json_read(text@) == Some(after)) && t.access_token@ == access && t.account_id@
                == token_text(after, "account_id"@)
        },
        (Some(_), _) => r matches Err(e) && e@ == "auth.json has no tokens object"@,
    }
}

/// [`apply_refresh`], with the login as the text to write back.
pub fn refresh(doc: Json, body: &Json, stamp: &str) -> (r: Result<(String, OAuthTokens), String>)
    ensures
        refresh_gives(doc.tree(), body.tree(), stamp@, r),
{
    match apply_refresh(doc, body, stamp) {
        Ok((doc, tokens)) => Ok((doc.write_pretty(), tokens)),
        Err(e) => Err(e),
    }
}

/// What comes of the answer of the token endpoint: whether its status is one of success, that
/// status in words, and the text that came with it or why that could not be read. The text of a
/// refusal is only quoted, so there it may be missing.
pub fn refresh_answer(
    doc: Json,
    success: bool,
    status: &str,
    text: Result<&str, &str>,
    stamp: &str,
) -> (r: Result<(String, OAuthTokens), String>)
    ensures
        match (success, text) {
            (false, Ok(t)) => r matches Err(e) && e@ == refusal(status@, t@),
            (false, Err(_)) => r matches Err(e) && e@ == refusal(status@, Seq::empty()),
            (true, Err(reason)) => r matches Err(e) && e@
                == "token refresh returned invalid JSON: "@ + reason@,
            (true, Ok(t)) => match json_parsed(t@) {
                Err(reason) => r matches Err(e) && e@ == "token refresh returned invalid JSON: "@
                    + reason,
                Ok(body) => refresh_gives(doc.tree(), body, stamp@, r),
            },
        },
{
    proof {
        reveal_strlit("");
        assert(""@ =~= Seq::<char>::empty());
    }
    match (success, text) {
        (false, Ok(t)) => Err(refresh_failure(status, t)),
        (false, Err(_)) => Err(refresh_failure(status, "")),
        (true, Err(reason)) => Err(text::join("token refresh returned invalid JSON: ", reason)),
        (true, Ok(t)) => match Json::read(t) {
            Ok(body) => refresh(doc, &body, stamp),
            Err(reason) => Err(
                text::join("token refresh returned invalid JSON: ", reason.as_str()),
            ),
        },
    }
}

/// The time as `time` writes it by RFC 3339, if it can: the time is given in nanoseconds since
/// the start of 1970.
pub uninterp spec fn rfc3339(nanos: i128) -> Option<Seq<char>>;

/// `time`'s `OffsetDateTime::from_unix_timestamp_nanos`, and `format` of the result with
/// `Rfc3339`. Either fails outside the years it covers.
#[verifier::external_body]
fn format_rfc3339(nanos: i128) -> (r: Option<String>)
    ensures
        match r {
            Some(s) => rfc3339(nanos) == Some(s@),
            None => rfc3339(nanos) is None,
        },
{
    match time::OffsetDateTime::from_unix_timestamp_nanos(nanos) {
        Ok(t) => t.format(&time::format_description::well_known::Rfc3339).ok(),
        Err(_) => None,
    }
}

/// When a login was refreshed, as it is written into it.
pub fn refresh_stamp(nanos: i128) -> (r: String)
    ensures
        r@ == or_empty(rfc3339(nanos)),
{
    match format_rfc3339(nanos) {
        Some(s) => s,
        None => String::new(),
    }
}

/// A refresh changes nothing of a login but the tokens that the answer brings and the time of
/// the refresh: every other member, of the login and among its tokens, stays.
pub proof fn lemma_refresh_keeps_the_rest(
    doc: Map<Seq<char>, Tree>,
    tokens: Map<Seq<char>, Tree>,
    body: Tree,
    stamp: Seq<char>,
    name: Seq<char>,
)
    ensures
        name != "tokens"@ && name != "last_refresh"@ ==> member(
            refreshed(doc, tokens, body, stamp),
            name,
        ) == member(Tree::Object(doc), name),
        name != "access_token"@ && name != "id_token"@ && name != "refresh_token"@ ==> member_of(
            refreshed(doc, tokens, body, stamp),
            "tokens"@,
            name,
        ) == member(Tree::Object(tokens), name),
{
    reveal_strlit("tokens");
    reveal_strlit("last_refresh");
    assert("tokens"@.len() != "last_refresh"@.len());
}

/// After a refresh the login holds the new access token, and the old refresh token where the
/// answer brings none: the next refresh is possible where this one was.
pub proof fn lemma_refresh_can_be_repeated(
    doc: Map<Seq<char>, Tree>,
    tokens: Map<Seq<char>, Tree>,
    body: Tree,
    stamp: Seq<char>,
)
    requires
        text_member(body, "access_token"@) is Some,
        doc.dom().contains("tokens"@),
        doc["tokens"@] == Tree::Object(tokens),
    ensures
        token_text(refreshed(doc, tokens, body, stamp), "access_token"@) == or_empty(
            text_member(body, "access_token"@),
        ),
        token_text(refreshed(doc, tokens, body, stamp), "refresh_token"@) == (match text_member(
            body,
            "refresh_token"@,
        ) {
            Some(t) => t,
            None => token_text(Tree::Object(doc), "refresh_token"@),
        }),
        token_text(refreshed(doc, tokens, body, stamp), "account_id"@) == token_text(
            Tree::Object(doc),
            "account_id"@,
        ),
{
    reveal_strlit("tokens");
    reveal_strlit("last_refresh");
    reveal_strlit("access_token");
    reveal_strlit("id_token");
    reveal_strlit("refresh_token");
    reveal_strlit("account_id");
    assert("tokens"@.len() != "last_refresh"@.len());
    assert("access_token"@.len() == 12 && "id_token"@.len() == 8 && "refresh_token"@.len() == 13
        && "account_id"@.len() == 10);
}

/// The token of a refresh is used from then on, without another refresh, until shortly before its
/// own expiry.
pub proof fn lemma_refreshed_token_is_used(
    doc: Map<Seq<char>, Tree>,
    tokens: Map<Seq<char>, Tree>,
    body: Tree,
    stamp: Seq<char>,
    exp: Option<u64>,
    now: u64,
)
    requires
        doc.dom().contains("tokens"@),
        doc["tokens"@] == Tree::Object(tokens),
        or_empty(text_member(body, "access_token"@)).len() > 0,
        is_fresh(exp, now),
    ensures
        planned(refreshed(doc, tokens, body, stamp), exp, now, false) == (Plan::Use {
            access_token: or_empty(text_member(body, "access_token"@)),
            account_id: token_text(Tree::Object(doc), "account_id"@),
        }),
{
    lemma_refresh_can_be_repeated(doc, tokens, body, stamp);
}

/// A token is never used within the margin before its expiry, nor where it states none.
pub proof fn lemma_no_stale_token_is_used(doc: Tree, exp: Option<u64>, now: u64, forced: bool)
    ensures
        planned(doc, exp, now, forced) is Use ==> !forced && exp is Some && exp->Some_0 - now
            > EXPIRY_MARGIN_SECS,
{
}

/// Where the login is: in the directory that is named for it, else under the profile, else under the
/// home directory; without any of them there is none.
pub proof fn lemma_where_the_login_is(
    codex_home: Option<&str>,
    profile: Option<&str>,
    home: Option<&str>,
    r: Result<Vec<String>, String>,
)
    requires
        call_ensures(auth_path, (codex_home, profile, home), r),
    ensures
        ({
            let named = codex_home is Some && text::trimmed(codex_home->Some_0@).len() > 0;
            &&& r is Ok <==> named || profile is Some || home is Some
            &&& r matches Ok(p) ==> p@.last()@ == "auth.json"@
            &&& named ==> (r matches Ok(p) && p@.len() == 2 && p@[0]@ == text::trimmed(
                codex_home->Some_0@,
            ))
            &&& !named && profile is Some ==> (r matches Ok(p) && p@.len() == 3 && p@[0]@
                == profile->Some_0@ && p@[1]@ == ".codex"@)
            &&& !named && profile is None && home is Some ==> (r matches Ok(p) && p@.len() == 3
                && p@[0]@ == home->Some_0@ && p@[1]@ == ".codex"@)
        }),
{
}

/// A text among the tokens of a login.
pub open spec fn held(doc: Tree, name: Seq<char>) -> Seq<char> {
    match member_of(doc, "tokens"@, name) {
        Some(Tree::Text(t)) => t,
        _ => Seq::empty(),
    }
}

/// When a stored token is used, and when it is refreshed. It is used, as it is and under its
/// account, exactly where it says that it is good for more than two minutes and nobody asks for
/// another. Otherwise it is exchanged with the stored refresh token, and where there is none, or no
/// token at all, the user is told to log in.
pub proof fn lemma_when_a_token_is_used(
    doc: Json,
    exp: Option<u64>,
    now: u64,
    forced: bool,
    r: Result<TokenPlan, String>,
)
    requires
        call_ensures(plan_token, (&doc, exp, now, forced), r),
    ensures
        ({
            let access = held(doc.tree(), "access_token"@);
            let refresh = held(doc.tree(), "refresh_token"@);
            let good = !forced && (exp matches Some(e) && e > now + 120);
            &&& r matches Ok(TokenPlan::Use(t)) ==> access.len() > 0 && good && t.access_token@
                == access && t.account_id@ == held(doc.tree(), "account_id"@)
            &&& r matches Ok(TokenPlan::Refresh { refresh_token }) ==> access.len() > 0 && !good
                && refresh.len() > 0 && refresh_token@ == refresh
            &&& access.len() > 0 && good ==> r is Ok && r->Ok_0 is Use
            &&& access.len() > 0 && !good && refresh.len() > 0 ==> r is Ok && r->Ok_0 is Refresh
            &&& access.len() == 0 ==> (r matches Err(e) && e@
                == "auth.json has no access token — run `codex login` again"@)
            &&& access.len() > 0 && !good && refresh.len() == 0 ==> (r matches Err(e) && e@
                == "access token expired and no refresh token stored — run `codex login`"@)
        }),
{
    assert(plan_of(r) is Use <==> r is Ok && r->Ok_0 is Use);
    assert(plan_of(r) is Refresh <==> r is Ok && r->Ok_0 is Refresh);
    assert(plan_of(r) is Error <==> r is Err);
}

/// The expiry of a token is the whole number under `exp` in the document that its middle part
/// carries, between its dots.
pub proof fn lemma_where_the_expiry_is(
    head: Seq<char>,
    payload: Seq<u8>,
    signature: Seq<char>,
    token: &str,
    doc: Tree,
    r: Option<u64>,
)
    requires
        call_ensures(jwt_exp, (token,), r),
        !head.contains('.'),
        token@ == head.push('.') + base64url(payload).push('.') + signature,
        json_read_bytes(payload) == Some(doc),
    ensures
        r == (match member(doc, "exp"@) {
            Some(Tree::Int(n)) if 0 <= n <= u64::MAX => Some(n as u64),
            _ => None,
        }),
{
    let s = token@;
    let p = base64url(payload);
    assert(!p.contains('.')) by {
        if p.contains('.') {
            let i = choose|i: int| 0 <= i < p.len() && p[i] == '.';
            assert(p[i] == encoding::symbol(encoding::sextet(payload, i), true));
            assert(0 <= encoding::sextet(payload, i) < 64);
        }
    }
    text::lemma_second_of_three(head, p, signature, '.');
    encoding::lemma_base64url_round_trip(payload);
}

/// What is done with the text of a login is what is done with the document in it and the expiry of
/// its token, and the document is handed on as it is. Without a file, and without a document in it,
/// the user is told so.
pub proof fn lemma_a_login_is_its_document(
    raw: &str,
    path: &str,
    now: u64,
    forced: bool,
    doc: Json,
    token: &str,
    exp: Option<u64>,
    plan: Result<TokenPlan, String>,
    r: Result<(TokenPlan, Json), String>,
    missing: Result<(TokenPlan, Json), String>,
)
    requires
        call_ensures(ensure_fresh_token, (Some(raw), path, now, forced), r),
        call_ensures(ensure_fresh_token, (None::<&str>, path, now, forced), missing),
        token@ == held(doc.tree(), "access_token"@),
        call_ensures(jwt_exp, (token,), exp),
        call_ensures(plan_token, (&doc, exp, now, forced), plan),
    ensures
        missing matches Err(e) && e@
            == "no Codex login found — run `codex login` once, then restart codex-mic"@,
        json_parsed(raw@) == Ok::<Tree, Seq<char>>(doc.tree()) ==> (r is Ok <==> plan is Ok) && (r
            matches Ok((p, j)) ==> plan_of(Ok(p)) == plan_of(plan) && j.tree() == doc.tree()) && (r
            matches Err(e) ==> (plan matches Err(f) && e@ == f@)),
        json_parsed(raw@) matches Err(reason) ==> (r matches Err(e) && e@ == path@
            + " is not valid JSON: "@ + reason),
{
    assert(plan_of(plan) is Error <==> plan is Err);
}

/// There is a login exactly where its document holds an access token that is not empty.
pub proof fn lemma_when_there_is_a_login(raw: &str, doc: Json, r: bool, q: bool)
    requires
        call_ensures(has_oauth, (raw,), r),
        call_ensures(holds_token, (&doc,), q),
    ensures
        q <==> held(doc.tree(), "access_token"@).len() > 0,
        json_read(raw@) == Some(doc.tree()) ==> r == q,
        json_read(raw@) is None ==> !r,
{
}

/// The endpoint is asked to refresh, by this client, with the token given.
pub proof fn lemma_what_the_endpoint_is_asked(refresh_token: &str, r: Json)
    requires
        call_ensures(refresh_request, (refresh_token,), r),
    ensures
        member(r.tree(), "client_id"@) == Some(Tree::Text("app_EMoamEEZ73f0CkXaXp7hrann"@)),
        member(r.tree(), "grant_type"@) == Some(Tree::Text("refresh_token"@)),
        member(r.tree(), "refresh_token"@) == Some(Tree::Text(refresh_token@)),
{
    reveal_strlit("client_id");
    reveal_strlit("grant_type");
    reveal_strlit("refresh_token");
    assert("client_id"@.len() == 9 && "grant_type"@.len() == 10 && "refresh_token"@.len() == 13);
}

/// A refusal is said with its status and with what came with it, of which at most two hundred
/// characters are quoted, from the front.
pub proof fn lemma_how_a_refusal_is_said(status: &str, body: &str, r: String)
    requires
        call_ensures(refresh_failure, (status, body), r),
    ensures
        body@.len() <= 200 ==> r@ == "token refresh failed ("@ + status@ + "): "@ + body@
            + " — run `codex login`"@,
        body@.len() > 200 ==> r@ == "token refresh failed ("@ + status@ + "): "@ + body@.take(200)
            + " — run `codex login`"@,
{
}

/// The words that mean that a token was refused.
pub proof fn lemma_what_refuses_a_token(message: &str, r: bool)
    requires
        call_ensures(is_auth_rejection, (message,), r),
    ensures
        r <==> text::occurs(message@, "uthentication"@) || text::occurs(message@, "nauthorized"@)
            || text::occurs(message@, "invalidated"@) || text::occurs(message@, "expired"@),
{
}

/// What a refresh leaves in the login: each of the three tokens that the answer brings takes the
/// place of the old one, the time of the refresh is noted, and everything else stays. It needs an
/// access token in the answer and tokens in the login, and goes on with that access token and the
/// account that the login is of.
pub proof fn lemma_what_a_refresh_leaves(
    doc: Json,
    body: Json,
    stamp: &str,
    name: Seq<char>,
    r: Result<(Json, OAuthTokens), String>,
)
    requires
        call_ensures(apply_refresh, (doc, &body, stamp), r),
    ensures
        ({
            let brings = |n: Seq<char>| member(body.tree(), n) is Some && member(
                body.tree(),
                n,
            )->Some_0 is Text;
            let three = name == "access_token"@ || name == "id_token"@ || name == "refresh_token"@;
            &&& r is Ok <==> brings("access_token"@) && (member(doc.tree(), "tokens"@) matches Some(
                t,
            ) && t is Object)
            &&& r matches Err(e) ==> e@ == (if brings("access_token"@) {
                "auth.json has no tokens object"@
            } else {
                "token refresh response had no access_token"@
            })
            &&& r matches Ok((after, tokens)) ==> {
                &&& three && brings(name) ==> member_of(after.tree(), "tokens"@, name) == member(
                    body.tree(),
                    name,
                )
                &&& !three || !brings(name) ==> member_of(after.tree(), "tokens"@, name)
                    == member_of(doc.tree(), "tokens"@, name)
                &&& member(after.tree(), "last_refresh"@) == Some(Tree::Text(stamp@))
                &&& name != "tokens"@ && name != "last_refresh"@ ==> member(after.tree(), name)
                    == member(doc.tree(), name)
                &&& member(body.tree(), "access_token"@) == Some(Tree::Text(tokens.access_token@))
                &&& tokens.account_id@ == held(doc.tree(), "account_id"@)
            }
        }),
{
    reveal_strlit("tokens");
    reveal_strlit("last_refresh");
    reveal_strlit("access_token");
    reveal_strlit("id_token");
    reveal_strlit("refresh_token");
    reveal_strlit("account_id");
    assert("tokens"@.len() != "last_refresh"@.len());
    assert("access_token"@.len() == 12 && "id_token"@.len() == 8 && "refresh_token"@.len() == 13
        && "account_id"@.len() == 10);
}

/// What the endpoint answers decides: a refusal leaves the login alone and is said; an answer that
/// cannot be read, or is no document, is said with the reason; and a document is put into the login
/// as a refresh is.
pub proof fn lemma_what_the_answer_decides(
    doc: Json,
    status: &str,
    text: &str,
    stamp: &str,
    body: Json,
    refused: Result<(String, OAuthTokens), String>,
    said: String,
    answered: Result<(String, OAuthTokens), String>,
    refreshed: Result<(String, OAuthTokens), String>,
    applied: Result<(Json, OAuthTokens), String>,
)
    requires
        call_ensures(refresh_answer, (doc, false, status, Ok(text), stamp), refused),
        call_ensures(refresh_failure, (status, text), said),
        call_ensures(refresh_answer, (doc, true, status, Ok(text), stamp), answered),
        call_ensures(refresh, (doc, &body, stamp), refreshed),
        call_ensures(apply_refresh, (doc, &body, stamp), applied),
    ensures
        refused matches Err(e) && e@ == said@,
        json_parsed(text@) matches Err(reason) ==> (answered matches Err(e) && e@
            == "token refresh returned invalid JSON: "@ + reason),
        json_parsed(text@) == Ok::<Tree, Seq<char>>(body.tree()) ==> (answered is Ok <==> refreshed
            is Ok) && (answered matches Ok((t, k)) ==> t@ == refreshed->Ok_0.0@ && k.access_token@
            == refreshed->Ok_0.1.access_token@ && k.account_id@ == refreshed->Ok_0.1.account_id@)
            && (answered matches Err(e) ==> e@ == refreshed->Err_0@),
        refreshed is Ok <==> applied is Ok,
        refreshed matches Ok((t, k)) ==> t@ == json_written_pretty(applied->Ok_0.0.tree())
            && k.access_token@ == applied->Ok_0.1.access_token@ && k.account_id@
            == applied->Ok_0.1.account_id@,
        refreshed matches Err(e) ==> e@ == applied->Err_0@,
{
}

/// An answer whose text could not be read is said with the reason where it was a success, and
/// without anything quoted where it was a refusal.
pub proof fn lemma_an_answer_that_cannot_be_read(
    doc: Json,
    status: &str,
    reason: &str,
    stamp: &str,
    refused: Result<(String, OAuthTokens), String>,
    lost: Result<(String, OAuthTokens), String>,
)
    requires
        call_ensures(refresh_answer, (doc, false, status, Err(reason), stamp), refused),
        call_ensures(refresh_answer, (doc, true, status, Err(reason), stamp), lost),
    ensures
        refused matches Err(e) && e@ == "token refresh failed ("@ + status@ + "): "@
            + " — run `codex login`"@,
        lost matches Err(e) && e@ == "token refresh returned invalid JSON: "@ + reason@,
{
    let front = "token refresh failed ("@ + status@ + "): "@;
    assert(front + Seq::<char>::empty() =~= front);
}

/// A refreshed login that is written reads back as it was, tokens and all, where it holds whole
/// numbers only and is not nested without end.
pub proof fn lemma_a_refreshed_login_reads_back(
    doc: Json,
    body: Json,
    stamp: &str,
    r: Result<(String, OAuthTokens), String>,
    applied: Result<(Json, OAuthTokens), String>,
)
    requires
        call_ensures(refresh, (doc, &body, stamp), r),
        call_ensures(apply_refresh, (doc, &body, stamp), applied),
        r is Ok,
        reads_back(applied->Ok_0.0.tree(), 127),
    ensures
        json_read(r->Ok_0.0@) == Some(applied->Ok_0.0.tree()),
{
}

/// A refresh is stamped with its time as that is written, and with nothing where it cannot be.
pub proof fn lemma_how_a_refresh_is_stamped(nanos: i128, r: String)
    requires
        call_ensures(refresh_stamp, (nanos,), r),
    ensures
        rfc3339(nanos) matches Some(s) ==> r@ == s,
        rfc3339(nanos) is None ==> r@.len() == 0,
{
}

} // verus!
