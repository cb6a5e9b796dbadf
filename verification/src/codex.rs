//! A session of `codex app-server`: where the program is, how it is started, the handshake, and
//! what its notifications become.

use vstd::prelude::*;

use crate::auth::or_empty;
use crate::error::{Fault, RpcError};
use crate::json::{bare, member, member_of, text_in, text_member};
use crate::json::{Json, Tree};
use crate::jsonrpc::Notification;
use crate::text;

verus! {

#[derive(Debug, Clone, PartialEq, Eq)]
pub struct ConnectInfo {
    pub thread_id: String,
    pub user_agent: String,
    pub auth_mode: String,
}

/// The program where none is named and none is installed.
pub const DEFAULT_CODEX: &'static str = "codex";

/// What the program is started with.
pub const APP_SERVER_ARGS: [&'static str; 9] = [
    "app-server",
    "--listen",
    "stdio://",
    "--enable",
    "realtime_conversation",
    "-c",
    "suppress_unstable_features_warning=true",
    "-c",
    "experimental_realtime_webrtc_call_base_url=\"https://api.openai.com/v1\"",
];

/// Where the program is installed under a Windows profile.
pub fn profile_candidate(profile: &str) -> (r: String)
    ensures
        r@ == profile@ + "\\.codex\\packages\\standalone\\current\\bin\\codex.exe"@,
{
    text::join(profile, "\\.codex\\packages\\standalone\\current\\bin\\codex.exe")
}

/// Where the program is installed under a home directory.
pub fn home_candidate(home: &str) -> (r: String)
    ensures
        r@ == home@ + "/.codex/packages/standalone/current/bin/codex"@,
{
    text::join(home, "/.codex/packages/standalone/current/bin/codex")
}

/// The program to start: the one that is named, else the one installed under the profile, else
/// the one installed under the home directory, else whatever is found. Of each candidate the
/// caller says whether it exists.
pub fn resolve_codex_bin(
    named: Option<&str>,
    profile: Option<&str>,
    profile_exists: bool,
    home: Option<&str>,
    home_exists: bool,
) -> (r: String)
    ensures
        r@ == (match (named, profile, home) {
            (Some(p), _, _) => p@,
            (None, Some(p), _) if profile_exists => p@
                + "\\.codex\\packages\\standalone\\current\\bin\\codex.exe"@,
            (None, _, Some(h)) if home_exists => h@
                + "/.codex/packages/standalone/current/bin/codex"@,
            _ => DEFAULT_CODEX@,
        }),
{
    if let Some(p) = named {
        return text::copy(p);
    }
    if let Some(p) = profile {
        if profile_exists {
            return profile_candidate(p);
        }
    }
    if let Some(h) = home {
        if home_exists {
            return home_candidate(h);
        }
    }
    text::copy(DEFAULT_CODEX)
}

/// A request: its method and its parameters.
#[derive(Debug)]
pub struct Call {
    pub method: &'static str,
    pub params: Json,
}

/// What the client says of itself.
pub open spec fn initialize_tree(version: Seq<char>) -> Tree {
    bare().plus(
        "clientInfo"@,
        bare().plus("name"@, Tree::Text("codex_mic"@)).plus("title"@, Tree::Text("Codex Mic"@)).plus(
            "version"@,
            Tree::Text(version),
        ),
    ).plus("capabilities"@, bare().plus("experimentalApi"@, Tree::Bool(true)))
}

/// The handshake that opens a session.
#[derive(Debug)]
pub struct Handshake {
    pub user_agent: String,
}

impl Handshake {
    /// The first request of the handshake.
    pub fn begin(version: &str) -> (r: (Handshake, Call))
        ensures
            r.0.user_agent@.len() == 0,
            r.1.method@ == "initialize"@,
            r.1.params.tree() == initialize_tree(version@),
    {
        let client = Json::object().with("name", Json::text("codex_mic")).with(
            "title",
            Json::text("Codex Mic"),
        ).with("version", Json::text(version));
        let params = Json::object().with("clientInfo", client).with(
            "capabilities",
            Json::object().with("experimentalApi", Json::Bool(true)),
        );
        (Handshake { user_agent: String::new() }, Call { method: "initialize", params })
    }

    /// Takes the answer to the first request. The result is a notification to send, and the
    /// request to make after it.
    pub fn on_initialized(&mut self, answer: &Json) -> (r: (Call, Call))
        ensures
            final(self).user_agent@ == or_empty(text_member(answer.tree(), "userAgent"@)),
            r.0.method@ == "initialized"@,
            r.0.params.tree() == bare(),
            r.1.method@ == "thread/start"@,
            r.1.params.tree() == bare().plus("ephemeral"@, Tree::Bool(true)),
    {
        self.user_agent = match answer.get_str("userAgent") {
            Some(s) => text::copy(s),
            None => String::new(),
        };
        (
            Call { method: "initialized", params: Json::object() },
            Call {
                method: "thread/start",
                params: Json::object().with("ephemeral", Json::Bool(true)),
            },
        )
    }

    /// Takes the answer to the second request, which ends the handshake.
    pub fn on_thread(self, answer: &Json) -> (r: Result<(CodexSession, ConnectInfo), RpcError>)
        ensures
            match text_in(member_of(answer.tree(), "thread"@, "id"@)) {
                Some(id) => r matches Ok((s, i)) && s.thread_id@ == id && i.thread_id@ == id
                    && i.user_agent@ == self.user_agent@ && i.auth_mode@ == "chatgpt"@,
                None => r matches Err(e) && e@ == Fault::Spawn(
                    "thread/start returned no thread.id"@,
                ),
            },
    {
        match answer.get_str_in("thread", "id") {
            Some(id) => Ok(
                (
                    CodexSession { thread_id: text::copy(id) },
                    ConnectInfo {
                        thread_id: text::copy(id),
                        user_agent: self.user_agent,
                        auth_mode: text::copy("chatgpt"),
                    },
                ),
            ),
            None => Err(RpcError::Spawn(text::copy("thread/start returned no thread.id"))),
        }
    }
}

/// A session with its thread.
#[derive(Debug, Clone)]
pub struct CodexSession {
    pub thread_id: String,
}

impl CodexSession {
    pub fn thread_id(&self) -> (r: &str)
        ensures
            r@ == self.thread_id@,
    {
        self.thread_id.as_str()
    }

    /// The request that starts the realtime transport, with the offer of a description.
    pub fn realtime_start(&self, sdp_offer: &str) -> (r: Call)
        ensures
            r.method@ == "thread/realtime/start"@,
            r.params.tree() == bare().plus("threadId"@, Tree::Text(self.thread_id@)).plus(
                "outputModality"@,
                Tree::Text("text"@),
            ).plus(
                "transport"@,
                bare().plus("type"@, Tree::Text("webrtc"@)).plus("sdp"@, Tree::Text(sdp_offer@)),
            ).plus("clientManagedHandoffs"@, Tree::Bool(true)),
    {
        let transport = Json::object().with("type", Json::text("webrtc")).with(
            "sdp",
            Json::text(sdp_offer),
        );
        let params = Json::object().with("threadId", Json::text(self.thread_id.as_str())).with(
            "outputModality",
            Json::text("text"),
        ).with("transport", transport).with("clientManagedHandoffs", Json::Bool(true));
        Call { method: "thread/realtime/start", params }
    }

    /// The request that stops the realtime transport.
    pub fn realtime_stop(&self) -> (r: Call)
        ensures
            r.method@ == "thread/realtime/stop"@,
            r.params.tree() == bare().plus("threadId"@, Tree::Text(self.thread_id@)),
    {
        Call {
            method: "thread/realtime/stop",
            params: Json::object().with("threadId", Json::text(self.thread_id.as_str())),
        }
    }
}

/// The event of the user interface that a notification is, if it is one.
pub open spec fn event_of(method: Seq<char>) -> Option<Seq<char>> {
    if method == "thread/realtime/started"@ {
        Some("realtime://started"@)
    } else if method == "thread/realtime/transcript/delta"@ {
        Some("realtime://transcript-delta"@)
    } else if method == "thread/realtime/transcript/done"@ {
        Some("realtime://transcript-done"@)
    } else if method == "thread/realtime/error"@ {
        Some("realtime://error"@)
    } else if method == "thread/realtime/closed"@ {
        Some("realtime://closed"@)
    } else if method == "warning"@ {
        Some("codex://warning"@)
    } else {
        None
    }
}

/// The event of the user interface that a notification is, if it is one.
pub fn map_event(method: &str) -> (r: Option<&'static str>)
    ensures
        (match r {
            Some(s) => Some(s@),
            None => None,
        }) == event_of(method@),
{
    if text::same(method, "thread/realtime/started") {
        Some("realtime://started")
    } else if text::same(method, "thread/realtime/transcript/delta") {
        Some("realtime://transcript-delta")
    } else if text::same(method, "thread/realtime/transcript/done") {
        Some("realtime://transcript-done")
    } else if text::same(method, "thread/realtime/error") {
        Some("realtime://error")
    } else if text::same(method, "thread/realtime/closed") {
        Some("realtime://closed")
    } else if text::same(method, "warning") {
        Some("codex://warning")
    } else {
        None
    }
}

/// What the user interface is told of a notification: the event that it is, where it is one, and
/// always the notification as it came.
pub fn forward(n: &Notification) -> (r: (Option<(&'static str, Json)>, (&'static str, Json)))
    ensures
        match r.0 {
            Some((name, payload)) => event_of(n.method@) == Some(name@) && payload.tree()
                == n.params.tree(),
            None => event_of(n.method@) is None,
        },
        r.1.0@ == "codex://notification"@,
        r.1.1.tree() == bare().plus("method"@, Tree::Text(n.method@)).plus(
            "params"@,
            n.params.tree(),
        ),
{
    let event = match map_event(n.method.as_str()) {
        Some(name) => Some((name, n.params.copy())),
        None => None,
    };
    let whole = Json::object().with("method", Json::text(n.method.as_str())).with(
        "params",
        n.params.copy(),
    );
    (event, ("codex://notification", whole))
}

/// The program that is started: one that is named comes first, then one that is installed under the
/// profile, then one under the home directory. One that does not exist is never picked.
pub proof fn lemma_which_program_is_started(
    named: Option<&str>,
    profile: Option<&str>,
    profile_exists: bool,
    home: Option<&str>,
    home_exists: bool,
    r: String,
    under_profile: String,
    under_home: String,
)
    requires
        call_ensures(
            resolve_codex_bin,
            (named, profile, profile_exists, home, home_exists),
            r,
        ),
        profile matches Some(p) ==> call_ensures(profile_candidate, (p,), under_profile),
        home matches Some(h) ==> call_ensures(home_candidate, (h,), under_home),
    ensures
        named matches Some(n) ==> r@ == n@,
        named is None && profile is Some && profile_exists ==> r@ == under_profile@,
        named is None && !(profile is Some && profile_exists) && home is Some && home_exists ==> r@
            == under_home@,
        named is None && !(profile is Some && profile_exists) && !(home is Some && home_exists)
            ==> r@ == "codex"@,
        profile matches Some(p) ==> under_profile@ == p@
            + "\\.codex\\packages\\standalone\\current\\bin\\codex.exe"@,
        home matches Some(h) ==> under_home@ == h@
            + "/.codex/packages/standalone/current/bin/codex"@,
{
}

/// A handshake introduces the client, then says that it is initialized and starts a thread, and ends
/// with the thread that the server names: without one there is no session. The session speaks of
/// that thread, and is reported with it and with what the server calls itself.
pub proof fn lemma_how_a_session_is_opened(
    h: &mut Handshake,
    opened: Handshake,
    greeting: Json,
    answer: Json,
    calls: (Call, Call),
    r: Result<(CodexSession, ConnectInfo), RpcError>,
)
    requires
        call_ensures(Handshake::on_initialized, (h, &greeting), calls),
        opened == *final(h),
        call_ensures(Handshake::on_thread, (opened, &answer), r),
    ensures
        calls.0.method@ == "initialized"@ && calls.1.method@ == "thread/start"@,
        member(calls.1.params.tree(), "ephemeral"@) == Some(Tree::Bool(true)),
        r is Ok <==> (member_of(answer.tree(), "thread"@, "id"@) matches Some(t) && t is Text),
        r matches Ok((session, info)) ==> member_of(answer.tree(), "thread"@, "id"@) == Some(
            Tree::Text(session.thread_id@),
        ) && info.thread_id@ == session.thread_id@ && info.auth_mode@ == "chatgpt"@
            && info.user_agent@ == (match member(greeting.tree(), "userAgent"@) {
            Some(Tree::Text(a)) => a,
            _ => Seq::empty(),
        }),
        r matches Err(e) ==> e@ == Fault::Spawn("thread/start returned no thread.id"@),
{
}

/// The client says who it is, of which version, and that it takes part in what is not stable yet.
pub proof fn lemma_how_the_client_introduces_itself(version: &str, r: (Handshake, Call))
    requires
        call_ensures(Handshake::begin, (version,), r),
    ensures
        r.1.method@ == "initialize"@,
        member_of(r.1.params.tree(), "clientInfo"@, "name"@) == Some(Tree::Text("codex_mic"@)),
        member_of(r.1.params.tree(), "clientInfo"@, "title"@) == Some(Tree::Text("Codex Mic"@)),
        member_of(r.1.params.tree(), "clientInfo"@, "version"@) == Some(Tree::Text(version@)),
        member_of(r.1.params.tree(), "capabilities"@, "experimentalApi"@) == Some(
            Tree::Bool(true),
        ),
{
    reveal_strlit("clientInfo");
    reveal_strlit("capabilities");
    reveal_strlit("name");
    reveal_strlit("title");
    reveal_strlit("version");
    assert("clientInfo"@.len() == 10 && "capabilities"@.len() == 12 && "name"@.len() == 4
        && "title"@.len() == 5 && "version"@.len() == 7);
}

/// The transport is started and stopped for the session's own thread, and started with the offer as
/// it is, for text.
pub proof fn lemma_the_transport_is_for_the_thread(
    session: CodexSession,
    offer: &str,
    start: Call,
    stop: Call,
)
    requires
        call_ensures(CodexSession::realtime_start, (&session, offer), start),
        call_ensures(CodexSession::realtime_stop, (&session,), stop),
    ensures
        start.method@ == "thread/realtime/start"@ && stop.method@ == "thread/realtime/stop"@,
        member(start.params.tree(), "threadId"@) == Some(Tree::Text(session.thread_id@)),
        member(stop.params.tree(), "threadId"@) == Some(Tree::Text(session.thread_id@)),
        member(start.params.tree(), "outputModality"@) == Some(Tree::Text("text"@)),
        member_of(start.params.tree(), "transport"@, "sdp"@) == Some(Tree::Text(offer@)),
        member_of(start.params.tree(), "transport"@, "type"@) == Some(Tree::Text("webrtc"@)),
        member(start.params.tree(), "clientManagedHandoffs"@) == Some(Tree::Bool(true)),
{
    reveal_strlit("threadId");
    reveal_strlit("outputModality");
    reveal_strlit("transport");
    reveal_strlit("clientManagedHandoffs");
    reveal_strlit("type");
    reveal_strlit("sdp");
    assert("threadId"@.len() == 8 && "outputModality"@.len() == 14 && "transport"@.len() == 9
        && "clientManagedHandoffs"@.len() == 21 && "type"@.len() == 4 && "sdp"@.len() == 3);
}

/// The user interface is told of every notification as it came, and besides of those that are events
/// to it, under the event's name and with the same parameters: the six that are, and no other.
pub proof fn lemma_what_the_user_interface_is_told(
    n: Notification,
    r: (Option<(&'static str, Json)>, (&'static str, Json)),
)
    requires
        call_ensures(forward, (&n,), r),
    ensures
        r.1.0@ == "codex://notification"@,
        member(r.1.1.tree(), "method"@) == Some(Tree::Text(n.method@)),
        member(r.1.1.tree(), "params"@) == Some(n.params.tree()),
        r.0 matches Some((_, payload)) ==> payload.tree() == n.params.tree(),
        r.0 is Some <==> n.method@ == "thread/realtime/started"@ || n.method@
            == "thread/realtime/transcript/delta"@ || n.method@ == "thread/realtime/transcript/done"@
            || n.method@ == "thread/realtime/error"@ || n.method@ == "thread/realtime/closed"@
            || n.method@ == "warning"@,
        r.0 matches Some((name, _)) ==> (n.method@ == "thread/realtime/started"@ ==> name@
            == "realtime://started"@) && (n.method@ == "thread/realtime/transcript/delta"@ ==> name@
            == "realtime://transcript-delta"@) && (n.method@ == "thread/realtime/transcript/done"@
            ==> name@ == "realtime://transcript-done"@) && (n.method@ == "thread/realtime/error"@
            ==> name@ == "realtime://error"@) && (n.method@ == "thread/realtime/closed"@ ==> name@
            == "realtime://closed"@) && (n.method@ == "warning"@ ==> name@ == "codex://warning"@),
{
    reveal_strlit("method");
    reveal_strlit("params");
    assert("method"@[0] == 'm' && "params"@[0] == 'p');
    reveal_strlit("thread/realtime/started");
    reveal_strlit("thread/realtime/transcript/delta");
    reveal_strlit("thread/realtime/transcript/done");
    reveal_strlit("thread/realtime/error");
    reveal_strlit("thread/realtime/closed");
    reveal_strlit("warning");
    assert("thread/realtime/started"@.len() == 23 && "thread/realtime/transcript/delta"@.len() == 32
        && "thread/realtime/transcript/done"@.len() == 31 && "thread/realtime/error"@.len() == 21
        && "thread/realtime/closed"@.len() == 22 && "warning"@.len() == 7);
}

} // verus!
