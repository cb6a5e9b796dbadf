//! The line protocol of `codex app-server`: requests, notifications and answers, each one line
//! of JSON, without a `jsonrpc` member.

use vstd::prelude::*;

use crate::auth::or_empty;
use crate::error::{Fault, RpcError};
use crate::json::{bare, int_in, json_read, json_written, member, text_member};
use crate::json::{Json, Tree};
use crate::text;
use crate::text::{decimal, digits, trimmed};

verus! {

pub type Id = i64;

/// How long an answer may take, in milliseconds.
pub const REQUEST_TIMEOUT: u64 = 90_000;

#[derive(Debug, Clone)]
pub struct Request {
    pub method: String,
    pub id: Id,
    pub params: Json,
}

#[derive(Debug, Clone)]
pub struct Notification {
    pub method: String,
    pub params: Json,
}

#[derive(Debug, Clone)]
pub struct ErrorObject {
    pub code: i64,
    pub message: String,
    pub data: Option<Json>,
}

#[derive(Debug, Clone)]
pub enum Incoming {
    Response { id: Id, result: Option<Json>, error: Option<ErrorObject> },
    Notification { method: String, params: Json },
    ServerRequest { id: Id, method: String, params: Json },
}

// ---------------------------------------------------------------------------------------------
// What is written
// ---------------------------------------------------------------------------------------------

/// The line of a request.
pub open spec fn request_line(method: Seq<char>, id: Id, params: Tree) -> Seq<char> {
    "{\"method\":"@ + json_written(Tree::Text(method)) + ",\"id\":"@ + decimal(id as int)
        + ",\"params\":"@ + json_written(params) + "}"@
}

/// The line of a notification.
pub open spec fn notification_line(method: Seq<char>, params: Tree) -> Seq<char> {
    "{\"method\":"@ + json_written(Tree::Text(method)) + ",\"params\":"@ + json_written(params)
        + "}"@
}

/// The text is one line.
pub open spec fn one_line(s: Seq<char>) -> bool {
    forall|i: int| 0 <= i < s.len() ==> #[trigger] s[i] != '\n'
}

proof fn lemma_digits_are_one_line(n: nat)
    ensures
        one_line(digits(n)),
    decreases n,
{
    if n >= 10 {
        lemma_digits_are_one_line(n / 10);
    }
}

proof fn lemma_decimal_is_one_line(n: int)
    ensures
        one_line(decimal(n)),
{
    lemma_digits_are_one_line(
        if n < 0 {
            -n
        } else {
            n
        } as nat,
    );
}

proof fn lemma_not_contained(s: Seq<char>)
    requires
        !s.contains('\n'),
    ensures
        one_line(s),
{
    assert forall|i: int| 0 <= i < s.len() implies #[trigger] s[i] != '\n' by {
        if s[i] == '\n' {
            assert(s.contains('\n'));
        }
    }
}

fn push_json(out: &mut String, j: &Json)
    requires
        one_line(old(out)@),
    ensures
        final(out)@ == old(out)@ + json_written(j.tree()),
        one_line(final(out)@),
{
    let s = j.write();
    proof {
        lemma_not_contained(s@);
    }
    out.append(s.as_str());
}

impl Request {
    /// The line of the request: a method, a number and parameters, in that order.
    pub fn line(&self) -> (r: String)
        ensures
            r@ == request_line(self.method@, self.id, self.params.tree()),
            one_line(r@),
    {
        proof {
            reveal_strlit("{\"method\":");
            reveal_strlit(",\"id\":");
            reveal_strlit(",\"params\":");
            reveal_strlit("}");
            lemma_decimal_is_one_line(self.id as int);
        }
        let mut out = text::copy("{\"method\":");
        push_json(&mut out, &Json::text(self.method.as_str()));
        out.append(",\"id\":");
        out.append(text::write_i64(self.id).as_str());
        out.append(",\"params\":");
        push_json(&mut out, &self.params);
        out.append("}");
        out
    }
}

impl Notification {
    /// The line of the notification. It has no number.
    pub fn line(&self) -> (r: String)
        ensures
            r@ == notification_line(self.method@, self.params.tree()),
            one_line(r@),
    {
        proof {
            reveal_strlit("{\"method\":");
            reveal_strlit(",\"params\":");
            reveal_strlit("}");
        }
        let mut out = text::copy("{\"method\":");
        push_json(&mut out, &Json::text(self.method.as_str()));
        out.append(",\"params\":");
        push_json(&mut out, &self.params);
        out.append("}");
        out
    }
}

// ---------------------------------------------------------------------------------------------
// What is read
// ---------------------------------------------------------------------------------------------

/// [`Incoming`] with its texts as sequences of characters.
pub enum Message {
    Response { id: Id, result: Option<Tree>, error: Option<Failure> },
    Notification { method: Seq<char>, params: Tree },
    ServerRequest { id: Id, method: Seq<char>, params: Tree },
}

/// [`ErrorObject`] with its texts as sequences of characters.
pub struct Failure {
    pub code: i64,
    pub message: Seq<char>,
    pub data: Option<Tree>,
}

pub open spec fn tree_of(j: Option<Json>) -> Option<Tree> {
    match j {
        Some(j) => Some(j.tree()),
        None => None,
    }
}

impl View for ErrorObject {
    type V = Failure;

    open spec fn view(&self) -> Failure {
        Failure { code: self.code, message: self.message@, data: tree_of(self.data) }
    }
}

impl View for Incoming {
    type V = Message;

    open spec fn view(&self) -> Message {
        match self {
            Incoming::Response { id, result, error } => Message::Response {
                id: *id,
                result: tree_of(*result),
                error: match error {
                    Some(e) => Some(e@),
                    None => None,
                },
            },
            Incoming::Notification { method, params } => Message::Notification {
                method: method@,
                params: params.tree(),
            },
            Incoming::ServerRequest { id, method, params } => Message::ServerRequest {
                id: *id,
                method: method@,
                params: params.tree(),
            },
        }
    }
}

/// The number of a message, where it has one.
pub open spec fn id_in(t: Tree) -> Option<Id> {
    match int_in(member(t, "id"@), i64::MIN as int, i64::MAX as int) {
        Some(n) => Some(n as i64),
        None => None,
    }
}

/// What an error member says. Whatever is missing is zero or empty.
pub open spec fn failure_in(t: Tree) -> Failure {
    Failure {
        code: match int_in(member(t, "code"@), i64::MIN as int, i64::MAX as int) {
            Some(n) => n as i64,
            None => 0,
        },
        message: or_empty(text_member(t, "message"@)),
        data: member(t, "data"@),
    }
}

/// What a document is as a message: an answer has a number and a result or an error; of the
/// others, a request has a number and a notification has none.
pub open spec fn classified(t: Tree) -> Option<Message> {
    let result = member(t, "result"@);
    let error = member(t, "error"@);
    match (id_in(t), text_member(t, "method"@)) {
        (Some(id), _) if result is Some || error is Some => Some(
            Message::Response {
                id,
                result,
                error: match error {
                    Some(e) => Some(failure_in(e)),
                    None => None,
                },
            },
        ),
        (id, Some(method)) => {
            let params = match member(t, "params"@) {
                Some(p) => p,
                None => Tree::Null,
            };
            match id {
                Some(id) => Some(Message::ServerRequest { id, method, params }),
                None => Some(Message::Notification { method, params }),
            }
        },
        (_, None) => None,
    }
}

fn get_i64(j: &Json, key: &str) -> (r: Option<i64>)
    ensures
        r is Some <==> int_in(member(j.tree(), key@), i64::MIN as int, i64::MAX as int) is Some,
        r matches Some(n) ==> int_in(member(j.tree(), key@), i64::MIN as int, i64::MAX as int)
            == Some(n as int),
{
    match j.get(key) {
        Some(n) => n.as_i64(),
        None => None,
    }
}

fn get_copy(j: &Json, key: &str) -> (r: Option<Json>)
    ensures
        tree_of(r) == member(j.tree(), key@),
{
    match j.get(key) {
        Some(m) => Some(m.copy()),
        None => None,
    }
}

fn read_error(e: &Json) -> (r: ErrorObject)
    ensures
        r@ == failure_in(e.tree()),
{
    let code: i64 = match get_i64(e, "code") {
        Some(n) => n,
        None => 0,
    };
    let message = match e.get_str("message") {
        Some(m) => text::copy(m),
        None => String::new(),
    };
    ErrorObject { code, message, data: get_copy(e, "data") }
}

/// Tells what kind of message a document is.
pub fn parse_incoming(value: &Json) -> (r: Option<Incoming>)
    ensures
        (match r {
            Some(m) => Some(m@),
            None => None,
        }) == classified(value.tree()),
{
    let id = get_i64(value, "id");
    let result = get_copy(value, "result");
    let error = value.get("error");
    if let Some(id) = id {
        if result.is_some() || error.is_some() {
            let error = match error {
                Some(e) => Some(read_error(e)),
                None => None,
            };
            return Some(Incoming::Response { id, result, error });
        }
    }
    let method = match value.get_str("method") {
        Some(m) => text::copy(m),
        None => return None,
    };
    let params = match get_copy(value, "params") {
        Some(p) => p,
        None => Json::Null,
    };
    match id {
        Some(id) => Some(Incoming::ServerRequest { id, method, params }),
        None => Some(Incoming::Notification { method, params }),
    }
}

// ---------------------------------------------------------------------------------------------
// The client
// ---------------------------------------------------------------------------------------------

/// The requests that wait for an answer.
#[derive(Debug)]
pub struct Client {
    next_id: Id,
    pending: Vec<Id>,
}

/// What is to be done about a line from the server.
#[derive(Debug)]
pub enum LineAction {
    Nothing,
    /// The request has its answer.
    Answer { id: Id, result: Result<Json, RpcError> },
    /// Write the line back, and pass the notification on.
    Reply { line: String, notification: Notification },
    /// Pass the notification on.
    Notify(Notification),
}

/// What is done about a message.
pub enum Effect {
    Nothing,
    Answer { id: Id, result: Answer },
    Reply { line: Seq<char>, method: Seq<char>, params: Tree },
    Notify { method: Seq<char>, params: Tree },
}

/// The answer to a request.
pub enum Answer {
    Value(Tree),
    Error(Fault),
}

impl View for LineAction {
    type V = Effect;

    open spec fn view(&self) -> Effect {
        match self {
            LineAction::Nothing => Effect::Nothing,
            LineAction::Answer { id, result } => Effect::Answer {
                id: *id,
                result: match result {
                    Ok(j) => Answer::Value(j.tree()),
                    Err(e) => Answer::Error(e@),
                },
            },
            LineAction::Reply { line, notification } => Effect::Reply {
                line: line@,
                method: notification.method@,
                params: notification.params.tree(),
            },
            LineAction::Notify(n) => Effect::Notify {
                method: n.method@,
                params: n.params.tree(),
            },
        }
    }
}

/// The answer that an error or a result is. A result that is missing is null.
pub open spec fn answer_of(result: Option<Tree>, error: Option<Failure>) -> Answer {
    match error {
        Some(e) => Answer::Error(
            Fault::Server { code: e.code, message: e.message, data: e.data },
        ),
        None => Answer::Value(
            match result {
                Some(t) => t,
                None => Tree::Null,
            },
        ),
    }
}

/// The empty answer to a request of the server.
pub open spec fn empty_answer(id: Id) -> Tree {
    bare().plus("id"@, Tree::Int(id as int)).plus("result"@, bare())
}

/// What is done about a message, given the requests that wait.
pub open spec fn effect_of(pending: Seq<Id>, m: Option<Message>) -> Effect {
    match m {
        Some(Message::Response { id, result, error }) => if pending.contains(id) {
            Effect::Answer { id, result: answer_of(result, error) }
        } else {
            Effect::Nothing
        },
        Some(Message::ServerRequest { id, method, params }) => Effect::Reply {
            line: json_written(empty_answer(id)),
            method,
            params,
        },
        Some(Message::Notification { method, params }) => Effect::Notify { method, params },
        None => Effect::Nothing,
    }
}

/// The message in a line.
pub open spec fn message_in(line: Seq<char>) -> Option<Message> {
    match json_read(trimmed(line)) {
        Some(t) => classified(t),
        None => None,
    }
}

impl Client {
    /// The number of the next request.
    pub closed spec fn next_id(self) -> Id {
        self.next_id
    }

    /// The requests that wait for an answer.
    pub closed spec fn pending(self) -> Seq<Id> {
        self.pending@
    }

    /// No request waits twice.
    pub open spec fn wf(self) -> bool {
        self.pending().no_duplicates()
    }

    /// The request waits for an answer.
    pub open spec fn waits(self, id: Id) -> bool {
        self.pending().contains(id)
    }

    /// Nothing waits, and the first number is 1.
    pub fn new() -> (r: Client)
        ensures
            r.wf(),
            r.next_id() == 1,
            r.pending().len() == 0,
    {
        Client { next_id: 1, pending: Vec::new() }
    }

    fn position(&self, id: Id) -> (r: Option<usize>)
        ensures
            r matches Some(i) ==> i < self.pending@.len() && self.pending@[i as int] == id && (
            forall|j: int| 0 <= j < i ==> self.pending@[j] != id),
            r is None ==> !self.waits(id),
    {
        for i in 0..self.pending.len()
            invariant
                forall|j: int| 0 <= j < i ==> self.pending@[j] != id,
        {
            if self.pending[i] == id {
                return Some(i);
            }
        }
        None
    }

    /// Takes a request out of those that wait. The result says whether it was among them.
    pub fn remove(&mut self, id: Id) -> (r: bool)
        requires
            old(self).wf(),
        ensures
            final(self).wf(),
            r == old(self).waits(id),
            !final(self).waits(id),
            forall|other: Id|
                #![trigger old(self).waits(other)]
                #![trigger final(self).waits(other)]
                other != id ==> final(self).waits(other) == old(self).waits(other),
            final(self).next_id() == old(self).next_id(),
    {
        match self.position(id) {
            Some(i) => {
                let ghost before = self.pending@;
                self.pending.remove(i);
                let ghost after = self.pending@;
                proof {
                    assert(after =~= before.remove(i as int));
                    assert forall|other: Id| other != id implies after.contains(other)
                        == #[trigger] before.contains(other) by {
                        if before.contains(other) {
                            let k = choose|k: int| 0 <= k < before.len() && before[k] == other;
                            let m = if k < i {
                                k
                            } else {
                                k - 1
                            };
                            assert(after[m] == other);
                        }
                        if after.contains(other) {
                            let k = choose|k: int| 0 <= k < after.len() && after[k] == other;
                            let m = if k < i {
                                k
                            } else {
                                k + 1
                            };
                            assert(before[m] == other);
                        }
                    }
                    if after.contains(id) {
                        let k = choose|k: int| 0 <= k < after.len() && after[k] == id;
                        let m = if k < i {
                            k
                        } else {
                            k + 1
                        };
                        assert(before[m] == before[i as int]);
                    }
                }
                true
            },
            None => false,
        }
    }

    /// A new request, which waits from now on. The result is its number and its line.
    pub fn request(&mut self, method: &str, params: Json) -> (r: (Id, String))
        requires
            old(self).wf(),
        ensures
            final(self).wf(),
            r.0 == old(self).next_id(),
            r.1@ == request_line(method@, r.0, params.tree()),
            one_line(r.1@),
            final(self).next_id() == vstd::wrapping::i64_specs::wrapping_add(
                old(self).next_id(),
                1,
            ),
            final(self).waits(r.0),
            forall|other: Id|
                #![trigger old(self).waits(other)]
                #![trigger final(self).waits(other)]
                other != r.0 ==> final(self).waits(other) == old(self).waits(other),
    {
        let id: i64 = self.next_id;
        self.next_id = self.next_id.wrapping_add(1);
        if self.position(id).is_none() {
            let ghost before = self.pending@;
            self.pending.push(id);
            proof {
                let after = self.pending@;
                assert(after[before.len() as int] == id);
                assert forall|other: Id| other != id implies after.contains(other)
                    == #[trigger] before.contains(other) by {
                    if before.contains(other) {
                        let k = choose|k: int| 0 <= k < before.len() && before[k] == other;
                        assert(after[k] == other);
                    }
                }
            }
        }
        let line = Request { method: text::copy(method), id, params }.line();
        (id, line)
    }

    /// The line of a notification.
    pub fn notify(&self, method: &str, params: Json) -> (r: String)
        ensures
            r@ == notification_line(method@, params.tree()),
            one_line(r@),
    {
        Notification { method: text::copy(method), params }.line()
    }

    /// What a request comes to whose answer can no longer come. It no longer waits.
    pub fn request_dropped(&mut self, id: Id, method: &str) -> (r: RpcError)
        requires
            old(self).wf(),
        ensures
            final(self).wf(),
            !final(self).waits(id),
            forall|other: Id|
                #![trigger old(self).waits(other)]
                #![trigger final(self).waits(other)]
                other != id ==> final(self).waits(other) == old(self).waits(other),
            final(self).next_id() == old(self).next_id(),
            r@ == Fault::Disconnected("request "@ + method@ + " dropped"@),
    {
        self.remove(id);
        let mut out = text::join("request ", method);
        out.append(" dropped");
        RpcError::Disconnected(out)
    }

    /// What a request comes to whose answer took too long. It no longer waits.
    pub fn request_timed_out(&mut self, id: Id) -> (r: RpcError)
        requires
            old(self).wf(),
        ensures
            final(self).wf(),
            !final(self).waits(id),
            forall|other: Id|
                #![trigger old(self).waits(other)]
                #![trigger final(self).waits(other)]
                other != id ==> final(self).waits(other) == old(self).waits(other),
            final(self).next_id() == old(self).next_id(),
            r@ == Fault::Timeout(REQUEST_TIMEOUT),
    {
        self.remove(id);
        RpcError::Timeout(REQUEST_TIMEOUT)
    }

    /// What is done about a message. A request whose answer this is waits no longer.
    pub fn dispatch(&mut self, message: Option<Incoming>) -> (r: LineAction)
        requires
            old(self).wf(),
        ensures
            final(self).wf(),
            r@ == effect_of(
                old(self).pending(),
                match message {
                    Some(m) => Some(m@),
                    None => None,
                },
            ),
            r matches LineAction::Answer { id, .. } ==> !final(self).waits(id),
            forall|other: Id|
                #![trigger old(self).waits(other)]
                #![trigger final(self).waits(other)]
                !(r@ matches Effect::Answer { id, .. } && id == other) ==> final(self).waits(other)
                    == old(self).waits(other),
            final(self).next_id() == old(self).next_id(),
            r matches LineAction::Reply { line, .. } ==> one_line(line@),
    {
        match message {
            Some(Incoming::Response { id, result, error }) => {
                if !self.remove(id) {
                    return LineAction::Nothing;
                }
                let result = match error {
                    Some(e) => Err(
                        RpcError::Server { code: e.code, message: e.message, data: e.data },
                    ),
                    None => match result {
                        Some(j) => Ok(j),
                        None => Ok(Json::Null),
                    },
                };
                LineAction::Answer { id, result }
            },
            Some(Incoming::ServerRequest { id, method, params }) => {
                let number = if id >= 0 {
                    Json::Unsigned(id as u64)
                } else {
                    Json::Signed(id)
                };
                let line = Json::object().with("id", number).with("result", Json::object()).write();
                proof {
                    lemma_not_contained(line@);
                }
                LineAction::Reply { line, notification: Notification { method, params } }
            },
            Some(Incoming::Notification { method, params }) => LineAction::Notify(
                Notification { method, params },
            ),
            None => LineAction::Nothing,
        }
    }

    /// What is done about a line of the server. One that is blank, or no JSON, or no message is
    /// passed over.
    pub fn read_line(&mut self, line: &str) -> (r: LineAction)
        requires
            old(self).wf(),
        ensures
            final(self).wf(),
            r@ == (if trimmed(line@).len() == 0 {
                Effect::Nothing
            } else {
                effect_of(old(self).pending(), message_in(line@))
            }),
            forall|other: Id|
                #![trigger old(self).waits(other)]
                #![trigger final(self).waits(other)]
                !(r@ matches Effect::Answer { id, .. } && id == other) ==> final(self).waits(other)
                    == old(self).waits(other),
            r matches LineAction::Answer { id, .. } ==> !final(self).waits(id),
            final(self).next_id() == old(self).next_id(),
            r matches LineAction::Reply { line, .. } ==> one_line(line@),
    {
        let t = text::trim(line);
        if t.unicode_len() == 0 {
            return LineAction::Nothing;
        }
        match Json::read(t) {
            Ok(value) => {
                let message = parse_incoming(&value);
                self.dispatch(message)
            },
            Err(_) => LineAction::Nothing,
        }
    }

    /// The requests that fail where the server is gone: all that wait. None waits afterwards.
    pub fn fail_all(&mut self) -> (r: Vec<Id>)
        requires
            old(self).wf(),
        ensures
            final(self).wf(),
            r@ == old(self).pending(),
            final(self).pending().len() == 0,
            final(self).next_id() == old(self).next_id(),
    {
        let mut all: Vec<Id> = Vec::new();
        std::mem::swap(&mut all, &mut self.pending);
        all
    }
}

/// Why everything failed: the server closed its output, or reading it failed for the reason given.
pub fn end_reason(read_error: Option<&str>) -> (r: String)
    ensures
        r@ == (match read_error {
            Some(e) => "read error: "@ + e@,
            None => "stdout closed"@,
        }),
{
    match read_error {
        Some(e) => text::join("read error: ", e),
        None => text::copy("stdout closed"),
    }
}

/// A request is answered at most once, and only while it waits: an answer to a request that does
/// not wait is passed over.
pub proof fn lemma_answered_once(pending: Seq<Id>, id: Id, result: Option<Tree>, error: Option<
    Failure,
>)
    requires
        !pending.contains(id),
    ensures
        effect_of(pending, Some(Message::Response { id, result, error })) == Effect::Nothing,
{
}

/// What a request of the server is answered with is an answer to that request, and an empty one.
pub proof fn lemma_reply_answers_the_request(id: Id)
    ensures
        classified(empty_answer(id)) == Some(
            Message::Response { id, result: Some(bare()), error: None },
        ),
{
    reveal_strlit("id");
    reveal_strlit("result");
    reveal_strlit("error");
    assert("id"@.len() == 2 && "result"@.len() == 6 && "error"@.len() == 5);
}

/// A document with a number and a result or an error is an answer, whatever else it holds: a
/// server cannot pass an answer off as a request.
pub proof fn lemma_answers_come_first(t: Tree)
    requires
        id_in(t) is Some,
        member(t, "result"@) is Some || member(t, "error"@) is Some,
    ensures
        classified(t) matches Some(Message::Response { id, .. }) && Some(id) == id_in(t),
{
}

/// The line of a request states its method, its number and its parameters, in that order and without
/// anything else; that of a notification is the same without the number.
pub proof fn lemma_what_a_line_states(
    client: &mut Client,
    method: &str,
    params: Json,
    r: (Id, String),
    told: String,
)
    requires
        call_ensures(Client::request, (client, method, params), r),
        call_ensures(Client::notify, (&*client, method, params), told),
    ensures
        ({
            let head = "{\"method\":"@ + json_written(Tree::Text(method@));
            let rest = ",\"params\":"@ + json_written(params.tree()) + "}"@;
            r.1@ == head + (",\"id\":"@ + decimal(r.0 as int)) + rest && told@ == head + rest
        }),
        one_line(r.1@) && one_line(told@),
{
    let head = "{\"method\":"@ + json_written(Tree::Text(method@));
    let rest = ",\"params\":"@ + json_written(params.tree()) + "}"@;
    assert(r.1@ =~= head + (",\"id\":"@ + decimal(r.0 as int)) + rest);
    assert(told@ =~= head + rest);
}

/// Requests are numbered one after another from 1, and each waits from then on, along with those
/// that wait already.
pub proof fn lemma_requests_are_numbered(
    client: Client,
    first: &mut Client,
    second: &mut Client,
    a: &str,
    b: &str,
    x: Json,
    y: Json,
    r: (Id, String),
    q: (Id, String),
)
    requires
        call_ensures(Client::new, (), client),
        *old(first) == client,
        call_ensures(Client::request, (first, a, x), r),
        *old(second) == *final(first),
        call_ensures(Client::request, (second, b, y), q),
    ensures
        r.0 == 1 && q.0 == 2,
        final(second).waits(1) && final(second).waits(2),
        forall|other: Id| other != 1 && other != 2 ==> !#[trigger] final(second).waits(other),
{
    assert forall|other: Id| other != 1 && other != 2 implies !#[trigger] final(second).waits(
        other,
    ) by {
        assert(final(second).waits(other) == old(second).waits(other));
        assert(final(first).waits(other) == old(first).waits(other));
    }
    assert(final(second).waits(1) == old(second).waits(1));
}

/// A request that waits is answered with the server's own result, or with its error where there is
/// one, and waits no longer: the same answer again is passed over. All others go on waiting.
pub proof fn lemma_a_request_is_answered_once(
    client: &mut Client,
    again: &mut Client,
    id: Id,
    result: Option<Json>,
    error: Option<ErrorObject>,
    other: Id,
    r: LineAction,
    q: LineAction,
)
    requires
        old(client).waits(id),
        call_ensures(
            Client::dispatch,
            (client, Some(Incoming::Response { id, result, error })),
            r,
        ),
        *old(again) == *final(client),
        call_ensures(Client::dispatch, (again, Some(Incoming::Response { id, result, error })), q),
    ensures
        r matches LineAction::Answer { id: answered, result: answer } && answered == id && (match (
            error,
            result,
        ) {
            (Some(e), _) => answer matches Err(f) && f@ == (Fault::Server {
                code: e.code,
                message: e.message@,
                data: tree_of(e.data),
            }),
            (None, Some(j)) => answer matches Ok(got) && got.tree() == j.tree(),
            (None, None) => answer matches Ok(got) && got.tree() == Tree::Null,
        }),
        q is Nothing,
        !final(client).waits(id),
        other != id ==> final(client).waits(other) == old(client).waits(other),
{
    let m = (Incoming::Response { id, result, error })@;
    assert(m is Response);
    assert(r@ is Answer);
    assert(r is Answer);
    assert(!old(again).waits(id));
    assert(q@ is Nothing);
    if other != id {
        assert(final(client).waits(other) == old(client).waits(other));
    }
}

/// A request of the server is passed on, and answered with its number and an empty result; a
/// notification is passed on. Neither touches the requests that wait.
pub proof fn lemma_what_the_server_asks_and_says(
    asked: &mut Client,
    told: &mut Client,
    id: Id,
    method: String,
    params: Json,
    other: Id,
    r: LineAction,
    q: LineAction,
)
    requires
        call_ensures(
            Client::dispatch,
            (asked, Some(Incoming::ServerRequest { id, method, params })),
            r,
        ),
        call_ensures(Client::dispatch, (told, Some(Incoming::Notification { method, params })), q),
    ensures
        r matches LineAction::Reply { line, notification } && notification.method@ == method@
            && notification.params.tree() == params.tree() && line@ == json_written(
            bare().plus("id"@, Tree::Int(id as int)).plus("result"@, bare()),
        ),
        q matches LineAction::Notify(n) && n.method@ == method@ && n.params.tree() == params.tree(),
        final(asked).waits(other) == old(asked).waits(other),
        final(told).waits(other) == old(told).waits(other),
{
    assert((Incoming::ServerRequest { id, method, params })@ is ServerRequest);
    assert((Incoming::Notification { method, params })@ is Notification);
    assert(r@ is Reply && r is Reply);
    assert(q@ is Notify && q is Notify);
    assert(final(asked).waits(other) == old(asked).waits(other));
    assert(final(told).waits(other) == old(told).waits(other));
}

/// What a document is as a message, by what it holds: with a number and a result or an error it is
/// an answer; else with a method it is a request of the server where it has a number and a
/// notification where it has none; else it is no message. What it holds is taken as it is, and
/// parameters that are missing are null.
pub proof fn lemma_what_a_document_is(value: Json, r: Option<Incoming>)
    requires
        call_ensures(parse_incoming, (&value,), r),
    ensures
        ({
            let t = value.tree();
            let id = match member(t, "id"@) {
                Some(Tree::Int(n)) if i64::MIN <= n <= i64::MAX => Some(n),
                _ => None,
            };
            let answers = member(t, "result"@) is Some || member(t, "error"@) is Some;
            let method = match member(t, "method"@) {
                Some(Tree::Text(m)) => Some(m),
                _ => None,
            };
            let params = match member(t, "params"@) {
                Some(p) => p,
                None => Tree::Null,
            };
            &&& (r is Some && r->Some_0 is Response) <==> id is Some && answers
            &&& (r is Some && r->Some_0 is ServerRequest) <==> id is Some && !answers && method
                is Some
            &&& (r is Some && r->Some_0 is Notification) <==> id is None && method is Some
            &&& r matches Some(Incoming::Response { id: n, result, error }) ==> Some(n as int) == id
                && tree_of(result) == member(t, "result"@) && (error is Some <==> member(
                t,
                "error"@,
            ) is Some)
            &&& r matches Some(Incoming::ServerRequest { id: n, method: m, params: p }) ==> Some(
                n as int,
            ) == id && Some(m@) == method && p.tree() == params
            &&& r matches Some(Incoming::Notification { method: m, params: p }) ==> Some(m@)
                == method && p.tree() == params
        }),
{
    if r is Some {
        let m = r->Some_0;
        assert(m@ is Response <==> m is Response);
        assert(m@ is Notification <==> m is Notification);
        assert(m@ is ServerRequest <==> m is ServerRequest);
    }
}

/// What an error says is its code, its message and its data, each as it is; a code that is missing
/// is zero and a message that is missing is empty.
pub proof fn lemma_what_an_error_says(value: Json, r: Option<Incoming>, said: Tree)
    requires
        call_ensures(parse_incoming, (&value,), r),
        member(value.tree(), "error"@) == Some(said),
        r is Some && r->Some_0 is Response,
    ensures
        r->Some_0->error matches Some(e) && e.code == (match member(said, "code"@) {
            Some(Tree::Int(n)) if i64::MIN <= n <= i64::MAX => n,
            _ => 0,
        }) && e.message@ == (match member(said, "message"@) {
            Some(Tree::Text(m)) => m,
            _ => Seq::empty(),
        }) && tree_of(e.data) == member(said, "data"@),
{
    let m = r->Some_0;
    assert(m@ is Response);
    assert(m->error is Some);
    let e = m->error->Some_0;
    assert(e@ == failure_in(said));
    assert(e@.code == e.code && e@.message == e.message@ && e@.data == tree_of(e.data));
}

/// A line is read as the message in it, without its padding; where it is blank or holds none,
/// nothing happens.
pub proof fn lemma_a_line_is_the_message_in_it(
    read: &mut Client,
    dispatched: &mut Client,
    line: &str,
    value: Json,
    message: Option<Incoming>,
    r: LineAction,
    q: LineAction,
)
    requires
        *old(read) == *old(dispatched),
        call_ensures(Client::read_line, (read, line), r),
        call_ensures(parse_incoming, (&value,), message),
        call_ensures(Client::dispatch, (dispatched, message), q),
    ensures
        trimmed(line@).len() > 0 && json_read(trimmed(line@)) == Some(value.tree()) ==> r@ == q@,
        trimmed(line@).len() == 0 || json_read(trimmed(line@)) is None ==> r is Nothing,
{
    assert(r@ is Nothing <==> r is Nothing);
}

/// Where the server is gone every request that waits fails, and no other.
pub proof fn lemma_all_that_wait_fail(client: &mut Client, r: Vec<Id>, id: Id)
    requires
        call_ensures(Client::fail_all, (client,), r),
    ensures
        r@.contains(id) <==> old(client).waits(id),
        !final(client).waits(id),
{
}

/// A request that is dropped or takes too long, which is a minute and a half, waits no longer and
/// says so; the others go on waiting.
pub proof fn lemma_a_request_that_fails(
    dropped: &mut Client,
    late: &mut Client,
    id: Id,
    other: Id,
    method: &str,
    a: RpcError,
    b: RpcError,
)
    requires
        other != id,
        call_ensures(Client::request_dropped, (dropped, id, method), a),
        call_ensures(Client::request_timed_out, (late, id), b),
    ensures
        a@ == Fault::Disconnected("request "@ + method@ + " dropped"@),
        b@ == Fault::Timeout(90_000),
        !final(dropped).waits(id) && !final(late).waits(id),
        final(dropped).waits(other) == old(dropped).waits(other),
        final(late).waits(other) == old(late).waits(other),
{
    assert(final(dropped).waits(other) == old(dropped).waits(other));
    assert(final(late).waits(other) == old(late).waits(other));
}

/// Everything fails for the reason that reading failed for, or because the server closed its output.
pub proof fn lemma_why_everything_fails(error: &str, failed: String, closed: String)
    requires
        call_ensures(end_reason, (Some(error),), failed),
        call_ensures(end_reason, (None::<&str>,), closed),
    ensures
        failed@ == "read error: "@ + error@,
        closed@ == "stdout closed"@,
{
}

} // verus!
