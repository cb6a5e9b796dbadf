//! What goes wrong with a session.

use vstd::prelude::*;

use crate::json::{Json, Tree};
use crate::text;
use crate::text::{decimal, digit, digits};

verus! {

#[derive(Debug)]
pub enum RpcError {
    Io(String),
    Json(String),
    Disconnected(String),
    /// The time waited, in milliseconds.
    Timeout(u64),
    Spawn(String),
    /// The server answered a request with an error.
    Server { code: i64, message: String, data: Option<Json> },
}

/// [`RpcError`] with its texts as sequences of characters.
pub enum Fault {
    Io(Seq<char>),
    Json(Seq<char>),
    Disconnected(Seq<char>),
    Timeout(u64),
    Spawn(Seq<char>),
    Server { code: i64, message: Seq<char>, data: Option<Tree> },
}

impl View for RpcError {
    type V = Fault;

    open spec fn view(&self) -> Fault {
        match self {
            RpcError::Io(s) => Fault::Io(s@),
            RpcError::Json(s) => Fault::Json(s@),
            RpcError::Disconnected(s) => Fault::Disconnected(s@),
            RpcError::Timeout(ms) => Fault::Timeout(*ms),
            RpcError::Spawn(s) => Fault::Spawn(s@),
            RpcError::Server { code, message, data } => Fault::Server {
                code: *code,
                message: message@,
                data: match data {
                    Some(d) => Some(d.tree()),
                    None => None,
                },
            },
        }
    }
}

/// The thousandths after the point, without zeros at the end.
pub open spec fn thousandths(n: int) -> Seq<char> {
    if n % 10 != 0 {
        seq![digit(n / 100), digit(n / 10 % 10), digit(n % 10)]
    } else if n % 100 != 0 {
        seq![digit(n / 100), digit(n / 10 % 10)]
    } else {
        seq![digit(n / 100)]
    }
}

/// A time in milliseconds as a person reads it: `0ns`, `900ms`, `15s`, `1.5s`.
pub open spec fn duration_text(ms: u64) -> Seq<char> {
    if ms == 0 {
        "0ns"@
    } else if ms < 1000 {
        digits(ms as nat) + "ms"@
    } else if ms % 1000 == 0 {
        digits((ms / 1000) as nat) + "s"@
    } else {
        digits((ms / 1000) as nat) + "."@ + thousandths((ms % 1000) as int) + "s"@
    }
}

/// What an error says.
pub open spec fn error_text(e: Fault) -> Seq<char> {
    match e {
        Fault::Io(s) => "io: "@ + s,
        Fault::Json(s) => "json: "@ + s,
        Fault::Disconnected(s) => "disconnected: "@ + s,
        Fault::Timeout(ms) => "request timed out after "@ + duration_text(ms),
        Fault::Spawn(s) => "failed to spawn codex: "@ + s,
        Fault::Server { code, message, .. } => "server error "@ + decimal(code as int) + ": "@
            + message,
    }
}

fn digit_char(d: u64) -> (r: char)
    requires
        d < 10,
    ensures
        r == digit(d as int),
{
    (48u8 + d as u8) as char
}

/// Writes a time in milliseconds.
pub fn write_duration(ms: u64) -> (r: String)
    ensures
        r@ == duration_text(ms),
{
    if ms == 0 {
        return text::copy("0ns");
    }
    if ms < 1000 {
        let mut out = text::write_u64(ms);
        out.append("ms");
        return out;
    }
    let mut out = text::write_u64(ms / 1000);
    let n: u64 = ms % 1000;
    if n != 0 {
        out.append(".");
        let ghost before = out@;
        out.push(digit_char(n / 100));
        if n % 100 != 0 {
            out.push(digit_char(n / 10 % 10));
            if n % 10 != 0 {
                out.push(digit_char(n % 10));
            }
        }
        assert(out@ =~= before + thousandths(n as int));
    }
    out.append("s");
    out
}

impl RpcError {
    /// What the error says.
    pub fn message(&self) -> (r: String)
        ensures
            r@ == error_text(self@),
    {
        match self {
            RpcError::Io(s) => text::join("io: ", s.as_str()),
            RpcError::Json(s) => text::join("json: ", s.as_str()),
            RpcError::Disconnected(s) => text::join("disconnected: ", s.as_str()),
            RpcError::Timeout(ms) => text::join(
                "request timed out after ",
                write_duration(*ms).as_str(),
            ),
            RpcError::Spawn(s) => text::join("failed to spawn codex: ", s.as_str()),
            RpcError::Server { code, message, .. } => {
                let mut out = text::copy("server error ");
                out.append(text::write_i64(*code).as_str());
                out.append(": ");
                out.append(message.as_str());
                out
            },
        }
    }
}

/// What an error says names its kind, and then says what it holds as it is.
pub proof fn lemma_errors_say_what_they_are(e: RpcError, r: String, took: String)
    requires
        call_ensures(RpcError::message, (&e,), r),
        e matches RpcError::Timeout(ms) ==> call_ensures(write_duration, (ms,), took),
    ensures
        match e {
            RpcError::Io(s) => r@ == "io: "@ + s@,
            RpcError::Json(s) => r@ == "json: "@ + s@,
            RpcError::Disconnected(s) => r@ == "disconnected: "@ + s@,
            RpcError::Timeout(_) => r@ == "request timed out after "@ + took@,
            RpcError::Spawn(s) => r@ == "failed to spawn codex: "@ + s@,
            RpcError::Server { code, message, .. } => r@ == "server error "@ + decimal(code as int)
                + ": "@ + message@,
        },
{
}

/// A time is written in whole milliseconds below a second, and from a second on in seconds, with a
/// fraction exactly where they are not whole: the digits behind the point are as many as it takes,
/// and stand for the rest of the second.
pub proof fn lemma_how_a_time_is_written(ms: u64, r: String)
    requires
        call_ensures(write_duration, (ms,), r),
    ensures
        0 < ms < 1000 ==> r@ == digits(ms as nat) + "ms"@,
        ms >= 1000 && ms % 1000 == 0 ==> r@ == digits((ms / 1000) as nat) + "s"@,
        ms % 1000 != 0 && ms >= 1000 ==> exists|f: Seq<char>|
            #![trigger text::number(f)]
            {
                &&& r@ == digits((ms / 1000) as nat) + "."@ + f + "s"@
                &&& text::all_digits(f)
                &&& f.last() != '0'
                &&& (f.len() == 1 && text::number(f) * 100 == ms % 1000) || (f.len() == 2
                    && text::number(f) * 10 == ms % 1000) || (f.len() == 3 && text::number(f) == ms
                    % 1000)
            },
{
    if ms >= 1000 && ms % 1000 != 0 {
        let n = (ms % 1000) as int;
        let f = thousandths(n);
        let a = seq![digit(n / 100)];
        let b = seq![digit(n / 100), digit(n / 10 % 10)];
        let c = seq![digit(n / 100), digit(n / 10 % 10), digit(n % 10)];
        reveal_with_fuel(text::number, 4);
        assert(a.drop_last() =~= Seq::<char>::empty());
        assert(b.drop_last() =~= a);
        assert(c.drop_last() =~= b);
        assert(text::number(a) == n / 100);
        assert(text::number(b) == n / 10);
        assert(text::number(c) == n);
        assert(text::all_digits(f));
        assert(r@ == digits((ms / 1000) as nat) + "."@ + f + "s"@);
    }
}

} // verus!
