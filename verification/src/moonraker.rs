//! The Moonraker client's protocol: JSON-RPC requests, and which of the frames
//! that come back is the reply.

use vstd::prelude::*;

use crate::hostclock::{clamp, clamped};
use crate::json::{child, take, text_of, Json, Kind};
use crate::number::Span;
use crate::order::{sort_distinct, strictly_ascending};
use crate::text::{
    decimal, decimal_int, decimal_of, decimal_of_int, hex_digit, join, joined, texts,
};

verus! {

/// A failure of the client.
#[derive(Debug)]
pub enum MoonrakerError {
    /// The connection failed.
    Ws(String),
    /// The server closed the connection during a call.
    Closed,
    /// A call did not complete in time.
    Timeout {
        /// The method.
        method: String,
        /// The time it had, in seconds.
        seconds: u64,
    },
    /// The server answered with an error.
    Rpc {
        /// The method.
        method: String,
        /// The error's code.
        code: i64,
        /// The error's text.
        message: String,
    },
    /// A frame that is not JSON-RPC.
    Protocol(String),
}

/// A failure in words.
pub open spec fn error_text(e: MoonrakerError) -> Seq<char> {
    match e {
        MoonrakerError::Ws(why) => "moonraker connection: "@ + why@,
        MoonrakerError::Closed => "moonraker closed the connection"@,
        MoonrakerError::Timeout { method, seconds } => "moonraker call `"@ + method@
            + "` timed out after "@ + decimal(seconds as nat) + "s"@,
        MoonrakerError::Rpc { method, code, message } => "moonraker error "@ + decimal_int(
            code as int,
        ) + " for `"@ + method@ + "`: "@ + message@,
        MoonrakerError::Protocol(why) => "moonraker protocol violation: "@ + why@,
    }
}

impl MoonrakerError {
    /// The failure in words.
    pub fn message(&self) -> (r: String)
        ensures
            r@ == error_text(*self),
    {
        match self {
            MoonrakerError::Ws(why) => {
                let mut out = "moonraker connection: ".to_owned();
                out.append(why.as_str());
                out
            },
            MoonrakerError::Closed => "moonraker closed the connection".to_owned(),
            MoonrakerError::Timeout { method, seconds } => {
                let mut out = "moonraker call `".to_owned();
                out.append(method.as_str());
                out.append("` timed out after ");
                let digits = decimal_of(*seconds);
                out.append(digits.as_str());
                out.append("s");
                out
            },
            MoonrakerError::Rpc { method, code, message } => {
                let mut out = "moonraker error ".to_owned();
                let digits = decimal_of_int(*code);
                out.append(digits.as_str());
                out.append(" for `");
                out.append(method.as_str());
                out.append("`: ");
                out.append(message.as_str());
                out
            },
            MoonrakerError::Protocol(why) => {
                let mut out = "moonraker protocol violation: ".to_owned();
                out.append(why.as_str());
                out
            },
        }
    }
}

/// How a character stands inside a JSON string: quotes, backslashes and control
/// characters are escaped, everything else stands for itself.
pub open spec fn escaped(c: char) -> Seq<char> {
    let code = c as int;
    if c == '"' || c == '\\' {
        seq!['\\', c]
    } else if code == 0x08 {
        seq!['\\', 'b']
    } else if code == 0x09 {
        seq!['\\', 't']
    } else if code == 0x0a {
        seq!['\\', 'n']
    } else if code == 0x0c {
        seq!['\\', 'f']
    } else if code == 0x0d {
        seq!['\\', 'r']
    } else if code < 0x20 {
        seq!['\\', 'u', '0', '0', hex_digit(code / 16), hex_digit(code % 16)]
    } else {
        seq![c]
    }
}

/// The inside of a JSON string.
pub open spec fn escapes(s: Seq<char>) -> Seq<char>
    decreases s.len(),
{
    if s.len() == 0 {
        Seq::empty()
    } else {
        escaped(s[0]) + escapes(s.skip(1))
    }
}

/// A string as a JSON literal.
pub open spec fn json_text(s: Seq<char>) -> Seq<char> {
    seq!['"'] + escapes(s) + seq!['"']
}

/// `<serde_json::Value as Display>::fmt` of a string value: the compact form, in
/// which a string stands in double quotes with its quotes, backslashes and
/// control characters escaped.
#[verifier::external_body]
pub(crate) fn json_literal(s: &str) -> (r: String)
    ensures
        r@ == json_text(s@),
{
    serde_json::Value::from(s).to_string()
}

/// A request: its members in the order of their keys. Parameters are left out
/// when there are none.
pub open spec fn request(id: u64, method: Seq<char>, params: Option<Seq<char>>) -> Seq<char> {
    let head = "{\"id\":"@ + decimal(id as nat) + ",\"jsonrpc\":\"2.0\",\"method\":"@
        + json_text(method);
    match params {
        Some(p) => head + ",\"params\":"@ + p + "}"@,
        None => head + "}"@,
    }
}

/// The parameters that run a script.
pub open spec fn script_params(script: Seq<char>) -> Seq<char> {
    "{\"script\":"@ + json_text(script) + "}"@
}

/// The members of an object query, one for each name.
pub open spec fn query_members(names: Seq<Seq<char>>) -> Seq<Seq<char>> {
    names.map_values(|n: Seq<char>| json_text(n) + ":null"@)
}

/// The parameters that query the objects `names`.
pub open spec fn query_params(names: Seq<Seq<char>>) -> Seq<char> {
    "{\"objects\":{"@ + joined(query_members(names), ","@) + "}}"@
}

/// The parameters that run a script.
pub fn gcode_script_params(script: &str) -> (r: String)
    ensures
        r@ == script_params(script@),
{
    let mut out = "{\"script\":".to_owned();
    let literal = json_literal(script);
    out.append(literal.as_str());
    out.append("}");
    out
}

/// The parameters that query objects, each once, in the order of their names.
pub fn query_objects_params(objects: Vec<String>) -> (r: String)
    ensures
        exists|names: Seq<Seq<char>>| #[trigger]
            strictly_ascending(names) && names.to_set() == texts(objects@).to_set() && r@
                == query_params(names),
{
    let names = sort_distinct(objects);
    let ghost all = query_members(texts(names@));
    let mut members: Vec<String> = Vec::new();
    let mut i: usize = 0;
    assert(texts(members@) =~= all.take(0));
    while i < names.len()
        invariant
            0 <= i <= names@.len(),
            all == query_members(texts(names@)),
            texts(members@) == all.take(i as int),
        decreases names@.len() - i,
    {
        let ghost before = texts(members@);
        let mut one = json_literal(names[i].as_str());
        one.append(":null");
        members.push(one);
        assert(texts(members@) =~= before.push(one@));
        assert(all[i as int] == one@);
        assert(texts(members@) =~= all.take(i + 1));
        i = i + 1;
    }
    assert(all.take(i as int) =~= all);
    let mut out = "{\"objects\":{".to_owned();
    let inner = join(&members, ",");
    out.append(inner.as_str());
    out.append("}}");
    assert(strictly_ascending(texts(names@)));
    out
}

/// The client's own state: the next call's number, and how long a call may take.
#[derive(Debug, Clone, Copy)]
pub struct MoonrakerClient {
    /// The number of the next call.
    pub next_id: u64,
    /// How long a call may take.
    pub call_timeout: Span,
}

/// The number after `id`: numbers count up, and start again at one.
pub open spec fn id_after(id: u64) -> u64 {
    if id < u64::MAX {
        (id + 1) as u64
    } else {
        1
    }
}

/// A frame from the server.
#[derive(Debug)]
pub enum Frame {
    /// The stream ended.
    Ended,
    /// The stream failed, for this reason.
    Failed(String),
    /// The server closed the connection.
    Close,
    /// Text, as JSON, or why it is not JSON.
    Text(Result<Json, String>),
    /// Any other frame.
    Other,
}

/// The number of the call that a message answers; absent for anything else.
pub open spec fn reply_id(message: Json) -> Option<int> {
    match child(message, "id"@) {
        Some(v) => match v.kind {
            Kind::Number(n) => match n.integer {
                Some(i) => if 0 <= i <= u64::MAX {
                    Some(i as int)
                } else {
                    None
                },
                None => None,
            },
            _ => None,
        },
        None => None,
    }
}

/// The code of an error, or zero.
pub open spec fn error_code(error: Json) -> int {
    match child(error, "code"@) {
        Some(v) => match v.kind {
            Kind::Number(n) => match n.integer {
                Some(i) => if i64::MIN <= i <= i64::MAX {
                    i as int
                } else {
                    0
                },
                None => 0,
            },
            _ => 0,
        },
        None => 0,
    }
}

/// The text of an error.
pub open spec fn error_message(error: Json) -> Seq<char> {
    match text_of(child(error, "message"@)) {
        Some(s) => s,
        None => "unknown error"@,
    }
}

/// What the reply `message` to a call of `method` means: its error, else its
/// result.
pub open spec fn replied(method: Seq<char>, message: Json, r: Result<Json, MoonrakerError>) -> bool {
    match child(message, "error"@) {
        Some(error) => {
            &&& r matches Err(MoonrakerError::Rpc { method: m, code, message: text })
            &&& m@ == method
            &&& code == error_code(error)
            &&& text@ == error_message(error)
        },
        None => match child(message, "result"@) {
            Some(result) => r == Ok::<Json, MoonrakerError>(result),
            None => {
                &&& r matches Err(MoonrakerError::Protocol(why))
                &&& why@ == "response without result"@
            },
        },
    }
}

/// What a frame means for call `id` of `method`: its end, or nothing.
pub open spec fn heard(
    id: u64,
    method: Seq<char>,
    frame: Frame,
    r: Option<Result<Json, MoonrakerError>>,
) -> bool {
    match frame {
        Frame::Ended => r == Some(Err::<Json, MoonrakerError>(MoonrakerError::Closed)),
        Frame::Close => r == Some(Err::<Json, MoonrakerError>(MoonrakerError::Closed)),
        Frame::Failed(why) => r == Some(Err::<Json, MoonrakerError>(MoonrakerError::Ws(why))),
        Frame::Other => r is None,
        Frame::Text(Err(e)) => {
            &&& r matches Some(Err(MoonrakerError::Protocol(why)))
            &&& why@ == "non-JSON frame: "@ + e@
        },
        Frame::Text(Ok(message)) => if reply_id(message) == Some(id as int) {
            r matches Some(reply) && replied(method, message, reply)
        } else {
            r is None
        },
    }
}

fn read_integer(v: Option<&Json>) -> (r: Option<i128>)
    ensures
        r == (match v {
            Some(v) => match v.kind {
                Kind::Number(n) => n.integer,
                _ => None,
            },
            None => None,
        }),
{
    match v {
        Some(v) => match &v.kind {
            Kind::Number(n) => n.integer,
            _ => None,
        },
        None => None,
    }
}

fn settle(method: &str, message: Json) -> (r: Result<Json, MoonrakerError>)
    ensures
        replied(method@, message, r),
{
    if let Some(error) = message.get("error") {
        let code: i64 = match read_integer(error.get("code")) {
            Some(i) => if i64::MIN as i128 <= i && i <= i64::MAX as i128 {
                i as i64
            } else {
                0
            },
            None => 0,
        };
        let text = match error.get("message") {
            Some(v) => match v.as_str() {
                Some(s) => s.to_owned(),
                None => "unknown error".to_owned(),
            },
            None => "unknown error".to_owned(),
        };
        return Err(MoonrakerError::Rpc { method: method.to_owned(), code, message: text });
    }
    match message.kind {
        Kind::Object(members) => {
            let mut members = members;
            match take(&mut members, "result") {
                Some(result) => Ok(result),
                None => Err(MoonrakerError::Protocol("response without result".to_owned())),
            }
        },
        _ => Err(MoonrakerError::Protocol("response without result".to_owned())),
    }
}

impl MoonrakerClient {
    /// A client as it connects.
    pub fn connected(timeout: Span) -> (r: Self)
        ensures
            r.next_id == 1,
            r.call_timeout == timeout,
    {
        MoonrakerClient { next_id: 1, call_timeout: timeout }
    }

    /// Sets how long a call may take.
    pub fn set_call_timeout(&mut self, timeout: Span)
        ensures
            final(self).call_timeout == timeout,
            final(self).next_id == old(self).next_id,
    {
        self.call_timeout = timeout;
    }

    /// Begins a call: its number, and the request to send.
    pub fn begin_call(&mut self, method: &str, params: Option<&str>) -> (r: (u64, String))
        ensures
            r.0 == old(self).next_id,
            r.1@ == request(
                r.0,
                method@,
                match params {
                    Some(p) => Some(p@),
                    None => None,
                },
            ),
            final(self).next_id == id_after(old(self).next_id),
            final(self).call_timeout == old(self).call_timeout,
    {
        let id = self.next_id;
        self.next_id = if id < u64::MAX {
            id + 1
        } else {
            1
        };
        let mut out = "{\"id\":".to_owned();
        let digits = decimal_of(id);
        out.append(digits.as_str());
        out.append(",\"jsonrpc\":\"2.0\",\"method\":");
        let name = json_literal(method);
        out.append(name.as_str());
        if let Some(p) = params {
            out.append(",\"params\":");
            out.append(p);
        }
        out.append("}");
        (id, out)
    }

    /// What a frame means for call `id` of `method`: its end, or nothing yet.
    pub fn on_frame(&self, id: u64, method: &str, frame: Frame) -> (r: Option<
        Result<Json, MoonrakerError>,
    >)
        ensures
            heard(id, method@, frame, r),
    {
        match frame {
            Frame::Ended => Some(Err(MoonrakerError::Closed)),
            Frame::Close => Some(Err(MoonrakerError::Closed)),
            Frame::Failed(why) => Some(Err(MoonrakerError::Ws(why))),
            Frame::Other => None,
            Frame::Text(Err(e)) => {
                let mut why = "non-JSON frame: ".to_owned();
                why.append(e.as_str());
                Some(Err(MoonrakerError::Protocol(why)))
            },
            Frame::Text(Ok(message)) => {
                let ours = match read_integer(message.get("id")) {
                    Some(i) => i == id as i128,
                    None => false,
                };
                if ours {
                    Some(settle(method, message))
                } else {
                    None
                }
            },
        }
    }

    /// The failure of a call that took too long.
    pub fn timed_out(&self, method: &str) -> (r: MoonrakerError)
        ensures
            r matches MoonrakerError::Timeout { method: m, seconds } && m@ == method@ && seconds
                == clamped((self.call_timeout.nanos / 1_000_000_000) as int),
    {
        let seconds: u64 = clamp(self.call_timeout.as_secs());
        MoonrakerError::Timeout { method: method.to_owned(), seconds }
    }
}

/// What an object query answered: the status map of its result.
pub fn query_status(result: Json) -> (r: Result<Json, MoonrakerError>)
    ensures
        match child(result, "status"@) {
            Some(status) => r == Ok::<Json, MoonrakerError>(status),
            None => {
                &&& r matches Err(MoonrakerError::Protocol(why))
                &&& why@ == "query result without status"@
            },
        },
{
    match result.kind {
        Kind::Object(members) => {
            let mut members = members;
            match take(&mut members, "status") {
                Some(status) => Ok(status),
                None => Err(MoonrakerError::Protocol("query result without status".to_owned())),
            }
        },
        _ => Err(MoonrakerError::Protocol("query result without status".to_owned())),
    }
}

/// Calls are told apart: a call's number is never zero, and never that of the
/// call before it.
pub proof fn a_call_has_a_number_of_its_own(id: u64)
    requires
        id != 0,
    ensures
        id_after(id) != 0,
        id_after(id) != id,
{
}

/// No other call's reply is taken for this one's, and no notification is: a
/// message with another number, or with none, leaves the call waiting.
pub proof fn only_its_own_reply_ends_a_call(
    id: u64,
    method: Seq<char>,
    message: Json,
    r: Option<Result<Json, MoonrakerError>>,
)
    requires
        heard(id, method, Frame::Text(Ok(message)), r),
    ensures
        r is Some <==> reply_id(message) == Some(id as int),
        child(message, "id"@) is None ==> r is None,
        (child(message, "id"@) matches Some(v) && v.kind is Null) ==> r is None,
{
}

proof fn lemma_hex_digits_differ(a: int, b: int)
    requires
        0 <= a < 16,
        0 <= b < 16,
        hex_digit(a) == hex_digit(b),
    ensures
        a == b,
{
}

/// No escape begins another one, so the first character can be read back.
proof fn lemma_first_escape(x: char, y: char, a: Seq<char>, b: Seq<char>)
    requires
        escaped(x) + a == escaped(y) + b,
    ensures
        x == y,
        a == b,
{
    let left = escaped(x) + a;
    let right = escaped(y) + b;
    assert(left[0] == escaped(x)[0]);
    assert(right[0] == escaped(y)[0]);
    if escaped(x).len() > 1 {
        assert(escaped(y).len() > 1);
        assert(left[1] == escaped(x)[1]);
        assert(right[1] == escaped(y)[1]);
        if escaped(x).len() == 6 {
            assert(escaped(y).len() == 6);
            assert(left[4] == escaped(x)[4] && left[5] == escaped(x)[5]);
            assert(right[4] == escaped(y)[4] && right[5] == escaped(y)[5]);
            lemma_hex_digits_differ(x as int / 16, y as int / 16);
            lemma_hex_digits_differ(x as int % 16, y as int % 16);
            assert(x as int == y as int);
        }
    }
    assert(x == y);
    assert(a =~= left.skip(escaped(x).len() as int));
    assert(b =~= right.skip(escaped(y).len() as int));
}

proof fn lemma_escapes_differ(a: Seq<char>, b: Seq<char>)
    requires
        escapes(a) == escapes(b),
    ensures
        a == b,
    decreases a.len(),
{
    if a.len() == 0 {
        if b.len() > 0 {
            assert(escapes(b).len() > 0);
        }
        assert(a =~= b);
    } else if b.len() == 0 {
        assert(escapes(a).len() > 0);
    } else {
        lemma_first_escape(a[0], b[0], escapes(a.skip(1)), escapes(b.skip(1)));
        lemma_escapes_differ(a.skip(1), b.skip(1));
        assert(a =~= seq![a[0]] + a.skip(1));
        assert(b =~= seq![b[0]] + b.skip(1));
    }
}

/// The printer is sent the exact script: parameters that are the same run the
/// same script, character for character.
pub proof fn a_script_is_sent_exactly(a: Seq<char>, b: Seq<char>)
    ensures
        script_params(a) == script_params(b) <==> a == b,
{
    if script_params(a) == script_params(b) {
        let head = "{\"script\":"@;
        let left = head + json_text(a) + "}"@;
        let right = head + json_text(b) + "}"@;
        assert(json_text(a) =~= left.subrange(head.len() as int, left.len() - "}"@.len()));
        assert(json_text(b) =~= right.subrange(head.len() as int, right.len() - "}"@.len()));
        assert(escapes(a) =~= json_text(a).subrange(1, json_text(a).len() - 1));
        assert(escapes(b) =~= json_text(b).subrange(1, json_text(b).len() - 1));
        lemma_escapes_differ(a, b);
    }
}

} // verus!
