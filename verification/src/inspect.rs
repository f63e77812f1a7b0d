//! The inspect bridge's reply frames.
//!
//! A reply is one JSON line: `{"kind":"event_response","id":..,"payload":..}`
//! or `{"kind":"event_error","id":..,"error":{"code":..,"message":..}}`.
use serde_json::Value;
use vstd::prelude::*;
use crate::argv::opt_view;
use crate::json::{
    empty_object, json_compact, json_compacted, json_error, json_has, json_member, json_null,
    json_object, json_parse, json_quote, json_quoted, json_str_at, json_string, json_text,
    json_value_at, null_value,
};
use crate::text::{chars_of, owned, push_str, string_of, trim, trimmed};

verus! {

/// One event to send to a target's inspect socket.
#[derive(Debug)]
pub struct Request {
    pub event: String,
    pub payload: Value,
}

/// A target's answer to an event.
#[derive(Debug)]
pub enum Response {
    /// The event was handled; its payload.
    Success(Value),
    /// The target reported an error: `<code>: <message>`.
    Error(String),
}

/// What a reply frame means, apart from the payload it carries.
pub enum Outcome {
    Success,
    Failure(Seq<char>),
}

/// The text of an error member: `<code>: <message>`, each with its default.
pub open spec fn describe_of(code: Option<Seq<char>>, message: Option<Seq<char>>) -> Seq<char> {
    (match code {
        Some(c) => c,
        None => "event_error"@,
    }) + ": "@ + match message {
        Some(m) => m,
        None => "inspect endpoint returned event_error"@,
    }
}

/// What a reply frame with the string members `kind` and `id` means for a
/// request with id `expected`; `error` is the error member's `code` and
/// `message`, when the frame has one.
pub open spec fn frame_of(
    kind: Option<Seq<char>>,
    id: Option<Seq<char>>,
    expected: Seq<char>,
    error: Option<(Option<Seq<char>>, Option<Seq<char>>)>,
) -> Result<Outcome, Seq<char>> {
    let got = match id {
        Some(i) => i,
        None => Seq::<char>::empty(),
    };
    match kind {
        None => Err("inspect response missing kind"@),
        Some(k) => if got != expected {
            Err("inspect response id mismatch: expected "@ + expected + ", got "@ + got)
        } else if k == "event_response"@ {
            Ok(Outcome::Success)
        } else if k == "event_error"@ {
            Ok(
                Outcome::Failure(
                    match error {
                        Some((c, m)) => describe_of(c, m),
                        None => "inspect endpoint returned event_error"@,
                    },
                ),
            )
        } else {
            Err("expected event_response/event_error inspect frame, got "@ + k)
        },
    }
}

/// The error text `<code>: <message>`.
pub fn describe(code: Option<String>, message: Option<String>) -> (r: String)
    ensures
        r@ == describe_of(opt_view(code), opt_view(message)),
{
    let mut s = match code {
        Some(c) => c,
        None => owned("event_error"),
    };
    push_str(&mut s, ": ");
    match message {
        Some(m) => push_str(&mut s, m.as_str()),
        None => push_str(&mut s, "inspect endpoint returned event_error"),
    }
    s
}

/// The answer that a reply frame gives: its `kind` and `id` members, the
/// id of the request, the payload (already defaulted to `null`) and the
/// error member's `code` and `message`, when the frame has one.
pub fn frame(
    kind: Option<String>,
    id: Option<String>,
    expected: &str,
    payload: Value,
    error: Option<(Option<String>, Option<String>)>,
) -> (r: Result<Response, String>)
    ensures
        match frame_of(
            opt_view(kind),
            opt_view(id),
            expected@,
            match error {
                Some((c, m)) => Some((opt_view(c), opt_view(m))),
                None => None,
            },
        ) {
            Ok(Outcome::Success) => r matches Ok(Response::Success(p)) && p == payload,
            Ok(Outcome::Failure(m)) => r matches Ok(Response::Error(e)) && e@ == m,
            Err(e) => r matches Err(x) && x@ == e,
        },
{
    let k = match kind {
        Some(k) => k,
        None => {
            return Err(owned("inspect response missing kind"));
        },
    };
    let got = match id {
        Some(i) => i,
        None => String::new(),
    };
    if !crate::argv::eq_str(&got, expected) {
        let mut m = owned("inspect response id mismatch: expected ");
        push_str(&mut m, expected);
        push_str(&mut m, ", got ");
        push_str(&mut m, got.as_str());
        return Err(m);
    }
    if crate::argv::eq_str(&k, "event_response") {
        Ok(Response::Success(payload))
    } else if crate::argv::eq_str(&k, "event_error") {
        let text = match error {
            Some((c, m)) => describe(c, m),
            None => owned("inspect endpoint returned event_error"),
        };
        Ok(Response::Error(text))
    } else {
        let mut m = owned("expected event_response/event_error inspect frame, got ");
        push_str(&mut m, k.as_str());
        Err(m)
    }
}

/// What a reply line's members mean for the request with id `expected`,
/// `t` being the trimmed line and JSON: its `kind` and `id` strings, and
/// the `code` and `message` strings of its `error` member when it has one.
pub open spec fn reply_of(t: Seq<char>, expected: Seq<char>) -> Result<Outcome, Seq<char>> {
    frame_of(
        json_str_at(t, "/kind"@),
        json_str_at(t, "/id"@),
        expected,
        if json_has(t, "/error"@) {
            Some((json_str_at(t, "/error/code"@), json_str_at(t, "/error/message"@)))
        } else {
            None
        },
    )
}

/// Reads a reply line for the request with id `expected`: an error for an
/// empty line or one that is not JSON, else what `frame` makes of its
/// `kind`, `id`, `payload` (`null` when absent) and `error` members.
pub fn parse(text: &str, expected: &str) -> (r: Result<Response, String>)
    ensures
        trim(text@).len() == 0 ==> (r matches Err(m) && m@ == "inspect endpoint returned empty response"@),
        trim(text@).len() != 0 && !json_text(trim(text@)) ==> (r matches Err(m) && m@ == json_error(
            trim(text@),
        )),
        trim(text@).len() != 0 && json_text(trim(text@)) ==> match reply_of(trim(text@), expected@) {
            Ok(Outcome::Success) => r matches Ok(Response::Success(p)) && p == if json_has(
                trim(text@),
                "/payload"@,
            ) {
                json_value_at(trim(text@), "/payload"@)
            } else {
                null_value()
            },
            Ok(Outcome::Failure(m)) => r matches Ok(Response::Error(e)) && e@ == m,
            Err(e) => r matches Err(x) && x@ == e,
        },
{
    let chars = chars_of(text);
    let t = trimmed(&chars);
    if t.len() == 0 {
        return Err(owned("inspect endpoint returned empty response"));
    }
    let body = string_of(&t);
    let b = body.as_str();
    let _ = json_parse(b)?;
    let kind = json_string(b, "/kind");
    let id = json_string(b, "/id");
    let payload = match json_member(b, "/payload") {
        Some(v) => v,
        None => json_null(),
    };
    let error = if json_member(b, "/error").is_some() {
        Some((json_string(b, "/error/code"), json_string(b, "/error/message")))
    } else {
        None
    };
    frame(kind, id, expected, payload, error)
}

/// The message for a request payload that is not JSON.
pub open spec fn payload_error(t: Seq<char>) -> Seq<char> {
    "payload is not valid JSON: "@ + json_error(t) + "; quote the payload as a single argument"@
}

/// Whether a payload argument is given: present and not empty.
pub open spec fn given(text: Option<&str>) -> bool {
    text matches Some(t) && t@.len() != 0
}

/// The payload of an inspect request: the JSON that `text` holds, or `{}`
/// when no payload or an empty one is given.
pub fn payload(text: Option<&str>) -> (r: Result<Value, String>)
    ensures
        given(text) && json_text(text->0@) ==> r == Ok::<Value, String>(
            json_value_at(text->0@, Seq::<char>::empty()),
        ),
        given(text) && !json_text(text->0@) ==> (r matches Err(m) && m@ == payload_error(
            text->0@,
        )),
        !given(text) ==> r == Ok::<Value, String>(empty_object()),
{
    match text {
        Some(t) => {
            if chars_of(t).len() != 0 {
                match json_parse(t) {
                    Ok(v) => Ok(v),
                    Err(err) => {
                        let mut m = owned("payload is not valid JSON: ");
                        push_str(&mut m, err.as_str());
                        push_str(&mut m, "; quote the payload as a single argument");
                        Err(m)
                    },
                }
            } else {
                Ok(json_object())
            }
        },
        None => Ok(json_object()),
    }
}

/// The request line for event `verb` with id `id` and payload argument
/// `payload` (as the README documents it):
/// `{"kind":"event","id":..,"verb":..,"payload":..}` and a newline, the
/// payload written as compact JSON, `{}` when none is given.
pub open spec fn request_of(id: Seq<char>, verb: Seq<char>, payload: Option<Seq<char>>) -> Seq<char> {
    let body = match payload {
        Some(t) if t.len() != 0 => json_compact(t),
        _ => "{}"@,
    };
    "{\"kind\":\"event\",\"id\":"@ + json_quoted(id) + ",\"verb\":"@ + json_quoted(verb)
        + ",\"payload\":"@ + body + "}\n"@
}

/// The request line to send: an error for a given payload that is not
/// JSON, else the line for `event` with id `id`.
pub fn request_line(id: &str, event: &str, payload: Option<&str>) -> (r: Result<String, String>)
    ensures
        given(payload) && !json_text(payload->0@) ==> (r matches Err(m) && m@ == payload_error(
            payload->0@,
        )),
        !(given(payload) && !json_text(payload->0@)) ==> (r matches Ok(line) && line@
            == request_of(
            id@,
            event@,
            match payload {
                Some(t) => Some(t@),
                None => None,
            },
        )),
{
    let body = match payload {
        Some(t) => {
            if chars_of(t).len() != 0 {
                match json_compacted(t) {
                    Some(c) => c,
                    None => {
                        let err = match json_parse(t) {
                            Ok(_) => String::new(),
                            Err(e) => e,
                        };
                        let mut m = owned("payload is not valid JSON: ");
                        push_str(&mut m, err.as_str());
                        push_str(&mut m, "; quote the payload as a single argument");
                        return Err(m);
                    },
                }
            } else {
                owned("{}")
            }
        },
        None => owned("{}"),
    };
    let mut line = owned("{\"kind\":\"event\",\"id\":");
    push_str(&mut line, json_quote(id).as_str());
    push_str(&mut line, ",\"verb\":");
    push_str(&mut line, json_quote(event).as_str());
    push_str(&mut line, ",\"payload\":");
    push_str(&mut line, body.as_str());
    push_str(&mut line, "}\n");
    Ok(line)
}

} // verus!
