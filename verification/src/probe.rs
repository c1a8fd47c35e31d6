//! Checking one target: which operation to perform, and how to judge what came
//! back.
//!
//! The network is not touched here. [`Resource::probe`] names the operation,
//! the caller performs it and describes what happened as a [`Reply`], and
//! [`Resource::check`] turns the reply into success or a classified failure.

use crate::target::{HttpOptions, ResType, Resource};
use crate::text::{decimal, lemma_occurs_between, occurs_in, push_decimal};
use std::collections::HashMap;
use vstd::prelude::*;

verus! {

/// The status code that a plain `GET` must be answered with.
pub const HTTP_OK: u16 = 200;

/// The operation that checks a target: one of a closed set of strategies,
/// chosen by the target's kind and its custom options.
#[derive(Debug, Clone, Copy, PartialEq)]
pub enum Probe<'a> {
    /// Open a TCP connection to `addr` and shut it down again in both
    /// directions, without exchanging data.
    Connect { addr: &'a String },
    /// Send `GET addr`. Only `200 OK` counts as success.
    Get { addr: &'a String },
    /// Send `POST addr` with `params` as a URL-encoded form. A response with
    /// status `ok` counts as success.
    PostForm { addr: &'a String, params: &'a HashMap<String, String>, ok: u16 },
    /// Send `POST addr` with `json` as the body. A response with status `ok`
    /// counts as success.
    PostJson { addr: &'a String, json: &'a serde_json::Value, ok: u16 },
}

/// What the caller saw when it performed a [`Probe`].
#[derive(Debug, Clone, PartialEq, Eq)]
pub enum Reply {
    /// No connection, or no response: refused, timed out, or broken in
    /// transport. `detail` is the error in words.
    Failed { detail: String },
    /// A connection was established and closed again. Nothing was exchanged.
    Connected,
    /// An HTTP response arrived. `body` is its text; `None` where the body was
    /// not read or could not be read.
    Response { status: u16, body: Option<String> },
}

/// Why a check failed.
#[derive(Debug, Clone, PartialEq, Eq)]
pub enum CheckFailure {
    /// The connection was refused or timed out, or the transport broke.
    Transport { detail: String },
    /// A response arrived, with another status than the expected one.
    Status { code: u16, body: Option<String> },
    /// An HTTP check was handed a reply without a response to judge.
    NoResponse,
}

/// The text of a response body; empty where there is none.
pub open spec fn body_text(body: Option<String>) -> Seq<char> {
    match body {
        Some(text) => text@,
        None => Seq::empty(),
    }
}

/// The detail of a failure by status: the code, then the body.
pub open spec fn status_detail(code: nat, body: Seq<char>) -> Seq<char> {
    "\n\tStatus: "@ + decimal(code) + "\n\tDetails: "@ + body
}

/// Success or failure of a check that expects `expected` (a status code, or
/// for a TCP check nothing but the connection) and was answered by `reply`.
pub open spec fn judge(expected: Option<u16>, reply: Reply) -> Result<(), CheckFailure> {
    match reply {
        Reply::Failed { detail } => Err(CheckFailure::Transport { detail }),
        Reply::Connected => match expected {
            None => Ok(()),
            Some(_) => Err(CheckFailure::NoResponse),
        },
        Reply::Response { status, body } => match expected {
            None => Ok(()),
            Some(ok) => if status == ok {
                Ok(())
            } else {
                Err(CheckFailure::Status { code: status, body })
            },
        },
    }
}

impl<'a> Probe<'a> {
    /// The status code that a response must carry, `None` for a TCP
    /// connection, where being connected is all that is asked.
    pub open spec fn spec_expected(&self) -> Option<u16> {
        match *self {
            Probe::Connect { .. } => None,
            Probe::Get { .. } => Some(HTTP_OK),
            Probe::PostForm { ok, .. } => Some(ok),
            Probe::PostJson { ok, .. } => Some(ok),
        }
    }

    /// The status code that a response must carry, `None` for a TCP
    /// connection.
    #[verifier::when_used_as_spec(spec_expected)]
    pub fn expected(&self) -> (e: Option<u16>)
        ensures
            e == self.spec_expected(),
    {
        match self {
            Probe::Connect { .. } => None,
            Probe::Get { .. } => Some(HTTP_OK),
            Probe::PostForm { ok, .. } => Some(*ok),
            Probe::PostJson { ok, .. } => Some(*ok),
        }
    }

    /// Whether a response with this status is a success. The caller reads the
    /// body of a response only where this is `false`.
    pub open spec fn spec_accepts(&self, status: u16) -> bool {
        self.spec_expected() == Some(status)
    }

    /// Whether a response with this status is a success.
    #[verifier::when_used_as_spec(spec_accepts)]
    pub fn accepts(&self, status: u16) -> (yes: bool)
        ensures
            yes == self.spec_accepts(status),
    {
        match self.expected() {
            Some(ok) => status == ok,
            None => false,
        }
    }
}

impl CheckFailure {
    /// The failure in words, as it appears in the result line.
    pub open spec fn detail_text(&self) -> Seq<char> {
        match *self {
            CheckFailure::Transport { detail } => detail@,
            CheckFailure::Status { code, body } => status_detail(code as nat, body_text(body)),
            CheckFailure::NoResponse => "no response received"@,
        }
    }

    /// The failure in words, as it appears in the result line.
    pub fn detail(&self) -> (s: String)
        ensures
            s@ == self.detail_text(),
    {
        match self {
            CheckFailure::Transport { detail } => detail.clone(),
            CheckFailure::Status { code, body } => {
                let mut s = String::from_str("\n\tStatus: ");
                push_decimal(&mut s, *code as u128);
                s.append("\n\tDetails: ");
                match body {
                    Some(text) => s.append(text.as_str()),
                    None => {},
                }
                assert(s@ =~= self.detail_text());
                s
            },
            CheckFailure::NoResponse => String::from_str("no response received"),
        }
    }
}

/// A copy of a response body.
fn copy_body(body: &Option<String>) -> (copy: Option<String>)
    ensures
        copy == *body,
{
    match body {
        Some(text) => Some(text.clone()),
        None => None,
    }
}

impl Resource {
    /// The operation that checks this target.
    ///
    /// A TCP target is connected to, whatever its custom options say. An HTTP
    /// target without custom options is fetched with `GET`. With custom
    /// options the form parameters are posted if there are any, otherwise the
    /// JSON value if there is one; with neither the target falls back to the
    /// plain `GET`.
    pub open spec fn spec_probe(&self) -> Probe<'_> {
        match self.kind {
            ResType::Tcp => Probe::Connect { addr: &self.addr },
            ResType::Http => match self.custom {
                Some(HttpOptions { params: Some(params), json: _, ok }) => Probe::PostForm {
                    addr: &self.addr,
                    params: &params,
                    ok,
                },
                Some(HttpOptions { params: None, json: Some(json), ok }) => Probe::PostJson {
                    addr: &self.addr,
                    json: &json,
                    ok,
                },
                _ => Probe::Get { addr: &self.addr },
            },
        }
    }

    /// The operation that checks this target.
    #[verifier::when_used_as_spec(spec_probe)]
    pub fn probe(&self) -> (p: Probe<'_>)
        ensures
            p == self.spec_probe(),
    {
        match self.kind {
            ResType::Tcp => Probe::Connect { addr: &self.addr },
            ResType::Http => match &self.custom {
                Some(options) => match &options.params {
                    Some(params) => Probe::PostForm { addr: &self.addr, params, ok: options.ok },
                    None => match &options.json {
                        Some(json) => Probe::PostJson { addr: &self.addr, json, ok: options.ok },
                        None => Probe::Get { addr: &self.addr },
                    },
                },
                None => Probe::Get { addr: &self.addr },
            },
        }
    }

    /// Success or failure of this target's check, given the reply to its
    /// probe.
    ///
    /// A transport failure fails every check, with the transport's own words.
    /// A TCP check succeeds as soon as a connection was established. An HTTP
    /// check succeeds if and only if a response arrived whose status is the
    /// expected one: `200` for a plain `GET`, the `ok` of the custom options
    /// for a `POST`.
    pub open spec fn verdict(&self, reply: Reply) -> Result<(), CheckFailure> {
        judge(self.spec_probe().spec_expected(), reply)
    }

    /// Judges the reply to this target's probe.
    pub fn check(&self, reply: &Reply) -> (r: Result<(), CheckFailure>)
        ensures
            r == self.verdict(*reply),
    {
        match self.kind {
            ResType::Tcp => self.check_tcp(reply),
            ResType::Http => match &self.custom {
                Some(options) => self.check_http_custom(options, reply),
                None => self.check_http_basic(reply),
            },
        }
    }

    /// Judges the reply to a plain `GET`: only `200 OK` is a success.
    fn check_http_basic(&self, reply: &Reply) -> (r: Result<(), CheckFailure>)
        ensures
            r == judge(Some(HTTP_OK), *reply),
    {
        respond(HTTP_OK, reply)
    }

    /// Judges the reply to the check of a target with custom options.
    fn check_http_custom(&self, options: &HttpOptions, reply: &Reply) -> (r: Result<
        (),
        CheckFailure,
    >)
        ensures
            r == judge(
                if options.params is Some || options.json is Some {
                    Some(options.ok)
                } else {
                    Some(HTTP_OK)
                },
                *reply,
            ),
    {
        if options.params.is_some() || options.json.is_some() {
            self.custom_http_resp(options, reply)
        } else {
            self.check_http_basic(reply)
        }
    }

    /// Judges the reply to a `POST`: the status must be the `ok` of the
    /// options.
    fn custom_http_resp(&self, options: &HttpOptions, reply: &Reply) -> (r: Result<
        (),
        CheckFailure,
    >)
        ensures
            r == judge(Some(options.ok), *reply),
    {
        respond(options.ok, reply)
    }

    /// Judges the reply to a TCP connection attempt.
    fn check_tcp(&self, reply: &Reply) -> (r: Result<(), CheckFailure>)
        ensures
            r == judge(None, *reply),
    {
        match reply {
            Reply::Failed { detail } => Err(CheckFailure::Transport { detail: detail.clone() }),
            _ => Ok(()),
        }
    }
}

/// Judges the reply to an HTTP request that expects the status `ok`.
fn respond(ok: u16, reply: &Reply) -> (r: Result<(), CheckFailure>)
    ensures
        r == judge(Some(ok), *reply),
{
    match reply {
        Reply::Failed { detail } => Err(CheckFailure::Transport { detail: detail.clone() }),
        Reply::Connected => Err(CheckFailure::NoResponse),
        Reply::Response { status, body } => {
            if *status == ok {
                Ok(())
            } else {
                Err(CheckFailure::Status { code: *status, body: copy_body(body) })
            }
        },
    }
}

/// A TCP target is reached exactly when a connection was established, whatever
/// its custom options say; when the connection failed, the failure carries the
/// transport's own words.
pub proof fn lemma_tcp_verdict(target: Resource, reply: Reply)
    requires
        target.kind == ResType::Tcp,
    ensures
        target.spec_probe() == (Probe::Connect { addr: &target.addr }),
        target.verdict(reply) is Ok <==> !(reply is Failed),
        reply matches Reply::Failed { detail } ==> target.verdict(reply) == Err::<
            (),
            CheckFailure,
        >(CheckFailure::Transport { detail }),
{
}

/// An HTTP target without custom options is fetched with `GET`, and a response
/// is a success exactly when its status is `200`. Any other status is a
/// failure that holds the status code and the body, and the code's digits
/// stand in the failure's words.
pub proof fn lemma_plain_http_verdict(target: Resource, status: u16, body: Option<String>)
    requires
        target.kind == ResType::Http,
        target.custom is None,
    ensures
        target.spec_probe() == (Probe::Get { addr: &target.addr }),
        target.verdict(Reply::Response { status, body }) is Ok <==> status == HTTP_OK,
        status != HTTP_OK ==> target.verdict(Reply::Response { status, body }) == Err::<
            (),
            CheckFailure,
        >(CheckFailure::Status { code: status, body }),
        occurs_in(decimal(status as nat), (CheckFailure::Status { code: status, body }).detail_text()),
{
    lemma_occurs_between("\n\tStatus: "@, decimal(status as nat), "\n\tDetails: "@ + body_text(body));
    assert("\n\tStatus: "@ + decimal(status as nat) + ("\n\tDetails: "@ + body_text(body))
        =~= status_detail(status as nat, body_text(body)));
}

/// An HTTP target with custom options posts one body: the form parameters if
/// there are any, even beside a JSON value, otherwise the JSON value. A
/// response is a success exactly when its status is the `ok` of the options;
/// any other status is a failure that holds the status code and the body.
pub proof fn lemma_custom_http_verdict(target: Resource, status: u16, body: Option<String>)
    requires
        target.kind == ResType::Http,
        target.custom matches Some(options) && (options.params is Some || options.json is Some),
    ensures
        target.custom->0.params matches Some(params) ==> target.spec_probe() == (Probe::PostForm {
            addr: &target.addr,
            params: &params,
            ok: target.custom->0.ok,
        }),
        target.custom->0.params is None ==> target.spec_probe() == (Probe::PostJson {
            addr: &target.addr,
            json: &target.custom->0.json->0,
            ok: target.custom->0.ok,
        }),
        target.verdict(Reply::Response { status, body }) is Ok <==> status == target.custom->0.ok,
        status != target.custom->0.ok ==> target.verdict(Reply::Response { status, body }) == Err::<
            (),
            CheckFailure,
        >(CheckFailure::Status { code: status, body }),
{
}

/// Custom options that hold neither form parameters nor a JSON value leave
/// the target with the plain check: `GET`, and `200` as the only success.
pub proof fn lemma_empty_custom_falls_back(target: Resource, reply: Reply)
    requires
        target.kind == ResType::Http,
        target.custom matches Some(options) && options.params is None && options.json is None,
    ensures
        target.spec_probe() == (Probe::Get { addr: &target.addr }),
        target.verdict(reply) == judge(Some(HTTP_OK), reply),
{
}

} // verus!
