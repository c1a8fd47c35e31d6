//! The data model: one endpoint to check, and what a custom HTTP check sends
//! and expects.

use std::collections::HashMap;
use vstd::prelude::*;

verus! {

/// `serde_json::Value`, any JSON value. The library never looks inside one: a
/// target carries it from its definition to the request that posts it.
#[verifier::external_type_specification]
#[verifier::external_body]
pub struct ExJsonValue(serde_json::Value);

/// The kind of endpoint. It decides which operation checks a target.
#[derive(Debug, Clone, Copy, PartialEq, Eq, Structural)]
pub enum ResType {
    /// An HTTP(S) URL.
    Http,
    /// A TCP socket, `host:port`.
    Tcp,
}

/// What a custom HTTP check posts, and the status code that counts as success.
///
/// At most one body is sent: the form parameters if there are any, otherwise
/// the JSON value. With neither, the target is checked with a plain `GET`.
#[derive(Debug, Clone, PartialEq)]
pub struct HttpOptions {
    /// Form fields to post, URL-encoded.
    pub params: Option<HashMap<String, String>>,
    /// A JSON value to post. Ignored when `params` is present.
    pub json: Option<serde_json::Value>,
    /// The status code of a successful response.
    pub ok: u16,
}

/// One endpoint to check.
#[derive(Debug, Clone, PartialEq)]
pub struct Resource {
    /// A label for people. It appears in the result line and nowhere else.
    pub desc: String,
    /// Where to connect: `host:port` for TCP, a full URL for HTTP.
    pub addr: String,
    /// Custom HTTP behaviour. Has no meaning for a TCP target.
    pub custom: Option<HttpOptions>,
    /// The kind of endpoint.
    pub kind: ResType,
    /// The result line. Absent until the target has been checked.
    pub res: Option<String>,
}

impl Resource {
    /// A target that has not been checked yet.
    pub fn new(desc: String, addr: String, kind: ResType, custom: Option<HttpOptions>) -> (r: Resource)
        ensures
            r.desc == desc,
            r.addr == addr,
            r.kind == kind,
            r.custom == custom,
            r.res is None,
    {
        Resource { desc, addr, custom, kind, res: None }
    }

    /// Whether the target still waits for its check.
    pub open spec fn pending(&self) -> bool {
        self.res is None
    }
}

/// The targets of one run, in the order in which they were declared. Results
/// are recorded and reported in that order, whichever check finishes first.
#[derive(Debug, Clone, PartialEq)]
pub struct NetworkResources {
    /// The targets, in declaration order.
    pub target: Vec<Resource>,
}

} // verus!
