//! The plain values that cross the bridge: request metadata on the way in,
//! responses on the way out.

use vstd::prelude::*;

verus! {

/// Names the completion slot of one submitted request. The connection that
/// submitted the request keeps it to ask for the response.
pub type Ticket = u64;

/// A snapshot of an inbound request. The bridge carries it to the engine
/// untouched.
#[derive(Clone, Debug, PartialEq, Eq)]
pub struct RequestMeta {
    pub method: String,
    pub url: String,
    pub headers: Vec<(String, String)>,
    pub body: String,
}

/// A queued request together with the ticket of its completion slot.
#[derive(Debug, PartialEq, Eq)]
pub struct PendingRequest {
    pub ticket: Ticket,
    pub meta: RequestMeta,
}

/// What the network side learns when it asks for the response to a ticket.
#[derive(Debug, PartialEq, Eq)]
pub enum Reply {
    /// The engine has answered; the slot is used up.
    Ready(String),
    /// No answer yet, and one may still come: the connection suspends.
    Waiting,
    /// No answer came before the bridge closed; the slot is dropped.
    Failed,
    /// The ticket names no slot: it was never issued, or its slot has
    /// already been read or abandoned.
    Unknown,
}

/// The response that goes back on the connection.
#[derive(Clone, Debug, PartialEq, Eq)]
pub struct Response {
    pub status: u16,
    pub content_type: String,
    pub body: String,
}

impl Response {
    /// The answer for an engine-made body: status 200, `text/html`.
    pub open spec fn is_html(&self, body: Seq<char>) -> bool {
        &&& self.status == 200
        &&& self.content_type@ == "text/html"@
        &&& self.body@ == body
    }

    /// The answer when no response will ever come from the engine: status
    /// 200, `text/html`, and a fixed error body.
    pub open spec fn is_fallback(&self) -> bool {
        self.is_html("<h2>error</h2>"@)
    }

    /// Wraps an engine-made body.
    pub fn html(body: String) -> (r: Self)
        ensures
            r.is_html(body@),
            r.body == body,
    {
        Response { status: 200, content_type: "text/html".to_string(), body }
    }

    /// The answer given in place of a response that cannot come.
    pub fn fallback() -> (r: Self)
        ensures
            r.is_fallback(),
    {
        Response::html("<h2>error</h2>".to_string())
    }

    /// Decides what to send for a reply: the engine's body, the fallback
    /// where none can come, nothing while the connection has to wait.
    pub fn for_reply(reply: Reply) -> (r: Option<Self>)
        ensures
            match reply {
                Reply::Ready(body) => r is Some && r->0.is_html(body@) && r->0.body == body,
                Reply::Waiting => r is None,
                Reply::Failed => r is Some && r->0.is_fallback(),
                Reply::Unknown => r is Some && r->0.is_fallback(),
            },
    {
        match reply {
            Reply::Ready(body) => Some(Response::html(body)),
            Reply::Waiting => None,
            Reply::Failed => Some(Response::fallback()),
            Reply::Unknown => Some(Response::fallback()),
        }
    }
}

} // verus!
