//! Replies that the proxy gives of its own, in place of the backend's.

use vstd::prelude::*;
use vstd::string::*;

verus! {

/// The status of a reply to a request that fails authentication.
pub const UNAUTHORIZED: u16 = 401;

/// The status of a reply to a request that cannot be rebuilt for the backend.
pub const INTERNAL_SERVER_ERROR: u16 = 500;

/// The status of a reply for a backend that cannot be reached.
pub const BAD_GATEWAY: u16 = 502;

/// The status of a reply for a backend that did not start.
pub const SERVICE_UNAVAILABLE: u16 = 503;

/// An error reply: its status, the value of its `content-type` field, its body.
#[derive(Debug)]
pub struct ErrorReply {
    pub status: u16,
    pub content_type: String,
    pub body: String,
}

/// The contents of an error reply.
#[verifier::ext_equal]
pub struct ReplyView {
    pub status: u16,
    pub content_type: Seq<char>,
    pub body: Seq<char>,
}

impl View for ErrorReply {
    type V = ReplyView;

    open spec fn view(&self) -> ReplyView {
        ReplyView {
            status: self.status,
            content_type: self.content_type@,
            body: self.body@,
        }
    }
}

/// The error reply of a status and a message: a JSON object whose only member,
/// `error`, holds the message as it stands.
pub open spec fn error_reply(status: u16, message: Seq<char>) -> ReplyView {
    ReplyView {
        status,
        content_type: "application/json"@,
        body: "{\"error\": \""@ + message + "\"}"@,
    }
}

impl ErrorReply {
    /// The status of the reply.
    pub fn status(&self) -> (status: u16)
        ensures
            status == self@.status,
    {
        self.status
    }
}

/// Makes the error reply of a status and a message.
pub fn error_response(status: u16, message: &str) -> (reply: ErrorReply)
    ensures
        reply@ == error_reply(status, message@),
{
    let mut body = "{\"error\": \"".to_owned();
    body.append(message);
    body.append("\"}");
    ErrorReply { status, content_type: "application/json".to_owned(), body }
}

/// What is seen of a reply are its status, content type and body as they are.
pub proof fn replies_are_seen_whole(reply: ErrorReply)
    ensures
        reply@.status == reply.status,
        reply@.content_type == reply.content_type@,
        reply@.body == reply.body@,
{
}

/// An error reply has the status that it is made with, and is a JSON object with the
/// whole message between `{"error": "` and `"}`.
pub proof fn error_replies_hold_the_message(status: u16, message: Seq<char>)
    ensures
        error_reply(status, message).status == status,
        error_reply(status, message).content_type == "application/json"@,
        error_reply(status, message).body == "{\"error\": \""@ + message + "\"}"@,
{
}

/// The statuses of the proxy's own replies are those of HTTP.
pub proof fn statuses_are_those_of_http()
    ensures
        UNAUTHORIZED == 401,
        INTERNAL_SERVER_ERROR == 500,
        BAD_GATEWAY == 502,
        SERVICE_UNAVAILABLE == 503,
{
}

} // verus!
