//! The errors that the manager answers requests with.

use vstd::prelude::*;
use vstd::string::StringExecFns;

use crate::error_chain::{error_chain_fmt, ErrorChain, ErrorChainView};

verus! {

/// The result of a request.
pub type Result<T> = std::result::Result<T, ErrorResponse>;

/// Why a request failed.
pub enum ErrorResponse {
    Unexpected(ErrorChain),
    Internal(ErrorChain),
    BadRequest(ErrorChain),
    Unauthorized(ErrorChain),
    NotFound(ErrorChain),
    Forbidden(ErrorChain),
    Conflict(ErrorChain),
    Unprocessable,
}

/// An error by its characters.
#[verifier::ext_equal]
pub enum ErrorResponseView {
    Unexpected(ErrorChainView),
    Internal(ErrorChainView),
    BadRequest(ErrorChainView),
    Unauthorized(ErrorChainView),
    NotFound(ErrorChainView),
    Forbidden(ErrorChainView),
    Conflict(ErrorChainView),
    Unprocessable,
}

impl View for ErrorResponse {
    type V = ErrorResponseView;

    open spec fn view(&self) -> ErrorResponseView {
        match self {
            ErrorResponse::Unexpected(e) => ErrorResponseView::Unexpected(e@),
            ErrorResponse::Internal(e) => ErrorResponseView::Internal(e@),
            ErrorResponse::BadRequest(e) => ErrorResponseView::BadRequest(e@),
            ErrorResponse::Unauthorized(e) => ErrorResponseView::Unauthorized(e@),
            ErrorResponse::NotFound(e) => ErrorResponseView::NotFound(e@),
            ErrorResponse::Forbidden(e) => ErrorResponseView::Forbidden(e@),
            ErrorResponse::Conflict(e) => ErrorResponseView::Conflict(e@),
            ErrorResponse::Unprocessable => ErrorResponseView::Unprocessable,
        }
    }
}

/// What the manager sends back: a status, the type of the body where it has
/// one to name, and the body.
pub struct Reply {
    pub status: u16,
    pub content_type: Option<String>,
    pub body: String,
}

/// A reply by its characters.
#[verifier::ext_equal]
pub struct ReplyView {
    pub status: u16,
    pub content_type: Option<Seq<char>>,
    pub body: Seq<char>,
}

impl View for Reply {
    type V = ReplyView;

    open spec fn view(&self) -> ReplyView {
        ReplyView {
            status: self.status,
            content_type: match self.content_type {
                Some(content_type) => Some(content_type@),
                None => None,
            },
            body: self.body@,
        }
    }
}

/// A reply that is a status and nothing else.
pub open spec fn bare_reply(status: u16) -> ReplyView {
    ReplyView { status, content_type: None, body: Seq::empty() }
}

/// An error that nothing else caused.
pub open spec fn plain(message: Seq<char>) -> ErrorChainView {
    ErrorChainView { message, causes: seq![] }
}

/// An error that one other error caused.
pub open spec fn caused(message: Seq<char>, cause: Seq<char>) -> ErrorChainView {
    ErrorChainView { message, causes: seq![cause] }
}

/// What stands behind `e`, with `e` itself as the nearest cause.
pub open spec fn behind(message: Seq<char>, e: ErrorChainView) -> ErrorChainView {
    ErrorChainView { message, causes: seq![e.message] + e.causes }
}

impl ErrorResponseView {
    /// The error as a chain: an unexpected error speaks for itself, any other
    /// has a heading of its own in front of what caused it.
    pub open spec fn chain(self) -> ErrorChainView {
        match self {
            ErrorResponseView::Unexpected(e) => e,
            ErrorResponseView::Internal(e) => behind("Internal error"@, e),
            ErrorResponseView::BadRequest(e) => behind("Bad request"@, e),
            ErrorResponseView::Unauthorized(e) => behind("No such account"@, e),
            ErrorResponseView::NotFound(e) => behind("Not found error"@, e),
            ErrorResponseView::Forbidden(e) => behind("Have no access"@, e),
            ErrorResponseView::Conflict(e) => behind("Conflict error"@, e),
            ErrorResponseView::Unprocessable => plain("Unprocessable entity"@),
        }
    }

    /// The reply to a request that failed with this error. A bad request and a
    /// conflict carry the message as their body, an absent thing carries it in
    /// a JSON object; no other reply says more than its status.
    pub open spec fn reply(self) -> ReplyView {
        match self {
            ErrorResponseView::Unexpected(_) => bare_reply(500),
            ErrorResponseView::Internal(_) => bare_reply(500),
            ErrorResponseView::BadRequest(e) => ReplyView {
                status: 400,
                content_type: None,
                body: e.message,
            },
            ErrorResponseView::Unauthorized(_) => bare_reply(401),
            ErrorResponseView::NotFound(e) => ReplyView {
                status: 404,
                content_type: Some("application/json"@),
                body: "{\"what\":\""@ + e.message + "\"}"@,
            },
            ErrorResponseView::Forbidden(_) => bare_reply(403),
            ErrorResponseView::Conflict(e) => ReplyView {
                status: 409,
                content_type: None,
                body: e.message,
            },
            ErrorResponseView::Unprocessable => bare_reply(422),
        }
    }
}

impl Reply {
    /// A reply that is a status and nothing else.
    pub fn bare(status: u16) -> (reply: Self)
        ensures
            reply@ == bare_reply(status),
    {
        Reply { status, content_type: None, body: String::new() }
    }
}

impl ErrorResponse {
    /// The error as a chain.
    pub fn chain(&self) -> (chain: ErrorChain)
        ensures
            chain@ == self@.chain(),
    {
        match self {
            ErrorResponse::Unexpected(e) => e.copied(),
            ErrorResponse::Internal(e) => e.wrapped("Internal error"),
            ErrorResponse::BadRequest(e) => e.wrapped("Bad request"),
            ErrorResponse::Unauthorized(e) => e.wrapped("No such account"),
            ErrorResponse::NotFound(e) => e.wrapped("Not found error"),
            ErrorResponse::Forbidden(e) => e.wrapped("Have no access"),
            ErrorResponse::Conflict(e) => e.wrapped("Conflict error"),
            ErrorResponse::Unprocessable => ErrorChain::msg("Unprocessable entity"),
        }
    }

    /// The error with all that caused it, as the log shows it.
    pub fn debug_text(&self) -> (text: String)
        ensures
            text@ == crate::error_chain::chain_text(self@.chain()),
    {
        error_chain_fmt(&self.chain())
    }

    /// The reply to a request that failed with this error.
    pub fn into_response(self) -> (reply: Reply)
        ensures
            reply@ == self@.reply(),
    {
        match self {
            ErrorResponse::Unexpected(_) => Reply::bare(500),
            ErrorResponse::Internal(_) => Reply::bare(500),
            ErrorResponse::BadRequest(e) => {
                Reply { status: 400, content_type: None, body: e.message }
            },
            ErrorResponse::Unauthorized(_) => Reply::bare(401),
            ErrorResponse::NotFound(e) => {
                let mut body: String = "{\"what\":\"".to_owned();
                body.append(e.message.as_str());
                body.append("\"}");
                Reply { status: 404, content_type: Some("application/json".to_owned()), body }
            },
            ErrorResponse::Forbidden(_) => Reply::bare(403),
            ErrorResponse::Conflict(e) => {
                Reply { status: 409, content_type: None, body: e.message }
            },
            ErrorResponse::Unprocessable => Reply::bare(422),
        }
    }
}

/// Each error has its own status. A bad request and a conflict are answered with
/// the words of the error, an absent thing with those words in a JSON object, and
/// the others with nothing more.
pub proof fn law_replies(e: ErrorChainView)
    ensures
        ErrorResponseView::BadRequest(e).reply().status == 400,
        ErrorResponseView::BadRequest(e).reply().content_type is None,
        ErrorResponseView::BadRequest(e).reply().body == e.message,
        ErrorResponseView::Conflict(e).reply().status == 409,
        ErrorResponseView::Conflict(e).reply().content_type is None,
        ErrorResponseView::Conflict(e).reply().body == e.message,
        ErrorResponseView::NotFound(e).reply().status == 404,
        ErrorResponseView::NotFound(e).reply().content_type == Some("application/json"@),
        ErrorResponseView::NotFound(e).reply().body == "{\"what\":\""@ + e.message + "\"}"@,
        forall|error: ErrorResponseView|
            !(error is BadRequest || error is Conflict || error is NotFound) ==> (
            #[trigger] error.reply()).content_type is None && error.reply().body.len() == 0
                && error.reply().status == match error {
                ErrorResponseView::Unauthorized(_) => 401u16,
                ErrorResponseView::Forbidden(_) => 403u16,
                ErrorResponseView::Unprocessable => 422u16,
                _ => 500u16,
            },
{
}

/// In the log an unexpected error is its own chain. Any other stands in front of
/// it under its heading, with the error as the nearest cause and the rest behind.
pub proof fn law_log_of_errors(e: ErrorChainView, error: ErrorResponseView)
    requires
        error == ErrorResponseView::Internal(e) || error == ErrorResponseView::BadRequest(e)
            || error == ErrorResponseView::Unauthorized(e) || error == ErrorResponseView::NotFound(
            e,
        ) || error == ErrorResponseView::Forbidden(e) || error == ErrorResponseView::Conflict(e),
    ensures
        ErrorResponseView::Unexpected(e).chain() == e,
        error.chain().causes.len() == e.causes.len() + 1,
        error.chain().causes[0] == e.message,
        forall|i: int|
            0 <= i < e.causes.len() ==> error.chain().causes[i + 1] == #[trigger] e.causes[i],
        error.chain().message == match error {
            ErrorResponseView::Internal(_) => "Internal error"@,
            ErrorResponseView::BadRequest(_) => "Bad request"@,
            ErrorResponseView::Unauthorized(_) => "No such account"@,
            ErrorResponseView::NotFound(_) => "Not found error"@,
            ErrorResponseView::Forbidden(_) => "Have no access"@,
            _ => "Conflict error"@,
        },
        ErrorResponseView::Unprocessable.chain().message == "Unprocessable entity"@,
        ErrorResponseView::Unprocessable.chain().causes.len() == 0,
{
}

/// An error without a cause has its words alone, one with a cause has both.
pub proof fn law_plain_and_caused(message: Seq<char>, cause: Seq<char>)
    ensures
        plain(message).message == message,
        plain(message).causes.len() == 0,
        caused(message, cause).message == message,
        caused(message, cause).causes.len() == 1,
        caused(message, cause).causes[0] == cause,
{
}

/// An error and a reply are taken as they are.
pub proof fn law_error_views(error: ErrorResponse, reply: Reply)
    ensures
        match error {
            ErrorResponse::Unexpected(e) => error@ == ErrorResponseView::Unexpected(e@),
            ErrorResponse::Internal(e) => error@ == ErrorResponseView::Internal(e@),
            ErrorResponse::BadRequest(e) => error@ == ErrorResponseView::BadRequest(e@),
            ErrorResponse::Unauthorized(e) => error@ == ErrorResponseView::Unauthorized(e@),
            ErrorResponse::NotFound(e) => error@ == ErrorResponseView::NotFound(e@),
            ErrorResponse::Forbidden(e) => error@ == ErrorResponseView::Forbidden(e@),
            ErrorResponse::Conflict(e) => error@ == ErrorResponseView::Conflict(e@),
            ErrorResponse::Unprocessable => error@ == ErrorResponseView::Unprocessable,
        },
        reply@.status == reply.status,
        reply@.body == reply.body@,
        reply@.content_type is None <==> reply.content_type is None,
        reply.content_type matches Some(words) ==> reply@.content_type == Some(words@),
{
}

/// A failed request is answered with the reply of its error, and logged with the
/// error and all its causes.
pub proof fn law_failed_request(error: ErrorResponse, reply: Reply, text: String)
    requires
        call_ensures(ErrorResponse::into_response, (error,), reply),
        call_ensures(ErrorResponse::debug_text, (&error,), text),
    ensures
        reply@ == error@.reply(),
        reply.status == error@.reply().status,
        reply.body@ == error@.reply().body,
        text@ == crate::error_chain::chain_text(error@.chain()),
{
}

} // verus!
