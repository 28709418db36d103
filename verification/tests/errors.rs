use mpc::error_chain::ErrorChain;
use mpc::manager::error::{ErrorResponse, Reply};

fn cause() -> ErrorChain {
    ErrorChain::context("what happened", String::from("why"))
}

fn is_bare(reply: &Reply, status: u16) -> bool {
    reply.status == status && reply.content_type.is_none() && reply.body.is_empty()
}

#[test]
fn errors_that_say_nothing() {
    assert!(is_bare(&ErrorResponse::Unexpected(cause()).into_response(), 500));
    assert!(is_bare(&ErrorResponse::Internal(cause()).into_response(), 500));
    assert!(is_bare(&ErrorResponse::Unauthorized(cause()).into_response(), 401));
    assert!(is_bare(&ErrorResponse::Forbidden(cause()).into_response(), 403));
    assert!(is_bare(&ErrorResponse::Unprocessable.into_response(), 422));
    assert!(is_bare(&Reply::bare(204), 204));
}

#[test]
fn errors_that_say_what_happened() {
    let bad = ErrorResponse::BadRequest(cause()).into_response();
    assert_eq!((bad.status, bad.content_type, bad.body), (400, None, String::from("what happened")));
    let conflict = ErrorResponse::Conflict(cause()).into_response();
    assert_eq!(
        (conflict.status, conflict.content_type, conflict.body),
        (409, None, String::from("what happened"))
    );
    let absent = ErrorResponse::NotFound(cause()).into_response();
    assert_eq!(
        (absent.status, absent.content_type, absent.body),
        (
            404,
            Some(String::from("application/json")),
            String::from("{\"what\":\"what happened\"}")
        )
    );
}

#[test]
fn errors_in_the_log() {
    let tail = "\n\nCaused by:\n\twhat happened\nCaused by:\n\twhy\n";
    let expected = [
        (ErrorResponse::Internal(cause()), "Internal error"),
        (ErrorResponse::BadRequest(cause()), "Bad request"),
        (ErrorResponse::Unauthorized(cause()), "No such account"),
        (ErrorResponse::NotFound(cause()), "Not found error"),
        (ErrorResponse::Forbidden(cause()), "Have no access"),
        (ErrorResponse::Conflict(cause()), "Conflict error"),
    ];
    for (error, heading) in expected {
        assert_eq!(error.debug_text(), format!("{heading}{tail}"));
    }
    assert_eq!(ErrorResponse::Unprocessable.debug_text(), "Unprocessable entity\n\n");
    assert_eq!(
        ErrorResponse::Unexpected(cause()).debug_text(),
        "what happened\n\nCaused by:\n\twhy\n"
    );
}
