//! Bearer token authentication.

use hyper::header::HeaderMap;
use vstd::prelude::*;
use vstd::string::*;

use crate::message::{
    first_value, header_fields, header_values, is_text_byte, no_field_of_a_name_no_value,
    text_of_bytes, the_first_field_of_a_name_comes_first, values_are_text_byte_by_byte,
};
use crate::proxy::ProxyRequest;
use crate::reply::{error_reply, error_response, ErrorReply, ReplyView, UNAUTHORIZED};
use crate::text::same_text;

verus! {

/// The text of the `Authorization` field of a request: that of the first such
/// field, where it is text.
pub open spec fn authorization(headers: HeaderMap) -> Option<Seq<char>> {
    let values = header_values(headers, "authorization"@);
    if values.len() == 0 {
        None
    } else {
        text_of_bytes(values[0])
    }
}

/// What a client writes in the `Authorization` field to present a token.
pub open spec fn bearer(token: Seq<char>) -> Seq<char> {
    "Bearer "@ + token
}

/// The reply to a request that presents `header` where `expected` is the token:
/// nothing where the request may pass.
pub open spec fn refusal(header: Option<Seq<char>>, expected: Option<Seq<char>>) -> Option<
    ReplyView,
> {
    match (expected, header) {
        (None, _) => None,
        (Some(token), Some(text)) => if text == bearer(token) {
            None
        } else if "Bearer "@.is_prefix_of(text) {
            Some(error_reply(UNAUTHORIZED, "Invalid token"@))
        } else {
            Some(
                error_reply(
                    UNAUTHORIZED,
                    "Invalid authorization format, expected: Bearer <token>"@,
                ),
            )
        },
        (Some(_), None) => Some(error_reply(UNAUTHORIZED, "Missing Authorization header"@)),
    }
}

/// The contents of an optional text.
pub open spec fn opt_text(text: Option<&str>) -> Option<Seq<char>> {
    match text {
        Some(t) => Some(t@),
        None => None,
    }
}

/// The verdict as an option: the reply of a refusal.
pub open spec fn refused_with(verdict: Result<(), ErrorReply>) -> Option<ReplyView> {
    match verdict {
        Ok(()) => None,
        Err(reply) => Some(reply@),
    }
}

/// Decides on a request by the text of its `Authorization` field.
pub fn check_bearer(header: Option<&str>, expected_token: Option<&str>) -> (verdict: Result<
    (),
    ErrorReply,
>)
    ensures
        refused_with(verdict) == refusal(opt_text(header), opt_text(expected_token)),
{
    let expected = match expected_token {
        Some(token) => token,
        None => return Ok(()),
    };
    proof {
        reveal_strlit("Bearer ");
    }
    match header {
        Some(value) => {
            let length: usize = value.unicode_len();
            if length >= 7 && same_text(value.substring_char(0, 7), "Bearer ") {
                let token = value.substring_char(7, length);
                assert(value@ =~= bearer(token@));
                assert("Bearer "@.is_prefix_of(value@));
                if same_text(token, expected) {
                    Ok(())
                } else {
                    assert(bearer(expected@).subrange(7, bearer(expected@).len() as int)
                        =~= expected@);
                    assert(value@.subrange(7, value@.len() as int) =~= token@);
                    Err(error_response(UNAUTHORIZED, "Invalid token"))
                }
            } else {
                assert(!"Bearer "@.is_prefix_of(value@)) by {
                    if "Bearer "@.is_prefix_of(value@) {
                        assert(value@.subrange(0, 7) =~= "Bearer "@);
                    }
                }
                assert("Bearer "@.is_prefix_of(bearer(expected@)));
                Err(
                    error_response(
                        UNAUTHORIZED,
                        "Invalid authorization format, expected: Bearer <token>",
                    ),
                )
            }
        },
        None => Err(error_response(UNAUTHORIZED, "Missing Authorization header")),
    }
}

/// Decides on a request by its headers: without an expected token every request
/// passes; with one, those that present it as a bearer token.
pub fn check_auth<B>(req: &ProxyRequest<B>, expected_token: Option<&str>) -> (verdict: Result<
    (),
    ErrorReply,
>)
    ensures
        refused_with(verdict) == refusal(authorization(req.headers), opt_text(expected_token)),
{
    proof {
        reveal_strlit("authorization");
    }
    let header = match first_value(&req.headers, "authorization") {
        Some(value) => match value.to_str() {
            Ok(text) => Some(text),
            Err(_) => None,
        },
        None => None,
    };
    check_bearer(header, expected_token)
}

/// A token passes exactly where it is the expected one: the request that
/// presents `token` is let through if and only if `token` is `expected`.
pub proof fn only_the_token_passes(token: Seq<char>, expected: Seq<char>)
    ensures
        refusal(Some(bearer(token)), Some(expected)) is None <==> token == expected,
{
    let prefix = "Bearer "@;
    assert(token =~= bearer(token).subrange(prefix.len() as int, bearer(token).len() as int));
    assert(expected =~= bearer(expected).subrange(
        prefix.len() as int,
        bearer(expected).len() as int,
    ));
}

/// Whatever is refused is refused with the status of failed authentication.
pub proof fn refusals_are_unauthorized(header: Option<Seq<char>>, expected: Option<Seq<char>>)
    ensures
        refusal(header, expected) matches Some(reply) ==> reply.status == UNAUTHORIZED,
{
}

/// A client that writes `Bearer ` and the expected token in its first
/// `Authorization` field passes, for every token of header text.
pub proof fn bearer_token_passes(headers: HeaderMap, token: Seq<char>)
    requires
        forall|i: int|
            0 <= i < token.len() ==> (' ' <= #[trigger] token[i] && token[i] <= '~') || token[i]
                == '\t',
        header_values(headers, "authorization"@).len() > 0,
        header_values(headers, "authorization"@)[0] == bearer(token).map_values(|c: char| c as u8),
    ensures
        refusal(authorization(headers), Some(token)) is None,
{
    reveal_strlit("Bearer ");
    let bytes = bearer(token).map_values(|c: char| c as u8);
    assert forall|i: int| 0 <= i < bytes.len() implies is_text_byte(#[trigger] bytes[i])
        && bytes[i] as char == bearer(token)[i] by {
        if i < 7 {
            assert(bearer(token)[i] == "Bearer "@[i]);
            assert(i == 0 || i == 1 || i == 2 || i == 3 || i == 4 || i == 5 || i == 6);
        } else {
            assert(bearer(token)[i] == token[i - 7]);
        }
    }
    assert(bytes.map_values(|b: u8| b as char) =~= bearer(token));
}

/// What is seen of a verdict and of an optional text is all there is to them.
pub proof fn verdicts_are_seen_whole(verdict: Result<(), ErrorReply>, text: Option<&str>)
    ensures
        verdict is Ok <==> refused_with(verdict) is None,
        verdict matches Err(reply) ==> {
            &&& refused_with(verdict)->0.status == reply.status
            &&& refused_with(verdict)->0.content_type == reply.content_type@
            &&& refused_with(verdict)->0.body == reply.body@
        },
        text is None <==> opt_text(text) is None,
        text matches Some(t) ==> opt_text(text)->0 == t@,
{
}

/// Where no token is expected, no request is refused, whatever its `Authorization`
/// field says and whether it has one or not.
pub proof fn without_a_token_every_request_passes(header: Option<Seq<char>>)
    ensures
        refusal(header, None) is None,
{
}

/// Where a token is expected, a request passes exactly where its `Authorization`
/// field is `Bearer `, followed by the token and nothing else.
pub proof fn with_a_token_only_its_bearer_passes(header: Option<Seq<char>>, token: Seq<char>)
    ensures
        refusal(header, Some(token)) is None <==> header == Some("Bearer "@ + token),
{
}

/// A request is told why it is refused: because it has no `Authorization` field,
/// because the field does not begin with `Bearer `, or because of the token in it.
pub proof fn refusals_say_why(header: Option<Seq<char>>, token: Seq<char>, presented: Seq<char>)
    ensures
        refusal(None, Some(token)) matches Some(reply) && reply.status == 401
            && reply.content_type == "application/json"@ && reply.body
            == "{\"error\": \""@ + "Missing Authorization header"@ + "\"}"@,
        presented != token ==> (refusal(Some("Bearer "@ + presented), Some(token)) matches Some(
            reply,
        ) && reply.status == 401 && reply.content_type == "application/json"@ && reply.body
            == "{\"error\": \""@ + "Invalid token"@ + "\"}"@),
        header matches Some(text) && !"Bearer "@.is_prefix_of(text) ==> (refusal(
            header,
            Some(token),
        ) matches Some(reply) && reply.status == 401 && reply.content_type
            == "application/json"@ && reply.body == "{\"error\": \""@
            + "Invalid authorization format, expected: Bearer <token>"@ + "\"}"@),
{
    only_the_token_passes(presented, token);
    assert("Bearer "@.is_prefix_of("Bearer "@ + presented));
    assert("Bearer "@.is_prefix_of("Bearer "@ + token));
}

/// Of the fields of a request the first one named `authorization` is read: where its
/// value is visible ASCII, blanks and tabs, character by character, else as if it
/// were not there.
pub proof fn the_first_authorization_field_is_read(headers: HeaderMap, k: int)
    requires
        0 <= k < header_fields(headers).len(),
        header_fields(headers)[k].0 == "authorization"@,
        forall|j: int|
            0 <= j < k ==> (#[trigger] header_fields(headers)[j]).0 != "authorization"@,
    ensures
        ({
            let bytes = header_fields(headers)[k].1;
            if forall|i: int|
                0 <= i < bytes.len() ==> (32 <= #[trigger] bytes[i] <= 126 || bytes[i] == 9) {
                authorization(headers) == Some(Seq::new(bytes.len(), |i: int| bytes[i] as char))
            } else {
                authorization(headers) is None
            }
        }),
{
    the_first_field_of_a_name_comes_first(header_fields(headers), "authorization"@, k);
    values_are_text_byte_by_byte(header_fields(headers)[k].1);
}

/// A request without a field named `authorization` presents nothing.
pub proof fn without_an_authorization_field_nothing_is_read(headers: HeaderMap)
    requires
        forall|j: int|
            0 <= j < header_fields(headers).len() ==> (#[trigger] header_fields(headers)[j]).0
                != "authorization"@,
    ensures
        authorization(headers) is None,
{
    no_field_of_a_name_no_value(header_fields(headers), "authorization"@);
}

} // verus!
