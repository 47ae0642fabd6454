//! Reading the gateway's answers.
use vstd::prelude::*;
use vstd::string::StringSliceAdditionalSpecFns;
use vstd::utf8::{decode_utf8, encode_utf8, encode_utf8_decode_utf8};

use crate::quota::{ball_quota_of, remaining_tenths};
use crate::text::{
    contains_pattern, extract_token, find_char, find_pattern, first_char_from, handle_of,
    has_token_window, session_handle, token_window,
};
use crate::types::{LoginError, OnlineUserInfo, Service, Status};

verus! {

/// The status code of a page that the gateway served as asked.
pub const HTTP_OK: u16 = 200;

/// Attempts at the session details before giving up.
pub const INFO_ATTEMPTS: u32 = 5;

/// The gateway's answer to the session-details request, as the host decoded it.
#[derive(Clone, Debug, PartialEq, Eq)]
pub struct InfoReply {
    /// The `result` field: `success` once the session can be described.
    pub result: String,
    /// The `userName` field.
    pub user_name: String,
    /// The `welcomeTip` field.
    pub welcome_tip: String,
    /// The `value` of each entry of the list that the `ballInfo` field encodes;
    /// `None` where the field is missing or does not decode.
    pub ball_values: Option<Vec<Option<String>>>,
}

/// What to do after an answer to the session-details request.
#[derive(Clone, Debug, PartialEq, Eq)]
pub enum InfoStep {
    /// The session is described.
    Ready(OnlineUserInfo),
    /// Not yet described: ask again after a pause.
    Retry,
    /// Every attempt is spent.
    GiveUp,
}

/// The text `success`.
pub open spec fn success_text() -> Seq<char> {
    seq!['s', 'u', 'c', 'c', 'e', 's', 's']
}

/// The text `terminal failed`.
pub open spec fn terminal_failed_text() -> Seq<char> {
    seq!['t', 'e', 'r', 'm', 'i', 'n', 'a', 'l', ' ', 'f', 'a', 'i', 'l', 'e', 'd']
}

/// The remaining quota that an answer gives.
pub open spec fn reply_quota(reply: InfoReply) -> Option<int> {
    match reply.ball_values {
        Some(v) => ball_quota_of(v@),
        None => None,
    }
}

/// `info` is what an answer says of the session, with the credential that was sent.
pub open spec fn describes(info: OnlineUserInfo, reply: InfoReply, encrypted_password: String) -> bool {
    &&& info.user_name == reply.user_name
    &&& info.welcome_tip == reply.welcome_tip
    &&& info.encrypted_password == encrypted_password
    &&& match reply_quota(reply) {
        Some(q) => info.left_tenths == Some(q as i64),
        None => info.left_tenths is None,
    }
}

/// What the root page says, at the level of text.
pub enum ProbeView {
    /// A status other than 200.
    TimedOut,
    /// A page from which neither a session handle nor a token can be read.
    Malformed,
    /// Logged in, with this session handle.
    Authenticated(Seq<char>),
    /// Not logged in, with this continuation token.
    Unauthenticated(Seq<char>),
}

/// What the root page says, from its status code, final URL and body.
pub open spec fn status_view(code: u16, url: Seq<char>, body: Seq<char>) -> ProbeView {
    if code != HTTP_OK {
        ProbeView::TimedOut
    } else if first_char_from(url, '?', 0) is Some {
        match handle_of(url) {
            Some(h) => ProbeView::Authenticated(h),
            None => ProbeView::Malformed,
        }
    } else if has_token_window(encode_utf8(body)) {
        ProbeView::Unauthenticated(decode_utf8(token_window(encode_utf8(body))))
    } else {
        ProbeView::Malformed
    }
}

/// Reads the gateway's root page, reached with redirects followed: the status
/// code, the final URL and the body. A status other than 200 is
/// [`LoginError::TimeOut`]. A URL with a query means logged in, with the session
/// handle after the first `=` of the query. Otherwise the body carries the
/// continuation token in the window from byte 71 to 12 bytes before its end.
pub fn check_status(code: u16, url: &str, body: &str) -> (r: Result<Status, LoginError>)
    ensures
        match status_view(code, url@, body@) {
            ProbeView::TimedOut => r == Err::<Status, LoginError>(LoginError::TimeOut),
            ProbeView::Malformed => r matches Err(LoginError::BadResponse(_)),
            ProbeView::Authenticated(h) => r matches Ok(Status::LoggedIn(x)) && x@ == h,
            ProbeView::Unauthenticated(t) => r matches Ok(Status::NotLoggedIn(x)) && x@ == t,
        },
        r matches Ok(Status::NotLoggedIn(t)) ==> encode_utf8(t@) == token_window(body.spec_bytes()),
{
    if code != HTTP_OK {
        return Err(LoginError::TimeOut);
    }
    if find_char(url, '?', 0).is_some() {
        match session_handle(url) {
            Some(h) => Ok(Status::LoggedIn(h)),
            None => Err(LoginError::BadResponse("no session handle in the redirect".to_owned())),
        }
    } else {
        match extract_token(body) {
            Some(t) => {
                proof {
                    encode_utf8_decode_utf8(t@);
                }
                Ok(Status::NotLoggedIn(t))
            },
            None => Err(LoginError::BadResponse("root page too short for a token".to_owned())),
        }
    }
}

/// Decides on an answer to the session-details request, where `attempt`
/// counts the answers before this one. A `success` result describes the
/// session, with the remaining quota where the list of entries gives one. Any
/// other result asks for another attempt until five have been made.
pub fn user_info_step(attempt: u32, reply: InfoReply, encrypted_password: String) -> (r: InfoStep)
    ensures
        reply.result@ == success_text() ==> (r matches InfoStep::Ready(info) && describes(
            info,
            reply,
            encrypted_password,
        )),
        reply.result@ != success_text() && attempt + 1 < INFO_ATTEMPTS ==> r is Retry,
        reply.result@ != success_text() && attempt + 1 >= INFO_ATTEMPTS ==> r is GiveUp,
{
    let success = "success";
    proof {
        reveal_strlit("success");
        assert(success@ =~= success_text());
    }
    if reply.result == success.to_owned() {
        let left_tenths = match &reply.ball_values {
            Some(v) => remaining_tenths(v),
            None => None,
        };
        InfoStep::Ready(
            OnlineUserInfo {
                user_name: reply.user_name,
                welcome_tip: reply.welcome_tip,
                left_tenths,
                encrypted_password,
            },
        )
    } else if attempt < INFO_ATTEMPTS - 1 {
        InfoStep::Retry
    } else {
        InfoStep::GiveUp
    }
}

/// Tells whether a rejected login is retried once on the campus network: the
/// gateway's message says `terminal failed` and another service was chosen.
pub fn should_fall_back(message: &str, service: Service) -> (r: bool)
    ensures
        r == (contains_pattern(message@, terminal_failed_text()) && service != Service::Internet),
{
    let pattern = "terminal failed";
    proof {
        reveal_strlit("terminal failed");
        assert(pattern@ =~= terminal_failed_text());
    }
    match service {
        Service::Internet => false,
        _ => find_pattern(message, pattern).is_some(),
    }
}

} // verus!
