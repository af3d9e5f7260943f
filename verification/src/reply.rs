//! What a request is answered with.

use vstd::prelude::*;

verus! {

pub const OK: u16 = 200;

pub const BAD_REQUEST: u16 = 400;

pub const UNAUTHORIZED: u16 = 401;

pub const FORBIDDEN: u16 = 403;

pub const NOT_FOUND: u16 = 404;

pub const CONFLICT: u16 = 409;

pub const PAYLOAD_TOO_LARGE: u16 = 413;

pub const INTERNAL_SERVER_ERROR: u16 = 500;

pub const BAD_GATEWAY: u16 = 502;

pub const SERVICE_UNAVAILABLE: u16 = 503;

/// A status code and a message.
#[derive(Clone, Debug)]
pub struct Reply {
    pub status: u16,
    pub detail: String,
}

impl View for Reply {
    type V = (u16, Seq<char>);

    open spec fn view(&self) -> (u16, Seq<char>) {
        (self.status, self.detail@)
    }
}

/// A reply with a fixed message.
pub fn reply(status: u16, detail: &str) -> (r: Reply)
    ensures
        r@ == (status, detail@),
{
    Reply { status, detail: detail.to_owned() }
}

/// A reply with a message made up for it.
pub fn reply_with(status: u16, detail: String) -> (r: Reply)
    ensures
        r@ == (status, detail@),
{
    Reply { status, detail }
}

/// Each answer has the status that HTTP gives it.
pub proof fn law_statuses_are_those_of_http()
    ensures
        OK == 200,
        BAD_REQUEST == 400,
        UNAUTHORIZED == 401,
        FORBIDDEN == 403,
        NOT_FOUND == 404,
        CONFLICT == 409,
        PAYLOAD_TOO_LARGE == 413,
        INTERNAL_SERVER_ERROR == 500,
        BAD_GATEWAY == 502,
        SERVICE_UNAVAILABLE == 503,
{
}

/// An answer has the status and the words that it was given.
pub proof fn law_reply(status: u16, detail: &str, r: Reply, words: String, s: Reply)
    requires
        call_ensures(reply, (status, detail), r),
        call_ensures(reply_with, (status, words), s),
    ensures
        r.status == status && r.detail@ == detail@,
        s.status == status && s.detail@ == words@,
{
}

} // verus!
