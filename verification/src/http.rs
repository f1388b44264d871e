//! Replies to HTTP requests.

use vstd::prelude::*;

verus! {

/// A reply: its status, its header if it has one, and its body.
#[verifier::ext_equal]
pub struct Reply {
    pub status: u16,
    pub header: Option<(Seq<char>, Seq<char>)>,
    pub body: Seq<char>,
}

/// A reply to an HTTP request.
pub struct Response {
    pub status: u16,
    /// Name and value of the header that the reply has.
    pub header: Option<(&'static str, &'static str)>,
    pub body: String,
}

impl View for Response {
    type V = Reply;

    open spec fn view(&self) -> Reply {
        Reply {
            status: self.status,
            header: match self.header {
                Some((name, value)) => Some((name@, value@)),
                None => None,
            },
            body: self.body@,
        }
    }
}

/// A reply without header.
pub open spec fn plain(status: u16, body: Seq<char>) -> Reply {
    Reply { status, header: None, body }
}

/// A reply with one header.
pub open spec fn with_header(
    status: u16,
    name: Seq<char>,
    value: Seq<char>,
    body: Seq<char>,
) -> Reply {
    Reply { status, header: Some((name, value)), body }
}

impl Response {
    /// A reply without header and without body.
    pub fn empty(status: u16) -> (response: Self)
        ensures
            response@ == plain(status, Seq::empty()),
    {
        Response { status, header: None, body: String::new() }
    }

    /// A reply without header.
    pub fn text(status: u16, body: &str) -> (response: Self)
        ensures
            response@ == plain(status, body@),
    {
        Response { status, header: None, body: body.to_owned() }
    }
}

/// A reply is what it is made of.
pub proof fn law_replies_hold_what_they_are_given(
    status: u16,
    name: Seq<char>,
    value: Seq<char>,
    body: Seq<char>,
)
    ensures
        plain(status, body).status == status,
        plain(status, body).header is None,
        plain(status, body).body == body,
        with_header(status, name, value, body).status == status,
        with_header(status, name, value, body).header == Some((name, value)),
        with_header(status, name, value, body).body == body,
{
}

} // verus!
