//! HTTP responses, complete but for their transport.
use crate::extensions::{contents, Held};
use vstd::prelude::*;

verus! {

/// An HTTP response that is ready to be sent.
#[derive(Debug)]
pub struct Reply {
    /// The status code.
    pub status: u16,
    /// The value of the content type header, the only header that is set.
    pub content_type: &'static str,
    /// The body.
    pub body: Vec<u8>,
    /// What the layers around the server are told beside the response.
    pub extensions: http::Extensions,
}

/// The mathematical content of a [`Reply`].
#[verifier::ext_equal]
pub struct ReplyView {
    pub status: u16,
    pub content_type: Seq<char>,
    pub body: Seq<u8>,
    pub extensions: Held,
}

impl View for Reply {
    type V = ReplyView;

    open spec fn view(&self) -> ReplyView {
        ReplyView {
            status: self.status,
            content_type: self.content_type@,
            body: self.body@,
            extensions: contents(self.extensions),
        }
    }
}

/// Nothing of a reply is left out of its mathematical content.
pub proof fn lemma_reply_is_seen_in_full(reply: Reply)
    ensures
        reply@.status == reply.status,
        reply@.content_type == reply.content_type@,
        reply@.body == reply.body@,
        reply@.extensions == contents(reply.extensions),
{
}

} // verus!
