//! The fetch adapter: from what the HTTP transport reports to the payload
//! that settles the promise.
//!
//! A fetch never rejects. Whatever goes wrong on the way (no connection, a
//! timeout, a body that is not text) the promise is resolved, with an empty
//! JSON object in place of the body.

use crate::pending::{Outcome, OutcomeView};
use crate::text::decode_text;
use vstd::prelude::*;
use vstd::string::StringSliceAdditionalSpecFns;
use vstd::string::StrSliceExecFns;
use vstd::utf8::{decode_utf8_encode_utf8, valid_utf8};

verus! {

/// A user record as the example endpoints return it.
#[derive(Debug)]
pub struct User {
    name: String,
}

impl User {
    pub closed spec fn spec_name(&self) -> Seq<char> {
        self.name@
    }

    pub fn new(name: String) -> (user: User)
        ensures
            user.spec_name() == name@,
    {
        User { name }
    }

    pub fn name(&self) -> (name: &String)
        ensures
            name@ == self.spec_name(),
    {
        &self.name
    }
}

/// What the transport reports for one GET.
#[derive(Debug)]
pub enum Transport {
    /// The full response body, as received.
    Response { body: Vec<u8> },
    /// The request did not complete: connection error or timeout.
    Failure,
}

pub enum TransportView {
    Response { body: Seq<u8> },
    Failure,
}

impl View for Transport {
    type V = TransportView;

    open spec fn view(&self) -> TransportView {
        match *self {
            Transport::Response { body } => TransportView::Response { body: body@ },
            Transport::Failure => TransportView::Failure,
        }
    }
}

/// The bytes of `{}`.
pub open spec fn empty_object() -> Seq<u8> {
    seq![0x7bu8, 0x7du8]
}

/// The payload for a transport report: the body where it is text, the
/// empty object on any failure.
pub open spec fn payload_of(reply: TransportView) -> Seq<u8> {
    match reply {
        TransportView::Response { body } => if valid_utf8(body) {
            body
        } else {
            empty_object()
        },
        TransportView::Failure => empty_object(),
    }
}

/// The payload that resolves the promise of a fetch.
pub fn fetch_payload(reply: Transport) -> (payload: Vec<u8>)
    ensures
        payload@ == payload_of(reply@),
{
    let text = match reply {
        Transport::Response { body } => decode_text(body),
        Transport::Failure => None,
    };
    match text {
        Some(text) => {
            proof {
                match reply@ {
                    TransportView::Response { body } => {
                        decode_utf8_encode_utf8(body);
                    },
                    TransportView::Failure => {},
                }
            }
            text.as_str().as_bytes_vec()
        },
        None => {
            let payload: Vec<u8> = vec![0x7bu8, 0x7du8];
            assert(payload@ =~= empty_object());
            payload
        },
    }
}

/// How the native task of a fetch ends: always with a payload, never with
/// a failure.
pub fn fetch_outcome(reply: Transport) -> (outcome: Outcome)
    ensures
        outcome@ == OutcomeView::Payload(payload_of(reply@)),
{
    Outcome::Payload(fetch_payload(reply))
}

} // verus!
