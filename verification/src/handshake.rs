//! The requests of the signalling exchange, by which the two endpoints learn
//! each other's address before they stream.

use vstd::prelude::*;
use vstd::string::StringExecFns;
use crate::util::Mode;

verus! {

/// Where the request of an endpoint in the given mode goes: the sender opens
/// the connection, the returning side acknowledges it.
pub open spec fn spec_request_uri(mode: Mode) -> Seq<char> {
    match mode {
        Mode::Send => "http://localhost:3000/connections/"@,
        Mode::Return => "http://localhost:3000/connections/test2/ack/"@,
    }
}

/// The part of the request body that stands before the address.
pub open spec fn spec_body_prefix(mode: Mode) -> Seq<char> {
    match mode {
        Mode::Send => "{\n                    \"id\": \"test\",\n                    \"remoteId\": \"test2\",\n                    \"address\": \""@,
        Mode::Return => "{\n                    \"remoteAddress\": \""@,
    }
}

/// The part of the request body that stands behind the address.
pub open spec fn spec_body_suffix() -> Seq<char> {
    "\"\n                    }"@
}

pub fn request_uri(mode: &Mode) -> (uri: &'static str)
    ensures
        uri@ == spec_request_uri(*mode),
{
    match mode {
        Mode::Send => "http://localhost:3000/connections/",
        Mode::Return => "http://localhost:3000/connections/test2/ack/",
    }
}

/// The body of the request that announces `address`: a JSON object that
/// holds the address as it is given.
pub fn request_body(mode: &Mode, address: &str) -> (body: String)
    ensures
        body@ == spec_body_prefix(*mode) + address@ + spec_body_suffix(),
{
    let mut body = match mode {
        Mode::Send => String::from_str(
            "{\n                    \"id\": \"test\",\n                    \"remoteId\": \"test2\",\n                    \"address\": \"",
        ),
        Mode::Return => String::from_str("{\n                    \"remoteAddress\": \""),
    };
    body.append(address);
    body.append("\"\n                    }");
    body
}

} // verus!
