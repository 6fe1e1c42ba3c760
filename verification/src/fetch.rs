//! Fetching a peer's root document: where to ask, and what the reply is
//! worth.

use vstd::prelude::*;
use vstd::string::*;
use crate::mdns::ResolvedService;
use crate::text::{decimal, decimal_string};
use crate::{FetchError, OQError};

verus! {

/// What came of one GET.
#[derive(Debug, PartialEq, Eq)]
pub enum HttpReply {
    /// No connection, or it broke.
    Unreachable,
    /// The peer answered.
    Response { status: u16, body: String },
}

/// The address of the root document of the host at `address`:`port`.
pub open spec fn endpoint_of(address: Seq<char>, port: u16) -> Seq<char> {
    "http://"@ + address + ":"@ + decimal(port as nat) + "/"@
}

/// Where the root document of `service` is served: at the first of its
/// addresses. A service without an address is `NoHostIP`.
pub open spec fn index_endpoint_of(service: ResolvedService) -> Result<Seq<char>, OQError> {
    if service.addresses@.len() == 0 {
        Err(OQError::NoHostIP)
    } else {
        Ok(endpoint_of(service.addresses@[0]@, service.port))
    }
}

/// What a reply is worth: its body, if the peer answered with a status from
/// 200 to 299 and the body is not empty.
pub open spec fn fetched(reply: HttpReply) -> Result<Seq<char>, OQError> {
    match reply {
        HttpReply::Unreachable => Err(OQError::FetchFailed(FetchError::Connection)),
        HttpReply::Response { status, body } => if !(200 <= status <= 299) {
            Err(OQError::FetchFailed(FetchError::Status(status)))
        } else if body@.len() == 0 {
            Err(OQError::FetchFailed(FetchError::EmptyBody))
        } else {
            Ok(body@)
        },
    }
}

/// Writes the address of the root document of `service`.
pub fn index_endpoint(service: &ResolvedService) -> (r: Result<String, OQError>)
    ensures
        match r {
            Ok(url) => index_endpoint_of(*service) == Ok::<Seq<char>, OQError>(url@),
            Err(e) => index_endpoint_of(*service) == Err::<Seq<char>, OQError>(e),
        },
{
    if service.addresses.len() == 0 {
        return Err(OQError::NoHostIP);
    }
    let port: String = decimal_string(service.port as usize);
    let mut url: String = String::from_str("http://");
    url.append(service.addresses[0].as_str());
    url.append(":");
    url.append(port.as_str());
    url.append("/");
    assert(url@ =~= endpoint_of(service.addresses@[0]@, service.port));
    Ok(url)
}

/// Takes the root document out of a reply.
pub fn fetch_root(reply: HttpReply) -> (r: Result<String, OQError>)
    ensures
        match r {
            Ok(body) => fetched(reply) == Ok::<Seq<char>, OQError>(body@),
            Err(e) => fetched(reply) == Err::<Seq<char>, OQError>(e),
        },
{
    match reply {
        HttpReply::Unreachable => Err(OQError::FetchFailed(FetchError::Connection)),
        HttpReply::Response { status, body } => {
            if status < 200 || status > 299 {
                Err(OQError::FetchFailed(FetchError::Status(status)))
            } else if body.as_str().is_empty() {
                Err(OQError::FetchFailed(FetchError::EmptyBody))
            } else {
                Ok(body)
            }
        },
    }
}

} // verus!
