//! The introspection endpoint: two requests, two documents.
//!
//! A request is recognised by the bytes it opens with, nothing more. The
//! caller owns the socket: it reports each read, learns whether to read on,
//! and sends the response that comes back.

use vstd::prelude::*;
use vstd::string::*;
use vstd::utf8::encode_utf8;
use crate::net::SocketAddress;
use crate::text::{bytes_start_with, decimal, decimal_string};
use crate::OQError;
use json_models::{host_info_document, HostInfo};

pub mod json_models;

verus! {

/// Status line and content type, the same in every response.
pub const HTTP_RESPONSE_BASE: &'static str = "HTTP/1.1 200\r\nContent-Type: application/json\r\n";

/// The index document: this host's own namespace.
pub const HTTP_INDEX: &'static str =
    "{\"DESCRIPTION\": \"root node\",\"FULL_PATH\": \"/\",\"ACCESS\": 0,\"CONTENTS\": {\"avatar\": {\"FULL_PATH\": \"/avatar\",\"ACCESS\": 0,\"CONTENTS\": {\"change\": {\"DESCRIPTION\": \"Avatar ID, updated whenever the user switches into a valid avatar.\",\"FULL_PATH\": \"/avatar/change\",\"ACCESS\": 1,\"TYPE\": \"s\",\"VALUE\": [\"avtr_id_lol\"]}}}}}";

/// What a request for the index opens with.
pub const INDEX_REQUEST: &'static str = "GET / HTTP/";

/// What a request for the host info opens with.
pub const HOST_INFO_REQUEST: &'static str = "GET /?HOST_INFO HTTP/";

/// The size of the buffer that the caller reads into. A read that fills less
/// of it ends the request.
pub const READ_BUFFER_SIZE: usize = 1024;

/// The two documents that can be asked for.
#[derive(Clone, Copy, Debug, PartialEq, Eq, Structural)]
pub enum Route {
    Index,
    HostInfo,
}

/// The route that the request bytes select: the first whose opening they
/// carry, if any.
pub open spec fn route_of(buffer: Seq<u8>) -> Option<Route> {
    if INDEX_REQUEST.spec_bytes().is_prefix_of(buffer) {
        Some(Route::Index)
    } else if HOST_INFO_REQUEST.spec_bytes().is_prefix_of(buffer) {
        Some(Route::HostInfo)
    } else {
        None
    }
}

/// The response that carries `body`: status line, content type, the body's
/// length in bytes, a blank line, the body.
pub open spec fn http_response(body: Seq<char>) -> Seq<char> {
    HTTP_RESPONSE_BASE@ + "Content-Length: "@ + decimal(encode_utf8(body).len()) + "\r\n\r\n"@
        + body
}

/// Selects the route of a request.
pub fn route(buffer: &[u8]) -> (r: Option<Route>)
    ensures
        r == route_of(buffer@),
{
    if bytes_start_with(buffer, INDEX_REQUEST.as_bytes()) {
        Some(Route::Index)
    } else if bytes_start_with(buffer, HOST_INFO_REQUEST.as_bytes()) {
        Some(Route::HostInfo)
    } else {
        None
    }
}

/// Frames `body` as a response.
pub fn respond(body: &str) -> (s: String)
    ensures
        s@ == http_response(body@),
{
    let length: String = decimal_string(body.as_bytes().len());
    let mut s: String = String::from_str(HTTP_RESPONSE_BASE);
    s.append("Content-Length: ");
    s.append(length.as_str());
    s.append("\r\n\r\n");
    s.append(body);
    assert(s@ =~= http_response(body@));
    s
}

/// What one attempt to read from the connection came to.
#[derive(Debug, PartialEq, Eq)]
pub enum ReadEvent {
    /// The read put `read` bytes into the buffer, which is `bytes` now.
    Chunk { bytes: Vec<u8>, read: usize },
    /// Nothing to read yet.
    WouldBlock,
    /// The read failed.
    Failed,
}

/// Whether the request is complete once `event` has been seen: the peer
/// closed, the read came short of the buffer, or the read failed.
pub open spec fn ends_request(event: ReadEvent) -> bool {
    match event {
        ReadEvent::Chunk { bytes, read } => read < READ_BUFFER_SIZE,
        ReadEvent::WouldBlock => false,
        ReadEvent::Failed => true,
    }
}

/// What `event` adds to the request: the whole buffer of a read that put
/// anything into it.
pub open spec fn added_by(event: ReadEvent) -> Seq<u8> {
    match event {
        ReadEvent::Chunk { bytes, read } => if read == 0 {
            Seq::empty()
        } else {
            bytes@
        },
        _ => Seq::empty(),
    }
}

/// The request that a run of reads amounts to: what the reads add, up to
/// and including the first that ends the request.
pub open spec fn request_of(events: Seq<ReadEvent>) -> Seq<u8>
    decreases events.len(),
{
    if events.len() == 0 {
        Seq::empty()
    } else if ends_request(events[0]) {
        added_by(events[0])
    } else {
        added_by(events[0]) + request_of(events.skip(1))
    }
}

/// The endpoint: where it listens and what it says of its host.
pub struct OQHTTPHandler<'hostinfo> {
    bound_addr: Option<SocketAddress>,
    host_info: HostInfo<'hostinfo>,
}

/// The shutdown signal as the serving loop sees it once per round.
#[derive(Clone, Copy, Debug, PartialEq, Eq, Structural)]
pub enum Signal {
    /// Nothing new was sent.
    Unchanged,
    /// A new value was sent: whether to go on.
    Changed(bool),
    /// The sender is gone.
    Closed,
}

/// Whether the loop goes on after a round, or the error that ends it.
pub open spec fn after_round(state: bool, signal: Signal) -> Result<bool, OQError> {
    match signal {
        Signal::Unchanged => Ok(state),
        Signal::Changed(go_on) => Ok(go_on),
        Signal::Closed => Err(OQError::ReceiveError),
    }
}

impl<'hostinfo> OQHTTPHandler<'hostinfo> {
    /// An endpoint for `bind_addr` that describes its host by `host_info`.
    pub fn new(bind_addr: SocketAddress, host_info: HostInfo<'hostinfo>) -> (h: Self)
        ensures
            h.bound_addr() == Some(bind_addr),
            h.host_info() == host_info,
    {
        OQHTTPHandler { bound_addr: Some(bind_addr), host_info }
    }

    /// The address to listen on.
    pub closed spec fn bound_addr(&self) -> Option<SocketAddress> {
        self.bound_addr
    }

    /// The description that is served.
    pub closed spec fn host_info(&self) -> HostInfo<'hostinfo> {
        self.host_info
    }

    /// The body that answers a request on `route`.
    pub open spec fn body_of(&self, route: Route) -> Seq<char> {
        match route {
            Route::Index => HTTP_INDEX@,
            Route::HostInfo => host_info_document(self.host_info()@),
        }
    }

    /// The answer to the request in `buffer`: the response to send, or
    /// `InvalidHttpBuffer` where the request selects no route.
    pub open spec fn answer(&self, buffer: Seq<u8>) -> Result<Seq<char>, OQError> {
        match route_of(buffer) {
            Some(route) => Ok(http_response(self.body_of(route))),
            None => Err(OQError::InvalidHttpBuffer),
        }
    }

    /// Answers the request in `buffer`.
    pub fn http_route(&self, buffer: Vec<u8>) -> (r: Result<String, OQError>)
        ensures
            match r {
                Ok(s) => self.answer(buffer@) == Ok::<Seq<char>, OQError>(s@),
                Err(e) => self.answer(buffer@) == Err::<Seq<char>, OQError>(e),
            },
    {
        match route(buffer.as_slice()) {
            Some(Route::Index) => Ok(respond(HTTP_INDEX)),
            Some(Route::HostInfo) => {
                match self.host_info.to_json() {
                    Ok(h_info) => Ok(respond(h_info.as_str())),
                    Err(e) => Err(e),
                }
            },
            None => Err(OQError::InvalidHttpBuffer),
        }
    }

    /// Takes one read into account: adds what it brought to `full_buffer`
    /// and says whether the request is complete.
    pub fn on_read(&self, full_buffer: &mut Vec<u8>, event: &ReadEvent) -> (done: bool)
        ensures
            done == ends_request(*event),
            final(full_buffer)@ == old(full_buffer)@ + added_by(*event),
    {
        match event {
            ReadEvent::Chunk { bytes, read } => {
                if *read > 0 {
                    let mut i: usize = 0;
                    while i < bytes.len()
                        invariant
                            i <= bytes.len(),
                            full_buffer@ == old(full_buffer)@ + bytes@.take(i as int),
                        decreases bytes.len() - i,
                    {
                        full_buffer.push(bytes[i]);
                        assert(bytes@.take(i + 1) =~= bytes@.take(i as int).push(bytes@[i as int]));
                        i = i + 1;
                    }
                    assert(bytes@.take(bytes.len() as int) =~= bytes@);
                } else {
                    assert(full_buffer@ =~= old(full_buffer)@ + Seq::<u8>::empty());
                }
                *read < READ_BUFFER_SIZE
            },
            ReadEvent::WouldBlock => {
                assert(full_buffer@ =~= old(full_buffer)@ + Seq::<u8>::empty());
                false
            },
            ReadEvent::Failed => {
                assert(full_buffer@ =~= old(full_buffer)@ + Seq::<u8>::empty());
                true
            },
        }
    }

    /// Serves one connection whose reads came to `events`: gathers the
    /// request and answers it.
    pub fn handle_connection(&self, events: &Vec<ReadEvent>) -> (r: Result<String, OQError>)
        ensures
            match r {
                Ok(s) => self.answer(request_of(events@)) == Ok::<Seq<char>, OQError>(s@),
                Err(e) => self.answer(request_of(events@)) == Err::<Seq<char>, OQError>(e),
            },
    {
        let mut full_buffer: Vec<u8> = Vec::new();
        let mut i: usize = 0;
        let mut done: bool = false;
        proof {
            assert(events@.skip(0) =~= events@);
            assert(full_buffer@ + request_of(events@) =~= request_of(events@));
        }
        while !done && i < events.len()
            invariant
                i <= events.len(),
                !done ==> full_buffer@ + request_of(events@.skip(i as int)) == request_of(events@),
                done ==> full_buffer@ == request_of(events@),
            decreases events.len() - i, if done { 0int } else { 1int },
        {
            let ghost before = full_buffer@;
            let ghost rest = events@.skip(i as int);
            done = self.on_read(&mut full_buffer, &events[i]);
            proof {
                assert(rest[0] == events@[i as int]);
                assert(rest.skip(1) =~= events@.skip(i + 1));
                assert(before + (added_by(rest[0]) + request_of(rest.skip(1))) =~= (before
                    + added_by(rest[0])) + request_of(rest.skip(1)));
            }
            i = i + 1;
        }
        proof {
            if !done {
                assert(events@.skip(i as int).len() == 0);
                assert(full_buffer@ + Seq::<u8>::empty() =~= full_buffer@);
            }
        }
        self.http_route(full_buffer)
    }

    /// Whether the serving loop goes on after a round in which `signal` was
    /// seen, given that it was going (`state`).
    pub fn keep_serving(&self, state: bool, signal: Signal) -> (r: Result<bool, OQError>)
        ensures
            r == after_round(state, signal),
    {
        match signal {
            Signal::Unchanged => Ok(state),
            Signal::Changed(go_on) => Ok(go_on),
            Signal::Closed => Err(OQError::ReceiveError),
        }
    }
}

/// The address on which to serve `http_handler`, or `NoBoundAddress` where it
/// has none.
pub fn start(http_handler: &OQHTTPHandler<'_>) -> (r: Result<SocketAddress, OQError>)
    ensures
        r == match http_handler.bound_addr() {
            Some(addr) => Ok::<SocketAddress, OQError>(addr),
            None => Err::<SocketAddress, OQError>(OQError::NoBoundAddress),
        },
{
    match http_handler.bound_addr {
        Some(addr) => Ok(addr),
        None => Err(OQError::NoBoundAddress),
    }
}

} // verus!
