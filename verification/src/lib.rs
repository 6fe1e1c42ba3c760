//! Discovery and introspection of a peer's OSCQuery parameter tree.
//!
//! The crate holds the decisions of an OSCQuery participant: how a served
//! document is decoded into a tree of nodes and how that tree is addressed by
//! path, which advertised peer answers a name prefix, what a fetched reply
//! amounts to, and what the introspection endpoint answers to a request.
//! Sockets, the discovery daemon and the runtime stay with the caller, who
//! hands over what was read and carries out what is returned.

use vstd::prelude::*;
use document::document_tree;
use fetch::{fetch_root, fetched, HttpReply};
use http::json_models::{host_info_of, HostInfo};
use http::OQHTTPHandler;
use mdns::{
    advertises, get_target_service, target_service, OQMDNSHandler, ResolvedService, ServiceEvent,
    ServiceRecord,
};
use net::{dotted, SocketAddress};
use node::{NodeTree, OSCQueryNode};

pub mod document;
pub mod fetch;
pub mod http;
pub mod json;
pub mod keys;
pub mod mdns;
pub mod net;
pub mod node;
pub mod text;

verus! {

/// A failed fetch of a peer's root document, by cause.
#[derive(Clone, Copy, Debug, PartialEq, Eq, Structural)]
pub enum FetchError {
    /// The peer could not be reached.
    Connection,
    /// The peer answered with a status outside 200..=299.
    Status(u16),
    /// The peer answered successfully with nothing in the body.
    EmptyBody,
}

/// What can go wrong in this crate.
#[derive(Clone, Copy, Debug, PartialEq, Eq, Structural)]
pub enum OQError {
    /// The document is not JSON, or is JSON that does not describe a node.
    MalformedDocument,
    /// A value could not be written as JSON.
    Json,
    /// The peer's root document could not be had.
    FetchFailed(FetchError),
    /// The request is none that the introspection endpoint answers.
    InvalidHttpBuffer,
    /// The discovery daemon was not started, or is shut down.
    NoServiceDaemon,
    /// None of the observed services answers to the prefix.
    NoMatchingService,
    /// The resolved service carries no address.
    NoHostIP,
    /// The endpoint was given no address to bind.
    NoBoundAddress,
    /// The endpoint is not running, so there is nobody to signal.
    NoTxThread,
    /// The shutdown signal can no longer arrive: its sender is gone.
    ReceiveError,
}

/// One participant: a host that serves its own description and looks up a
/// peer's parameters.
pub struct OSCQuery {
    app_name: String,
    http_net: SocketAddress,
    osc_net: SocketAddress,
    serving: bool,
    mdns_handler: OQMDNSHandler,
    vrchat_parameters: Option<OSCQueryNode>,
}

/// The tree that a reply to the request for the root document holds, or why
/// it holds none.
pub open spec fn tree_of(reply: HttpReply) -> Result<NodeTree, OQError> {
    match fetched(reply) {
        Err(e) => Err(e),
        Ok(text) => match document_tree(text) {
            None => Err(OQError::MalformedDocument),
            Some(tree) => Ok(tree),
        },
    }
}

impl OSCQuery {
    /// The name under which this host goes.
    pub closed spec fn app_name(&self) -> Seq<char> {
        self.app_name@
    }

    /// Where this host serves its description.
    pub closed spec fn http_net(&self) -> SocketAddress {
        self.http_net
    }

    /// Where this host's OSC socket listens.
    pub closed spec fn osc_net(&self) -> SocketAddress {
        self.osc_net
    }

    /// Whether the endpoint is up.
    pub closed spec fn serving(&self) -> bool {
        self.serving
    }

    /// The discovery handler.
    pub closed spec fn mdns_handler(&self) -> OQMDNSHandler {
        self.mdns_handler
    }

    /// The peer's parameters, once they were fetched.
    pub closed spec fn parameters(&self) -> Option<NodeTree> {
        match self.vrchat_parameters {
            Some(node) => Some(node@),
            None => None,
        }
    }

    /// A participant named `app_name` that serves at `http_net` and listens
    /// for OSC at `osc_net`. Nothing runs yet, and no parameters are known.
    pub fn new(app_name: String, http_net: SocketAddress, osc_net: SocketAddress) -> (s: Self)
        ensures
            s.app_name() == app_name@,
            s.http_net() == http_net,
            s.osc_net() == osc_net,
            !s.serving(),
            !s.mdns_handler().running(),
            advertises(s.mdns_handler().record(), app_name@, http_net),
            s.parameters() is None,
    {
        let mdns_handler = OQMDNSHandler::new(app_name.clone(), http_net);
        OSCQuery {
            app_name,
            http_net,
            osc_net,
            serving: false,
            mdns_handler,
            vrchat_parameters: None,
        }
    }

    /// Brings the endpoint up: hands out the handler that the caller is to
    /// serve.
    pub fn start_http_json(&mut self) -> (h: OQHTTPHandler<'static>)
        ensures
            final(self).serving(),
            final(self).app_name() == old(self).app_name(),
            final(self).http_net() == old(self).http_net(),
            final(self).osc_net() == old(self).osc_net(),
            final(self).mdns_handler() == old(self).mdns_handler(),
            final(self).parameters() == old(self).parameters(),
            h.bound_addr() == Some(old(self).http_net()),
            h.host_info()@ == host_info_of(
                old(self).app_name(),
                dotted(
                    old(self).osc_net().a,
                    old(self).osc_net().b,
                    old(self).osc_net().c,
                    old(self).osc_net().d,
                ),
                old(self).osc_net().port,
            ),
    {
        self.serving = true;
        self.start_http()
    }

    /// Takes the endpoint down, which the caller then does. An endpoint that
    /// is not up is `NoTxThread`, and nothing changes.
    pub fn stop_http_json(&mut self) -> (r: Result<(), OQError>)
        ensures
            !final(self).serving(),
            final(self).app_name() == old(self).app_name(),
            final(self).http_net() == old(self).http_net(),
            final(self).osc_net() == old(self).osc_net(),
            final(self).mdns_handler() == old(self).mdns_handler(),
            final(self).parameters() == old(self).parameters(),
            r == if old(self).serving() {
                Ok::<(), OQError>(())
            } else {
                Err::<(), OQError>(OQError::NoTxThread)
            },
    {
        if self.serving {
            self.serving = false;
            Ok(())
        } else {
            Err(OQError::NoTxThread)
        }
    }

    /// The handler that answers for this host.
    fn start_http(&self) -> (h: OQHTTPHandler<'static>)
        ensures
            h.bound_addr() == Some(self.http_net()),
            h.host_info()@ == host_info_of(
                self.app_name(),
                dotted(self.osc_net().a, self.osc_net().b, self.osc_net().c, self.osc_net().d),
                self.osc_net().port,
            ),
    {
        let host_info = HostInfo::new(
            self.app_name.clone(),
            self.osc_net.ip_string(),
            self.osc_net.port,
        );
        OQHTTPHandler::new(self.http_net, host_info)
    }

    /// The discovery handler.
    pub fn handler(&self) -> (r: &OQMDNSHandler)
        ensures
            *r == self.mdns_handler(),
    {
        &self.mdns_handler
    }

    /// Notes that the discovery daemon was started.
    pub fn start_mdns(&mut self)
        ensures
            final(self).mdns_handler().running(),
            final(self).mdns_handler().record() == old(self).mdns_handler().record(),
            final(self).app_name() == old(self).app_name(),
            final(self).http_net() == old(self).http_net(),
            final(self).osc_net() == old(self).osc_net(),
            final(self).serving() == old(self).serving(),
            final(self).parameters() == old(self).parameters(),
    {
        self.mdns_handler.start_daemon();
    }

    /// The record to register with the daemon, or `NoServiceDaemon` where
    /// none runs.
    pub fn register_mdns_service(&self) -> (r: Result<&ServiceRecord, OQError>)
        ensures
            match r {
                Ok(record) => self.mdns_handler().running() && *record
                    == self.mdns_handler().record(),
                Err(e) => !self.mdns_handler().running() && e == OQError::NoServiceDaemon,
            },
    {
        self.mdns_handler.register()
    }

    /// Picks from the events of a browse the first service whose full name
    /// opens with `service_prefix`.
    pub fn mdns_search<'a>(&self, service_prefix: String, events: &'a Vec<ServiceEvent>) -> (r:
        Result<&'a ResolvedService, OQError>)
        ensures
            match r {
                Ok(service) => target_service(
                    self.mdns_handler().running(),
                    service_prefix@,
                    events@,
                ) == Ok::<ResolvedService, OQError>(*service),
                Err(e) => target_service(self.mdns_handler().running(), service_prefix@, events@)
                    == Err::<ResolvedService, OQError>(e),
            },
    {
        get_target_service(&self.mdns_handler, service_prefix, events)
    }

    /// Takes the peer's parameters from the reply to the request for its root
    /// document. Where the reply holds no tree, the parameters stay as they
    /// were.
    pub fn populate_vrc_params(&mut self, reply: HttpReply) -> (r: Result<(), OQError>)
        ensures
            final(self).app_name() == old(self).app_name(),
            final(self).http_net() == old(self).http_net(),
            final(self).osc_net() == old(self).osc_net(),
            final(self).serving() == old(self).serving(),
            final(self).mdns_handler() == old(self).mdns_handler(),
            match r {
                Ok(_) => final(self).parameters() is Some && tree_of(reply) == Ok::<
                    NodeTree,
                    OQError,
                >(final(self).parameters()->0),
                Err(e) => final(self).parameters() == old(self).parameters() && tree_of(reply)
                    == Err::<NodeTree, OQError>(e),
            },
    {
        let json_res: String = match fetch_root(reply) {
            Ok(body) => body,
            Err(e) => {
                return Err(e);
            },
        };
        match OSCQueryNode::parse(json_res.as_str()) {
            Ok(node_tree) => {
                self.vrchat_parameters = Some(node_tree);
                Ok(())
            },
            Err(e) => Err(e),
        }
    }

    /// The peer's parameters, once they were fetched.
    pub fn vrchat_parameters(&self) -> (r: Option<&OSCQueryNode>)
        ensures
            match r {
                Some(node) => self.parameters() == Some(node@),
                None => self.parameters() is None,
            },
    {
        self.vrchat_parameters.as_ref()
    }

    /// Notes that the discovery daemon is to be shut down, which the caller
    /// then does. Without a daemon this is `NoServiceDaemon`.
    pub fn shutdown_mdns(&mut self) -> (r: Result<(), OQError>)
        ensures
            !final(self).mdns_handler().running(),
            final(self).mdns_handler().record() == old(self).mdns_handler().record(),
            final(self).app_name() == old(self).app_name(),
            final(self).http_net() == old(self).http_net(),
            final(self).osc_net() == old(self).osc_net(),
            final(self).serving() == old(self).serving(),
            final(self).parameters() == old(self).parameters(),
            r == if old(self).mdns_handler().running() {
                Ok::<(), OQError>(())
            } else {
                Err::<(), OQError>(OQError::NoServiceDaemon)
            },
    {
        self.mdns_handler.shutdown_daemon()
    }
}

} // verus!
