//! Discovery: the record that this host advertises, and which of the peers
//! that the daemon reports answers to a name.
//!
//! The daemon itself is the caller's. The handler here keeps track of whether
//! it runs, refuses what needs it while it does not, and hands out what is to
//! be advertised.

use vstd::prelude::*;
use vstd::string::*;
use crate::net::{dotted, SocketAddress};
use crate::text::str_starts_with;
use crate::OQError;

verus! {

/// The service type under which OSCQuery hosts advertise their documents.
pub const OSC_JSON_SERVICE: &'static str = "_oscjson._tcp.local.";

/// The service type under which hosts advertise their OSC socket.
pub const OSC_SERVICE: &'static str = "_osc._udp.local.";

/// What is put behind the application's name to make its host name.
pub const HOST_NAME_SUFFIX: &'static str = ".oscjson.tcp.local.";

/// The service record that this host advertises.
#[derive(Debug, PartialEq, Eq)]
pub struct ServiceRecord {
    pub service_type: String,
    pub instance_name: String,
    pub host_name: String,
    pub host_ip: String,
    pub port: u16,
    pub properties: Vec<(String, String)>,
}

/// The record of a peer as the daemon resolved it.
#[derive(Debug, PartialEq, Eq)]
pub struct ResolvedService {
    pub service_type: String,
    pub fullname: String,
    pub host_name: String,
    pub addresses: Vec<String>,
    pub port: u16,
    pub properties: Vec<(String, String)>,
}

/// What the daemon reports while it browses.
#[derive(Debug, PartialEq, Eq)]
pub enum ServiceEvent {
    /// A service was resolved.
    ServiceResolved(ResolvedService),
    /// Anything else: a search that began or ended, a service that was found
    /// but not yet resolved, or one that left.
    Other,
}

/// Whether `event` reports a service whose full name opens with `prefix`.
pub open spec fn answers(event: ServiceEvent, prefix: Seq<char>) -> bool {
    match event {
        ServiceEvent::ServiceResolved(service) => prefix.is_prefix_of(service.fullname@),
        ServiceEvent::Other => false,
    }
}

/// The position of the first of `events` that answers to `prefix`, or their
/// number where none does.
pub open spec fn first_answer(events: Seq<ServiceEvent>, prefix: Seq<char>) -> int
    decreases events.len(),
{
    if events.len() == 0 {
        0
    } else if answers(events[0], prefix) {
        0
    } else {
        1 + first_answer(events.skip(1), prefix)
    }
}

/// `first_answer` is the one position that answers and has none before it
/// that does, or the number of events where none answers.
pub proof fn lemma_first_answer(events: Seq<ServiceEvent>, prefix: Seq<char>, i: int)
    requires
        0 <= i <= events.len(),
        i < events.len() ==> answers(events[i], prefix),
        forall|j: int| 0 <= j < i ==> !answers(events[j], prefix),
    ensures
        first_answer(events, prefix) == i,
    decreases events.len(),
{
    if events.len() > 0 && i > 0 {
        let rest = events.skip(1);
        assert forall|j: int| 0 <= j < i - 1 implies !answers(rest[j], prefix) by {
            assert(rest[j] == events[j + 1]);
        }
        lemma_first_answer(rest, prefix, i - 1);
    }
}

impl ServiceEvent {
    /// The service that this event reports, if its full name opens with
    /// `match_prefix`.
    pub fn target(&self, match_prefix: &str) -> (r: Option<&ResolvedService>)
        ensures
            match r {
                Some(service) => answers(*self, match_prefix@) && *self
                    == ServiceEvent::ServiceResolved(*service),
                None => !answers(*self, match_prefix@),
            },
    {
        match self {
            ServiceEvent::ServiceResolved(service_info) => {
                if str_starts_with(service_info.fullname.as_str(), match_prefix) {
                    Some(service_info)
                } else {
                    None
                }
            },
            ServiceEvent::Other => None,
        }
    }
}

/// The discovery handler: this host's record, and whether the daemon runs.
pub struct OQMDNSHandler {
    daemon_running: bool,
    service_info: ServiceRecord,
}

/// The host name that `app_name` is advertised under.
pub open spec fn host_name_of(app_name: Seq<char>) -> Seq<char> {
    app_name + HOST_NAME_SUFFIX@
}

/// Whether `record` is what the host `app_name` advertises for a document
/// served at `http_addr`.
pub open spec fn advertises(record: ServiceRecord, app_name: Seq<char>, http_addr: SocketAddress) -> bool {
    &&& record.service_type@ == OSC_JSON_SERVICE@
    &&& record.instance_name@ == app_name
    &&& record.host_name@ == host_name_of(app_name)
    &&& record.host_ip@ == dotted(http_addr.a, http_addr.b, http_addr.c, http_addr.d)
    &&& record.port == http_addr.port
    &&& record.properties@.len() == 1
    &&& record.properties@[0].0@ == "mjau"@
    &&& record.properties@[0].1@ == "grr"@
}

impl OQMDNSHandler {
    /// Whether the daemon runs.
    pub closed spec fn running(&self) -> bool {
        self.daemon_running
    }

    /// The record that this host advertises.
    pub closed spec fn record(&self) -> ServiceRecord {
        self.service_info
    }

    /// A handler for the host `app_name`, whose document is served at
    /// `http_addr`. The daemon does not run yet.
    pub fn new(app_name: String, http_addr: SocketAddress) -> (h: Self)
        ensures
            !h.running(),
            advertises(h.record(), app_name@, http_addr),
    {
        let mut mdns_properties: Vec<(String, String)> = Vec::new();
        mdns_properties.push((String::from_str("mjau"), String::from_str("grr")));
        let mut host_name: String = app_name.clone();
        host_name.append(HOST_NAME_SUFFIX);
        let service_info = ServiceRecord {
            service_type: String::from_str(OSC_JSON_SERVICE),
            instance_name: app_name,
            host_name,
            host_ip: http_addr.ip_string(),
            port: http_addr.port,
            properties: mdns_properties,
        };
        OQMDNSHandler { daemon_running: false, service_info }
    }

    /// The record that this host advertises.
    pub fn service_info(&self) -> (r: &ServiceRecord)
        ensures
            *r == self.record(),
    {
        &self.service_info
    }

    /// Notes that the daemon was started.
    pub fn start_daemon(&mut self)
        ensures
            final(self).running(),
            final(self).record() == old(self).record(),
    {
        self.daemon_running = true;
    }

    /// Notes that the daemon is to be shut down, which the caller then does.
    /// Without a daemon this is `NoServiceDaemon`, and nothing changes.
    pub fn shutdown_daemon(&mut self) -> (r: Result<(), OQError>)
        ensures
            !final(self).running(),
            final(self).record() == old(self).record(),
            r == if old(self).running() {
                Ok::<(), OQError>(())
            } else {
                Err::<(), OQError>(OQError::NoServiceDaemon)
            },
    {
        if self.daemon_running {
            self.daemon_running = false;
            Ok(())
        } else {
            Err(OQError::NoServiceDaemon)
        }
    }

    /// The record to register with the daemon, or `NoServiceDaemon` where
    /// none runs.
    pub fn register(&self) -> (r: Result<&ServiceRecord, OQError>)
        ensures
            match r {
                Ok(record) => self.running() && *record == self.record(),
                Err(e) => !self.running() && e == OQError::NoServiceDaemon,
            },
    {
        if self.daemon_running {
            Ok(&self.service_info)
        } else {
            Err(OQError::NoServiceDaemon)
        }
    }

    /// The service type to withdraw from the daemon, or `NoServiceDaemon`
    /// where none runs.
    pub fn unregister(&self) -> (r: Result<&str, OQError>)
        ensures
            match r {
                Ok(service_type) => self.running() && service_type@
                    == self.record().service_type@,
                Err(e) => !self.running() && e == OQError::NoServiceDaemon,
            },
    {
        if self.daemon_running {
            Ok(self.service_info.service_type.as_str())
        } else {
            Err(OQError::NoServiceDaemon)
        }
    }
}

/// What a search through `events` comes to: the first service whose full
/// name opens with `prefix`.
pub open spec fn target_service(running: bool, prefix: Seq<char>, events: Seq<ServiceEvent>) -> Result<
    ResolvedService,
    OQError,
> {
    if !running {
        Err(OQError::NoServiceDaemon)
    } else if 0 <= first_answer(events, prefix) < events.len() {
        Ok(events[first_answer(events, prefix)]->ServiceResolved_0)
    } else {
        Err(OQError::NoMatchingService)
    }
}

/// Picks from the events of a browse the first service whose full name
/// opens with `match_prefix`. Without a daemon this is `NoServiceDaemon`;
/// where no event answers, `NoMatchingService`.
pub fn get_target_service<'a>(
    mdns_handler: &OQMDNSHandler,
    match_prefix: String,
    events: &'a Vec<ServiceEvent>,
) -> (r: Result<&'a ResolvedService, OQError>)
    ensures
        match r {
            Ok(service) => target_service(mdns_handler.running(), match_prefix@, events@) == Ok::<
                ResolvedService,
                OQError,
            >(*service),
            Err(e) => target_service(mdns_handler.running(), match_prefix@, events@) == Err::<
                ResolvedService,
                OQError,
            >(e),
        },
{
    if !mdns_handler.daemon_running {
        return Err(OQError::NoServiceDaemon);
    }
    let mut i: usize = 0;
    while i < events.len()
        invariant
            i <= events.len(),
            mdns_handler.running(),
            forall|j: int| 0 <= j < i ==> !answers(events@[j], match_prefix@),
        decreases events.len() - i,
    {
        if let Some(service_info) = events[i].target(match_prefix.as_str()) {
            proof {
                lemma_first_answer(events@, match_prefix@, i as int);
            }
            return Ok(service_info);
        }
        i = i + 1;
    }
    proof {
        lemma_first_answer(events@, match_prefix@, i as int);
    }
    Err(OQError::NoMatchingService)
}

} // verus!
