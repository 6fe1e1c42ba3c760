use oscquery::fetch::{fetch_root, index_endpoint, HttpReply};
use oscquery::mdns::{
    get_target_service, OQMDNSHandler, ResolvedService, ServiceEvent, ServiceRecord,
    OSC_JSON_SERVICE, OSC_SERVICE,
};
use oscquery::net::SocketAddress;
use oscquery::{FetchError, OQError, OSCQuery};

fn http_addr() -> SocketAddress {
    SocketAddress::new(172, 19, 19, 244, 8080)
}

fn osc_addr() -> SocketAddress {
    SocketAddress::new(127, 0, 0, 1, 9069)
}

fn service(fullname: &str, addresses: &[&str], port: u16) -> ResolvedService {
    ResolvedService {
        service_type: OSC_JSON_SERVICE.to_string(),
        fullname: fullname.to_string(),
        host_name: "host.local.".to_string(),
        addresses: addresses.iter().map(|a| a.to_string()).collect(),
        port,
        properties: vec![],
    }
}

fn resolved(fullname: &str) -> ServiceEvent {
    ServiceEvent::ServiceResolved(service(fullname, &["192.168.1.7"], 9001))
}

#[test]
fn the_service_types_are_those_of_oscquery() {
    assert_eq!(OSC_JSON_SERVICE, "_oscjson._tcp.local.");
    assert_eq!(OSC_SERVICE, "_osc._udp.local.");
}

#[test]
fn a_handler_advertises_its_host() {
    let mut handler = OQMDNSHandler::new("VibeCheck".to_string(), http_addr());
    handler.start_daemon();
    assert_eq!(
        handler.register(),
        Ok(&ServiceRecord {
            service_type: "_oscjson._tcp.local.".to_string(),
            instance_name: "VibeCheck".to_string(),
            host_name: "VibeCheck.oscjson.tcp.local.".to_string(),
            host_ip: "172.19.19.244".to_string(),
            port: 8080,
            properties: vec![("mjau".to_string(), "grr".to_string())],
        })
    );
    assert_eq!(handler.unregister(), Ok("_oscjson._tcp.local."));
}

#[test]
fn without_a_daemon_nothing_is_advertised() {
    let mut handler = OQMDNSHandler::new("VibeCheck".to_string(), http_addr());
    assert_eq!(handler.register(), Err(OQError::NoServiceDaemon));
    assert_eq!(handler.unregister(), Err(OQError::NoServiceDaemon));
    assert_eq!(handler.shutdown_daemon(), Err(OQError::NoServiceDaemon));
    assert_eq!(
        get_target_service(&handler, "V".to_string(), &vec![resolved("VRChat-Client-1")]),
        Err(OQError::NoServiceDaemon)
    );
    handler.start_daemon();
    assert!(handler.register().is_ok());
    assert_eq!(handler.shutdown_daemon(), Ok(()));
    assert_eq!(handler.register(), Err(OQError::NoServiceDaemon));
    assert_eq!(handler.shutdown_daemon(), Err(OQError::NoServiceDaemon));
}

#[test]
fn the_first_service_that_answers_to_the_prefix_is_the_target() {
    let mut handler = OQMDNSHandler::new("VibeCheck".to_string(), http_addr());
    handler.start_daemon();
    let events = vec![
        ServiceEvent::Other,
        resolved("Other-App._oscjson._tcp.local."),
        resolved("VRChat-Client-ABCDEF._oscjson._tcp.local."),
        ServiceEvent::Other,
        resolved("VRChat-Client-123456._oscjson._tcp.local."),
    ];
    let found = get_target_service(&handler, "VRChat-Client-".to_string(), &events).unwrap();
    assert_eq!(found.fullname, "VRChat-Client-ABCDEF._oscjson._tcp.local.");
    let found = get_target_service(&handler, "VRChat-Client-1".to_string(), &events).unwrap();
    assert_eq!(found.fullname, "VRChat-Client-123456._oscjson._tcp.local.");
    let found = get_target_service(&handler, String::new(), &events).unwrap();
    assert_eq!(found.fullname, "Other-App._oscjson._tcp.local.");
    assert_eq!(
        get_target_service(&handler, "vrchat".to_string(), &events),
        Err(OQError::NoMatchingService)
    );
    assert_eq!(
        get_target_service(&handler, "VRChat-Client-".to_string(), &vec![]),
        Err(OQError::NoMatchingService)
    );
}

#[test]
fn an_event_is_a_target_by_the_opening_of_its_full_name() {
    let event = resolved("VRChat-Client-ABCDEF._oscjson._tcp.local.");
    assert!(event.target("VRChat-Client-").is_some());
    assert!(event.target("VRChat-Client-ABCDEF._oscjson._tcp.local.").is_some());
    assert!(event.target("VRChat-Client-ABCDEF._oscjson._tcp.local.x").is_none());
    assert!(event.target("RChat").is_none());
    assert!(ServiceEvent::Other.target("").is_none());
    let event = resolved("Zoë-1");
    assert!(event.target("Zoë").is_some());
    assert!(event.target("Zoe").is_none());
}

#[test]
fn the_root_document_is_asked_for_at_the_first_address() {
    assert_eq!(
        index_endpoint(&service("x", &["192.168.1.7", "10.0.0.1"], 9001)),
        Ok("http://192.168.1.7:9001/".to_string())
    );
    assert_eq!(
        index_endpoint(&service("x", &["127.0.0.1"], 0)),
        Ok("http://127.0.0.1:0/".to_string())
    );
    assert_eq!(
        index_endpoint(&service("x", &["host"], 65535)),
        Ok("http://host:65535/".to_string())
    );
    assert_eq!(index_endpoint(&service("x", &[], 9001)), Err(OQError::NoHostIP));
}

#[test]
fn a_reply_is_worth_its_body_or_says_why_not() {
    let reply = |status: u16, body: &str| HttpReply::Response { status, body: body.to_string() };
    assert_eq!(fetch_root(reply(200, "{}")), Ok("{}".to_string()));
    assert_eq!(fetch_root(reply(299, "x")), Ok("x".to_string()));
    assert_eq!(fetch_root(reply(204, "")), Err(OQError::FetchFailed(FetchError::EmptyBody)));
    assert_eq!(fetch_root(reply(199, "x")), Err(OQError::FetchFailed(FetchError::Status(199))));
    assert_eq!(fetch_root(reply(300, "x")), Err(OQError::FetchFailed(FetchError::Status(300))));
    assert_eq!(fetch_root(reply(404, "")), Err(OQError::FetchFailed(FetchError::Status(404))));
    assert_eq!(
        fetch_root(HttpReply::Unreachable),
        Err(OQError::FetchFailed(FetchError::Connection))
    );
}

#[test]
fn a_participant_serves_its_host_info() {
    let mut instance = OSCQuery::new("VibeCheck".to_string(), http_addr(), osc_addr());
    assert_eq!(instance.stop_http_json(), Err(OQError::NoTxThread));
    let handler = instance.start_http_json();
    let response = handler.http_route(b"GET /?HOST_INFO HTTP/1.1\r\n\r\n".to_vec()).unwrap();
    assert!(response.ends_with(
        "{\"NAME\":\"VibeCheck\",\"EXTENSIONS\":{\"ACCESS\":true,\"CLIPMODE\":false,\"RANGE\":true,\"TYPE\":true,\"VALUE\":true},\"OSC_IP\":\"127.0.0.1\",\"OSC_PORT\":9069,\"OSC_TRANSPORT\":\"UDP\"}"
    ));
    assert_eq!(oscquery::http::start(&handler), Ok(http_addr()));
    assert_eq!(instance.stop_http_json(), Ok(()));
    assert_eq!(instance.stop_http_json(), Err(OQError::NoTxThread));
}

#[test]
fn a_participant_searches_once_its_daemon_runs() {
    let mut instance = OSCQuery::new("VibeCheck".to_string(), http_addr(), osc_addr());
    let events = vec![resolved("VRChat-Client-ABCDEF._oscjson._tcp.local.")];
    assert_eq!(instance.register_mdns_service(), Err(OQError::NoServiceDaemon));
    assert_eq!(
        instance.mdns_search("VRChat-Client-".to_string(), &events),
        Err(OQError::NoServiceDaemon)
    );
    assert_eq!(instance.shutdown_mdns(), Err(OQError::NoServiceDaemon));
    instance.start_mdns();
    assert_eq!(instance.register_mdns_service().map(|r| r.instance_name.as_str()), Ok("VibeCheck"));
    assert_eq!(
        instance.mdns_search("VRChat-Client-".to_string(), &events).map(|s| s.port),
        Ok(9001)
    );
    assert_eq!(instance.shutdown_mdns(), Ok(()));
    assert_eq!(instance.register_mdns_service(), Err(OQError::NoServiceDaemon));
}

#[test]
fn a_participant_keeps_the_parameters_that_it_fetched() {
    let mut instance = OSCQuery::new("VibeCheck".to_string(), http_addr(), osc_addr());
    assert!(instance.vrchat_parameters().is_none());
    let reply = |status: u16, body: &str| HttpReply::Response { status, body: body.to_string() };
    assert_eq!(
        instance.populate_vrc_params(HttpReply::Unreachable),
        Err(OQError::FetchFailed(FetchError::Connection))
    );
    assert_eq!(
        instance.populate_vrc_params(reply(500, "{}")),
        Err(OQError::FetchFailed(FetchError::Status(500)))
    );
    assert_eq!(instance.populate_vrc_params(reply(200, "{")), Err(OQError::MalformedDocument));
    assert_eq!(instance.populate_vrc_params(reply(200, "{}")), Err(OQError::MalformedDocument));
    assert!(instance.vrchat_parameters().is_none());
    assert_eq!(instance.populate_vrc_params(reply(200, oscquery::http::HTTP_INDEX)), Ok(()));
    let tree = instance.vrchat_parameters().unwrap();
    assert_eq!(tree.leaf_params(), vec!["/avatar/change"]);
    assert_eq!(
        instance.populate_vrc_params(reply(200, "")),
        Err(OQError::FetchFailed(FetchError::EmptyBody))
    );
    assert_eq!(instance.vrchat_parameters().map(|t| t.full_path.as_str()), Some("/"));
}
