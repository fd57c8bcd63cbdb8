use direct_connectivity::xds::discovery::{
    recv_response, Decoders, Discovery, DiscoveryStep, Received, StreamEvent,
};
use direct_connectivity::xds::error::XdsError;
use direct_connectivity::xds::extract::{
    extract_cluster_from_lds, extract_eds_name_from_cds, extract_endpoints_from_eds,
    first_cluster_from_route_config, BackendEndpoint,
};
use direct_connectivity::xds::node::build_node;
use direct_connectivity::xds::types::{
    Address, Any, ApiListener, Cluster, ClusterLoadAssignment, DiscoveryRequest,
    DiscoveryResponse, EdsClusterConfig, Endpoint, HttpConnectionManager, LbEndpoint, Listener,
    LocalityLbEndpoints, Node, Rds, Route, RouteAction, RouteConfiguration, SocketAddress,
    VirtualHost, CDS_TYPE_URL, EDS_TYPE_URL, HTTP_CONNECTION_MANAGER_TYPE_URL, LDS_TYPE_URL,
};

// In these tests encoded messages are texts, which the decoders read as follows:
// - a listener: the type URL of what it holds, `|`, the encoded message; empty
//   where it holds nothing;
// - a connection manager: clusters of its routes, with `,` between routes and
//   `;` between virtual hosts; `rds` where it has no inline routes;
// - a cluster: its name, then `:` and the service name where it has one;
// - a load assignment: `address:port`, with `,` between endpoints and `;`
//   between localities; `-` for an endpoint without an address.
// A message that starts with `!` does not decode.

fn text(bytes: &[u8]) -> Result<String, String> {
    let text = String::from_utf8(bytes.to_vec()).unwrap();
    match text.strip_prefix('!') {
        Some(why) => Err(why.to_string()),
        None => Ok(text),
    }
}

fn listener(bytes: &[u8]) -> Result<Listener, String> {
    let text = text(bytes)?;
    let api_listener = text.split_once('|').map(|(type_url, value)| Any {
        type_url: type_url.to_string(),
        value: value.as_bytes().to_vec(),
    });
    Ok(Listener {
        name: "listener".to_string(),
        api_listener: Some(ApiListener { api_listener }),
    })
}

fn routes(text: &str) -> RouteConfiguration {
    let virtual_hosts = text
        .split(';')
        .map(|host| VirtualHost {
            name: "host".to_string(),
            routes: host
                .split(',')
                .map(|cluster| Route {
                    route: if cluster == "-" {
                        None
                    } else {
                        Some(RouteAction { cluster: cluster.to_string() })
                    },
                })
                .collect(),
        })
        .collect();
    RouteConfiguration { name: "routes".to_string(), virtual_hosts }
}

fn manager(bytes: &[u8]) -> Result<HttpConnectionManager, String> {
    let text = text(bytes)?;
    if text == "rds" {
        let rds = Some(Rds { route_config_name: "elsewhere".to_string() });
        return Ok(HttpConnectionManager { rds, route_config: None });
    }
    Ok(HttpConnectionManager { rds: None, route_config: Some(routes(&text)) })
}

fn cluster(bytes: &[u8]) -> Result<Cluster, String> {
    let text = text(bytes)?;
    Ok(match text.split_once(':') {
        Some((name, service)) => Cluster {
            name: name.to_string(),
            eds_cluster_config: Some(EdsClusterConfig { service_name: service.to_string() }),
        },
        None => Cluster { name: text, eds_cluster_config: None },
    })
}

fn endpoint(text: &str) -> LbEndpoint {
    let socket_address = text.split_once(':').map(|(address, port)| SocketAddress {
        address: address.to_string(),
        port_value: port.parse().unwrap(),
    });
    LbEndpoint {
        endpoint: Some(Endpoint { address: Some(Address { socket_address }) }),
    }
}

fn assignment(bytes: &[u8]) -> Result<ClusterLoadAssignment, String> {
    let text = text(bytes)?;
    let endpoints = text
        .split(';')
        .map(|locality| LocalityLbEndpoints {
            lb_endpoints: locality.split(',').map(endpoint).collect(),
        })
        .collect();
    Ok(ClusterLoadAssignment { cluster_name: "cluster".to_string(), endpoints })
}

type Decode<T> = fn(&[u8]) -> Result<T, String>;

fn decoders() -> Decoders<
    Decode<Listener>,
    Decode<HttpConnectionManager>,
    Decode<Cluster>,
    Decode<ClusterLoadAssignment>,
> {
    Decoders { listener, manager, cluster, assignment }
}

fn response(type_url: &str, mark: &str, resources: &[&str]) -> DiscoveryResponse {
    DiscoveryResponse {
        version_info: format!("version-{mark}"),
        resources: resources
            .iter()
            .map(|text| Any {
                type_url: type_url.to_string(),
                value: text.as_bytes().to_vec(),
            })
            .collect(),
        type_url: type_url.to_string(),
        nonce: format!("nonce-{mark}"),
    }
}

fn managed(text: &str) -> String {
    format!("{HTTP_CONNECTION_MANAGER_TYPE_URL}|{text}")
}

fn node() -> Node {
    build_node(Some("projects/7/zones/us-east1-b".to_string()), [3; 16]).unwrap()
}

fn go_on(step: DiscoveryStep) -> (Discovery, Vec<DiscoveryRequest>) {
    match step {
        DiscoveryStep::Continue(next, requests) => (next, requests),
        DiscoveryStep::Done(_) => panic!("done"),
        DiscoveryStep::Failed(e) => panic!("{}", e.message()),
    }
}

fn fail(step: DiscoveryStep) -> XdsError {
    match step {
        DiscoveryStep::Continue(_, _) => panic!("goes on"),
        DiscoveryStep::Done(_) => panic!("done"),
        DiscoveryStep::Failed(e) => e,
    }
}

fn check_request(request: &DiscoveryRequest, type_url: &str, name: &str, version: &str, nonce: &str) {
    assert_eq!(request.type_url, type_url);
    assert_eq!(request.resource_names, [name]);
    assert_eq!(request.version_info, version);
    assert_eq!(request.response_nonce, nonce);
    assert_eq!(request.node.as_ref().unwrap().id, node().id);
}

fn pairs(endpoints: &[BackendEndpoint]) -> Vec<(String, u32)> {
    endpoints.iter().map(|e| (e.address.clone(), e.port)).collect()
}

#[test]
fn discovery_follows_the_chain() {
    let (discovery, first) = Discovery::start("storage.googleapis.com", node());
    check_request(&first, LDS_TYPE_URL, "storage.googleapis.com", "", "");

    // A response of another type is skipped.
    let other = StreamEvent::Response(response(EDS_TYPE_URL, "x", &["9.9.9.9:9"]));
    let (discovery, requests) = go_on(discovery.on_event(other, &decoders()));
    assert!(requests.is_empty());

    let lds = StreamEvent::Response(response(LDS_TYPE_URL, "l", &[&managed("cluster-a")]));
    let (discovery, requests) = go_on(discovery.on_event(lds, &decoders()));
    assert_eq!(requests.len(), 2);
    check_request(&requests[0], LDS_TYPE_URL, "storage.googleapis.com", "version-l", "nonce-l");
    check_request(&requests[1], CDS_TYPE_URL, "cluster-a", "", "");

    let cds = StreamEvent::Response(response(CDS_TYPE_URL, "c", &["cluster-a:eds-a"]));
    let (discovery, requests) = go_on(discovery.on_event(cds, &decoders()));
    assert_eq!(requests.len(), 2);
    check_request(&requests[0], CDS_TYPE_URL, "cluster-a", "version-c", "nonce-c");
    check_request(&requests[1], EDS_TYPE_URL, "eds-a", "", "");

    let eds = StreamEvent::Response(response(EDS_TYPE_URL, "e", &["10.0.0.1:443,10.0.0.2:8443"]));
    match discovery.on_event(eds, &decoders()) {
        DiscoveryStep::Done(endpoints) => assert_eq!(
            pairs(&endpoints),
            [("10.0.0.1".to_string(), 443), ("10.0.0.2".to_string(), 8443)]
        ),
        _ => panic!("not done"),
    }
}

#[test]
fn only_so_many_responses_are_read() {
    let (mut discovery, _) = Discovery::start("s", node());
    for _ in 0..9 {
        let other = StreamEvent::Response(response(CDS_TYPE_URL, "x", &[]));
        discovery = go_on(discovery.on_event(other, &decoders())).0;
    }
    let other = StreamEvent::Response(response(CDS_TYPE_URL, "x", &[]));
    let error = fail(discovery.on_event(other, &decoders()));
    assert!(matches!(&error, XdsError::NoResponse(t) if t == LDS_TYPE_URL));
    assert_eq!(
        error.message(),
        "no xDS response received for type.googleapis.com/envoy.config.listener.v3.Listener"
    );

    // The tenth may still be the one, and the count begins anew for the next.
    let (mut discovery, _) = Discovery::start("s", node());
    for _ in 0..9 {
        let other = StreamEvent::Response(response(CDS_TYPE_URL, "x", &[]));
        discovery = go_on(discovery.on_event(other, &decoders())).0;
    }
    let lds = StreamEvent::Response(response(LDS_TYPE_URL, "l", &[&managed("c")]));
    discovery = go_on(discovery.on_event(lds, &decoders())).0;
    for _ in 0..9 {
        let other = StreamEvent::Response(response(LDS_TYPE_URL, "x", &[]));
        discovery = go_on(discovery.on_event(other, &decoders())).0;
    }
    let other = StreamEvent::Response(response(LDS_TYPE_URL, "x", &[]));
    let error = fail(discovery.on_event(other, &decoders()));
    assert!(matches!(&error, XdsError::NoResponse(t) if t == CDS_TYPE_URL));
}

#[test]
fn a_broken_stream_ends_the_discovery() {
    let start = || Discovery::start("s", node()).0;
    let error = fail(start().on_event(StreamEvent::Ended, &decoders()));
    assert_eq!(error.message(), "xDS ADS stream ended unexpectedly");
    let event = StreamEvent::Failed("unavailable".to_string());
    let error = fail(start().on_event(event, &decoders()));
    assert_eq!(error.message(), "xDS RPC error: unavailable");
    let error = fail(start().on_event(StreamEvent::RequestsClosed, &decoders()));
    assert_eq!(error.message(), "xDS request channel closed");
}

#[test]
fn what_is_not_in_a_response_ends_the_discovery() {
    let start = || Discovery::start("s", node()).0;
    let lds = StreamEvent::Response(response(LDS_TYPE_URL, "l", &[]));
    let error = fail(start().on_event(lds, &decoders()));
    assert_eq!(error.message(), "xDS decode error: no cluster found in LDS response");

    let lds = StreamEvent::Response(response(LDS_TYPE_URL, "l", &[&managed("c")]));
    let (discovery, _) = go_on(start().on_event(lds, &decoders()));
    let cds = StreamEvent::Response(response(CDS_TYPE_URL, "c", &[]));
    let error = fail(discovery.on_event(cds, &decoders()));
    assert_eq!(
        error.message(),
        "xDS decode error: cluster 'c' not found in CDS response"
    );

    let lds = StreamEvent::Response(response(LDS_TYPE_URL, "l", &[&managed("c")]));
    let (discovery, _) = go_on(start().on_event(lds, &decoders()));
    let cds = StreamEvent::Response(response(CDS_TYPE_URL, "c", &["c"]));
    let (discovery, requests) = go_on(discovery.on_event(cds, &decoders()));
    check_request(&requests[1], EDS_TYPE_URL, "c", "", "");
    let eds = StreamEvent::Response(response(EDS_TYPE_URL, "e", &["-"]));
    let error = fail(discovery.on_event(eds, &decoders()));
    assert_eq!(error.message(), "xDS decode error: no endpoints in EDS response");
}

#[test]
fn a_wait_matches_skips_or_fails() {
    let event = || StreamEvent::Response(response(CDS_TYPE_URL, "c", &["a"]));
    match recv_response(CDS_TYPE_URL, 9, event()) {
        Received::Matched(resp) => assert_eq!(resp.nonce, "nonce-c"),
        _ => panic!("not matched"),
    }
    assert!(matches!(recv_response(LDS_TYPE_URL, 8, event()), Received::Skipped));
    assert!(matches!(
        recv_response(LDS_TYPE_URL, 9, event()),
        Received::Failed(XdsError::NoResponse(_))
    ));
    assert!(matches!(
        recv_response(LDS_TYPE_URL, 0, StreamEvent::Ended),
        Received::Failed(XdsError::StreamEnded)
    ));
    assert!(matches!(
        recv_response(LDS_TYPE_URL, 0, StreamEvent::Failed(String::new())),
        Received::Failed(XdsError::Rpc(_))
    ));
    assert!(matches!(
        recv_response(LDS_TYPE_URL, 0, StreamEvent::RequestsClosed),
        Received::Failed(XdsError::ChannelClosed)
    ));
}

#[test]
fn the_first_named_cluster_counts() {
    assert_eq!(
        first_cluster_from_route_config(&routes("-,;,first,second;third")),
        Some("first".to_string())
    );
    assert_eq!(first_cluster_from_route_config(&routes("-,;,")), None);
    let none = RouteConfiguration { name: String::new(), virtual_hosts: vec![] };
    assert_eq!(first_cluster_from_route_config(&none), None);
}

fn lds(resources: &[&str]) -> Result<String, String> {
    let resp = response(LDS_TYPE_URL, "l", resources);
    extract_cluster_from_lds(&resp, &listener, &manager).map_err(|e| e.message())
}

#[test]
fn listeners_are_searched_in_order() {
    assert_eq!(lds(&[&managed("a"), &managed("b")]), Ok("a".to_string()));
    // Without a listener inside, of another type, by reference, without routes.
    let other = "type.googleapis.com/other|a";
    assert_eq!(
        lds(&["", other, &managed("rds"), &managed(""), &managed("b")]),
        Ok("b".to_string())
    );
    assert_eq!(
        lds(&["", &managed(";")]),
        Err("xDS decode error: no cluster found in LDS response".to_string())
    );
    let unset = |_: &[u8]| Ok(Listener { name: String::new(), api_listener: None });
    let resp = response(LDS_TYPE_URL, "l", &["x"]);
    assert!(extract_cluster_from_lds(&resp, &unset, &manager).is_err());
}

#[test]
fn listeners_that_do_not_decode_end_the_search() {
    assert_eq!(
        lds(&["!broken", &managed("b")]),
        Err("xDS decode error: Listener: broken".to_string())
    );
    assert_eq!(
        lds(&[&managed("!short"), &managed("b")]),
        Err("xDS decode error: HttpConnectionManager: short".to_string())
    );
    assert_eq!(lds(&[&managed("a"), "!broken"]), Ok("a".to_string()));
}

fn cds(resources: &[&str]) -> Result<String, String> {
    let resp = response(CDS_TYPE_URL, "c", resources);
    extract_eds_name_from_cds(&resp, "wanted", &cluster).map_err(|e| e.message())
}

#[test]
fn the_first_cluster_names_its_endpoints() {
    assert_eq!(cds(&["a:service", "b:other"]), Ok("service".to_string()));
    assert_eq!(cds(&["a:"]), Ok("a".to_string()));
    assert_eq!(cds(&["a", "!broken"]), Ok("a".to_string()));
    assert_eq!(cds(&["!broken"]), Err("xDS decode error: Cluster: broken".to_string()));
    assert_eq!(
        cds(&[]),
        Err("xDS decode error: cluster 'wanted' not found in CDS response".to_string())
    );
}

fn eds(resources: &[&str]) -> Result<Vec<(String, u32)>, String> {
    let resp = response(EDS_TYPE_URL, "e", resources);
    extract_endpoints_from_eds(&resp, &assignment)
        .map(|endpoints| pairs(&endpoints))
        .map_err(|e| e.message())
}

#[test]
fn endpoints_are_collected_in_order() {
    assert_eq!(
        eds(&["a:1,-;b:2", "-", "c:3;;d:4294967295"]),
        Ok(vec![
            ("a".to_string(), 1),
            ("b".to_string(), 2),
            ("c".to_string(), 3),
            ("d".to_string(), 4294967295),
        ])
    );
    assert_eq!(
        eds(&["-", ";"]),
        Err("xDS decode error: no endpoints in EDS response".to_string())
    );
    assert_eq!(eds(&[]), Err("xDS decode error: no endpoints in EDS response".to_string()));
    assert_eq!(
        eds(&["a:1", "!broken"]),
        Err("xDS decode error: ClusterLoadAssignment: broken".to_string())
    );
}

#[test]
fn endpoints_without_parts_are_left_out() {
    let parts = |_: &[u8]| {
        Ok(ClusterLoadAssignment {
            cluster_name: String::new(),
            endpoints: vec![LocalityLbEndpoints {
                lb_endpoints: vec![
                    LbEndpoint { endpoint: None },
                    LbEndpoint { endpoint: Some(Endpoint { address: None }) },
                    endpoint("h:5"),
                ],
            }],
        })
    };
    let resp = response(EDS_TYPE_URL, "e", &["x"]);
    let endpoints = extract_endpoints_from_eds(&resp, &parts).unwrap();
    assert_eq!(pairs(&endpoints), [("h".to_string(), 5)]);
    assert_eq!(endpoints[0].socket_addr_text(), "h:5");
    assert_eq!(endpoints[0].clone().address, "h");
}

#[test]
fn discovery_errors_have_texts() {
    let error = XdsError::Transport("refused".to_string());
    assert_eq!(error.message(), "xDS transport error: refused");
    let error = XdsError::Auth("no token".to_string());
    assert_eq!(error.message(), "xDS auth error: no token");
}
