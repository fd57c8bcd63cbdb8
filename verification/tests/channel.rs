use direct_connectivity::channel::{
    backend_uri, resolve_endpoints, DirectPathError, ResolveAction, ResolveEvent,
    CONCURRENCY_LIMIT, ENDPOINT_CACHE_CAPACITY, ENDPOINT_CACHE_TTL_SECS,
};
use direct_connectivity::xds::error::XdsError;
use direct_connectivity::xds::extract::BackendEndpoint;
use direct_connectivity::xds::node::build_node;
use std::collections::HashMap;

fn endpoint(address: &str, port: u32) -> BackendEndpoint {
    BackendEndpoint { address: address.to_string(), port }
}

#[test]
fn cached_endpoints_are_used() {
    let event = ResolveEvent::Looked(Some(vec![endpoint("a", 1)]));
    match resolve_endpoints(event) {
        ResolveAction::Connect(endpoints) => assert_eq!(endpoints[0].address, "a"),
        _ => panic!("not used"),
    }
}

#[test]
fn missing_endpoints_are_discovered_and_cached() {
    assert!(matches!(
        resolve_endpoints(ResolveEvent::Looked(None)),
        ResolveAction::BuildNode
    ));
    let node = build_node(Some("projects/7/zones/us-east1-b".to_string()), [0; 16]).unwrap();
    let id = node.id.clone();
    match resolve_endpoints(ResolveEvent::NodeBuilt(Ok(node))) {
        ResolveAction::Discover(node) => assert_eq!(node.id, id),
        _ => panic!("not discovered"),
    }
    let found = vec![endpoint("a", 1), endpoint("b", 2)];
    match resolve_endpoints(ResolveEvent::Discovered(Ok(found))) {
        ResolveAction::CacheAndConnect(endpoints) => {
            assert_eq!(endpoints.len(), 2);
            assert_eq!(endpoints[1].port, 2);
        }
        _ => panic!("not cached"),
    }
}

fn failure(event: ResolveEvent) -> DirectPathError {
    match resolve_endpoints(event) {
        ResolveAction::Fail(e) => e,
        _ => panic!("no failure"),
    }
}

#[test]
fn failures_are_passed_on() {
    let error = failure(ResolveEvent::NodeBuilt(Err(XdsError::Metadata("m".to_string()))));
    assert_eq!(
        error.message(),
        "DirectPath xDS discovery failed: xDS metadata error: m"
    );
    assert_eq!(error.source(), Some("xDS metadata error: m".to_string()));
    let error = failure(ResolveEvent::Discovered(Err(XdsError::StreamEnded)));
    assert!(matches!(error, DirectPathError::Xds(XdsError::StreamEnded)));
    let error = failure(ResolveEvent::Discovered(Ok(vec![])));
    assert!(matches!(error, DirectPathError::NoEndpoints));
    assert_eq!(error.message(), "DirectPath: xDS returned no endpoints");
    assert_eq!(error.source(), None);
}

#[test]
fn the_first_endpoint_is_connected_to() {
    let endpoints = [endpoint("10.0.0.1", 443), endpoint("10.0.0.2", 8443)];
    assert_eq!(backend_uri(&endpoints), "http://10.0.0.1:443");
    assert_eq!(endpoints[1].socket_addr_text(), "10.0.0.2:8443");
    assert_eq!(backend_uri(&[endpoint("h", 0)]), "http://h:0");
    assert_eq!(backend_uri(&[endpoint("h", u32::MAX)]), "http://h:4294967295");
}

#[test]
fn channel_errors_have_texts() {
    let error = DirectPathError::InvalidEndpoint("bad".to_string());
    assert_eq!(error.message(), "DirectPath: invalid endpoint: bad");
    assert_eq!(error.source(), None);
    let error = DirectPathError::Connect("refused".to_string());
    assert_eq!(error.message(), "DirectPath: ALTS connection failed: refused");
    assert_eq!(error.source(), Some("refused".to_string()));
}

#[test]
fn limits_of_channels_and_cache() {
    assert_eq!(ENDPOINT_CACHE_TTL_SECS, 5 * 60);
    assert_eq!(ENDPOINT_CACHE_CAPACITY, 64);
    assert_eq!(CONCURRENCY_LIMIT, 100);
}

/// Resolves a service with a cache, counting discoveries.
fn resolve(
    cache: &mut HashMap<String, Vec<BackendEndpoint>>,
    service: &str,
    found: Result<Vec<BackendEndpoint>, XdsError>,
    discoveries: &mut usize,
) -> Result<Vec<BackendEndpoint>, DirectPathError> {
    let mut found = Some(found);
    let mut event = ResolveEvent::Looked(cache.get(service).cloned());
    loop {
        event = match resolve_endpoints(event) {
            ResolveAction::Connect(endpoints) => return Ok(endpoints),
            ResolveAction::BuildNode => ResolveEvent::NodeBuilt(build_node(
                Some("projects/7/zones/us-east1-b".to_string()),
                [0; 16],
            )),
            ResolveAction::Discover(_) => {
                *discoveries += 1;
                ResolveEvent::Discovered(found.take().unwrap())
            }
            ResolveAction::CacheAndConnect(endpoints) => {
                cache.insert(service.to_string(), endpoints.clone());
                return Ok(endpoints);
            }
            ResolveAction::Fail(e) => return Err(e),
        };
    }
}

#[test]
fn a_resolved_service_is_not_discovered_again() {
    let mut cache = HashMap::new();
    let mut discoveries = 0;

    let failed = resolve(&mut cache, "s", Err(XdsError::StreamEnded), &mut discoveries);
    assert!(failed.is_err());
    assert!(cache.is_empty());
    let failed = resolve(&mut cache, "s", Ok(vec![]), &mut discoveries);
    assert!(failed.is_err());
    assert!(cache.is_empty());
    assert_eq!(discoveries, 2);

    let first = resolve(&mut cache, "s", Ok(vec![endpoint("a", 1)]), &mut discoveries).unwrap();
    assert_eq!(discoveries, 3);
    let other = Ok(vec![endpoint("b", 2)]);
    let second = resolve(&mut cache, "s", other, &mut discoveries).unwrap();
    assert_eq!(discoveries, 3);
    assert_eq!(first[0].address, "a");
    assert_eq!(second[0].address, "a");
    assert_eq!(second.len(), 1);
}
