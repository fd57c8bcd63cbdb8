//! What the responses of Traffic Director say: the cluster of a service, the
//! name under which a cluster's endpoints are asked for, and the endpoints.
//!
//! Resources come encoded. The functions that read them are handed the
//! decoders, and decode only what they need, in order.

use crate::text::append_decimal;
use crate::text::decimal;
use crate::text::same_text;
use crate::xds::error::XdsError;
use crate::xds::error::XdsErrorView;
use crate::xds::extract_laws::first_named_route_counts;
use crate::xds::types::Any;
use crate::xds::types::Cluster;
use crate::xds::types::ClusterLoadAssignment;
use crate::xds::types::DiscoveryResponse;
use crate::xds::types::HttpConnectionManager;
use crate::xds::types::LbEndpoint;
use crate::xds::types::Listener;
use crate::xds::types::LocalityLbEndpoints;
use crate::xds::types::Route;
use crate::xds::types::RouteConfiguration;
use crate::xds::types::SocketAddress;
use crate::xds::types::VirtualHost;
use crate::xds::types::HTTP_CONNECTION_MANAGER_TYPE_URL;
use vstd::prelude::*;
use vstd::string::StringExecFns;

verus! {

/// A discovered backend endpoint (IP and port).
#[derive(Debug)]
pub struct BackendEndpoint {
    /// The IP address.
    pub address: String,
    /// The port.
    pub port: u32,
}

impl View for BackendEndpoint {
    type V = (Seq<char>, u32);

    open spec fn view(&self) -> (Seq<char>, u32) {
        (self.address@, self.port)
    }
}

impl Clone for BackendEndpoint {
    fn clone(&self) -> (endpoint: Self)
        ensures
            endpoint@ == self@,
            endpoint.address@ == self.address@,
            endpoint.port == self.port,
    {
        BackendEndpoint { address: self.address.clone(), port: self.port }
    }
}

/// Addresses and ports of a list of endpoints.
pub open spec fn endpoints_view(endpoints: Seq<BackendEndpoint>) -> Seq<(Seq<char>, u32)> {
    endpoints.map_values(|e: BackendEndpoint| e@)
}

impl BackendEndpoint {
    /// The endpoint as text, to be parsed as a socket address: `address:port`,
    /// whatever the address is.
    pub fn socket_addr_text(&self) -> (text: String)
        ensures
            text@ == self.address@ + ":"@ + decimal(self.port as nat),
    {
        let mut text = self.address.clone();
        text.append(":");
        append_decimal(&mut text, self.port as u64);
        text
    }
}

/// What a decoder may give for which bytes.
pub type Decoding<T> = spec_fn(Seq<u8>, Result<T, String>) -> bool;

/// The decoder can be applied to any bytes.
pub open spec fn decodes_any<T, D: Fn(&[u8]) -> Result<T, String>>(decode: D) -> bool {
    forall|bytes: &[u8]| #[trigger] decode.requires((bytes,))
}

/// What the given decoder may give for which bytes.
pub open spec fn decoding<T, D: Fn(&[u8]) -> Result<T, String>>(decode: D) -> Decoding<T> {
    |bytes: Seq<u8>, decoded: Result<T, String>|
        exists|b: &[u8]| b@ == bytes && #[trigger] decode.ensures((b,), decoded)
}

/// These bytes may decode to this.
pub open spec fn decodes<T>(relation: Decoding<T>, bytes: Seq<u8>, decoded: Result<T, String>) -> bool {
    relation(bytes, decoded)
}

/// The names of the clusters that routes lead to, in order.
pub open spec fn route_clusters(routes: Seq<Route>) -> Seq<Seq<char>>
    decreases routes.len(),
{
    if routes.len() == 0 {
        seq![]
    } else {
        let before = route_clusters(routes.drop_last());
        match routes.last().route {
            Some(action) => if action.cluster@.len() > 0 {
                before.push(action.cluster@)
            } else {
                before
            },
            None => before,
        }
    }
}

/// The names of the clusters that the routes of virtual hosts lead to, in
/// order.
pub open spec fn host_clusters(hosts: Seq<VirtualHost>) -> Seq<Seq<char>>
    decreases hosts.len(),
{
    if hosts.len() == 0 {
        seq![]
    } else {
        host_clusters(hosts.drop_last()) + route_clusters(hosts.last().routes@)
    }
}

/// The name of the first cluster that a route configuration leads to.
pub open spec fn first_cluster(config: RouteConfiguration) -> Option<Seq<char>> {
    let clusters = host_clusters(config.virtual_hosts@);
    if clusters.len() > 0 {
        Some(clusters[0])
    } else {
        None
    }
}

/// Clusters found so far stay first when more routes follow.
proof fn lemma_route_clusters_grow(routes: Seq<Route>, n: int)
    requires
        0 <= n <= routes.len(),
    ensures
        route_clusters(routes.take(n)).is_prefix_of(route_clusters(routes)),
    decreases routes.len() - n,
{
    if n < routes.len() {
        lemma_route_clusters_grow(routes, n + 1);
        assert(routes.take(n + 1).drop_last() =~= routes.take(n));
        let shorter = route_clusters(routes.take(n));
        let longer = route_clusters(routes.take(n + 1));
        assert(shorter.is_prefix_of(longer));
        assert(shorter =~= route_clusters(routes).subrange(0, shorter.len() as int));
    } else {
        assert(routes.take(n) =~= routes);
    }
}

/// Clusters found so far stay first when more virtual hosts follow.
proof fn lemma_host_clusters_grow(hosts: Seq<VirtualHost>, n: int)
    requires
        0 <= n <= hosts.len(),
    ensures
        host_clusters(hosts.take(n)).is_prefix_of(host_clusters(hosts)),
    decreases hosts.len() - n,
{
    if n < hosts.len() {
        lemma_host_clusters_grow(hosts, n + 1);
        assert(hosts.take(n + 1).drop_last() =~= hosts.take(n));
        let shorter = host_clusters(hosts.take(n));
        let longer = host_clusters(hosts.take(n + 1));
        assert(shorter.is_prefix_of(longer));
        assert(shorter =~= host_clusters(hosts).subrange(0, shorter.len() as int));
    } else {
        assert(hosts.take(n) =~= hosts);
    }
}

/// The name of the first cluster that a route configuration leads to.
pub fn first_cluster_from_route_config(rc: &RouteConfiguration) -> (r: Option<String>)
    ensures
        match r {
            Some(cluster) => first_cluster(*rc) == Some(cluster@),
            None => first_cluster(*rc) is None,
        },
        r matches Some(cluster) ==> exists|i: int, j: int|
            {
                &&& 0 <= i < rc.virtual_hosts@.len()
                &&& 0 <= j < rc.virtual_hosts@[i].routes@.len()
                &&& (#[trigger] rc.virtual_hosts@[i].routes@[j]).route is Some
                &&& rc.virtual_hosts@[i].routes@[j].route->0.cluster@ == cluster@
                &&& cluster@.len() > 0
                &&& forall|a: int, b: int|
                    0 <= a <= i && 0 <= b < rc.virtual_hosts@[a].routes@.len() && (a < i || b < j)
                        ==> ((#[trigger] rc.virtual_hosts@[a].routes@[b]).route is None
                        || rc.virtual_hosts@[a].routes@[b].route->0.cluster@.len() == 0)
            },
        r is None ==> forall|a: int, b: int|
            0 <= a < rc.virtual_hosts@.len() && 0 <= b < rc.virtual_hosts@[a].routes@.len() ==> ((
            #[trigger] rc.virtual_hosts@[a].routes@[b]).route is None
                || rc.virtual_hosts@[a].routes@[b].route->0.cluster@.len() == 0),
{
    let hosts = &rc.virtual_hosts;
    let mut i: usize = 0;
    while i < hosts.len()
        invariant
            i <= hosts.len(),
            hosts@ == rc.virtual_hosts@,
            host_clusters(hosts@.take(i as int)).len() == 0,
        decreases hosts.len() - i,
    {
        let routes = &hosts[i].routes;
        let mut j: usize = 0;
        while j < routes.len()
            invariant
                i < hosts.len(),
                j <= routes.len(),
                hosts@ == rc.virtual_hosts@,
                routes@ == hosts@[i as int].routes@,
                host_clusters(hosts@.take(i as int)).len() == 0,
                route_clusters(routes@.take(j as int)).len() == 0,
            decreases routes.len() - j,
        {
            assert(routes@.take(j + 1).drop_last() =~= routes@.take(j as int));
            if let Some(action) = &routes[j].route {
                if !action.cluster.as_str().is_empty() {
                    proof {
                        assert(route_clusters(routes@.take(j + 1))[0] == action.cluster@);
                        lemma_route_clusters_grow(routes@, j + 1);
                        assert(hosts@.take(i + 1).drop_last() =~= hosts@.take(i as int));
                        assert(host_clusters(hosts@.take(i + 1)) =~= route_clusters(routes@));
                        lemma_host_clusters_grow(hosts@, i + 1);
                        assert(route_clusters(routes@)[0] == action.cluster@);
                        assert(host_clusters(hosts@)[0] == action.cluster@);
                        let at = first_named_route_counts(*rc);
                        assert(rc.virtual_hosts@[at.0].routes@[at.1].route is Some);
                    }
                    return Some(action.cluster.clone());
                }
            }
            j += 1;
        }
        assert(routes@.take(j as int) =~= routes@);
        assert(hosts@.take(i + 1).drop_last() =~= hosts@.take(i as int));
        i += 1;
    }
    assert(hosts@.take(i as int) =~= hosts@);
    proof {
        first_named_route_counts(*rc);
    }
    None
}

/// The encoded connection manager of a listener, where it has one.
pub open spec fn manager_of(listener: Listener) -> Option<Any> {
    match listener.api_listener {
        Some(outer) => match outer.api_listener {
            Some(inner) => if inner.type_url@ == HTTP_CONNECTION_MANAGER_TYPE_URL@ {
                Some(inner)
            } else {
                None
            },
            None => None,
        },
        None => None,
    }
}

/// The name of the first cluster that a connection manager leads to by its
/// inline route configuration.
pub open spec fn manager_cluster(manager: HttpConnectionManager) -> Option<Seq<char>> {
    match manager.route_config {
        Some(config) => first_cluster(config),
        None => None,
    }
}

/// The outcome of looking for a cluster in listener resources: its name, or
/// the text of the error.
///
/// The listeners are decoded in order; one that does not decode ends the
/// search, as does a connection manager that does not decode. The first
/// cluster found is the outcome.
pub open spec fn lds_outcome(
    resources: Seq<Any>,
    listener: Decoding<Listener>,
    manager: Decoding<HttpConnectionManager>,
    outcome: Result<Seq<char>, XdsErrorView>,
) -> bool
    decreases resources.len(),
{
    if resources.len() == 0 {
        outcome == Err::<Seq<char>, _>(XdsErrorView::Decode("no cluster found in LDS response"@))
    } else {
        let rest = resources.drop_first();
        exists|decoded: Result<Listener, String>| #[trigger]
            decodes(listener, resources[0].value@, decoded) && match decoded {
                Err(e) => outcome == Err::<Seq<char>, _>(
                    XdsErrorView::Decode("Listener: "@ + e@),
                ),
                Ok(found) => match manager_of(found) {
                    None => lds_outcome(rest, listener, manager, outcome),
                    Some(any) => exists|inner: Result<HttpConnectionManager, String>| #[trigger]
                        decodes(manager, any.value@, inner) && match inner {
                            Err(e) => outcome == Err::<Seq<char>, _>(
                                XdsErrorView::Decode("HttpConnectionManager: "@ + e@),
                            ),
                            Ok(hcm) => match manager_cluster(hcm) {
                                Some(cluster) => outcome == Ok::<_, XdsErrorView>(cluster),
                                None => lds_outcome(rest, listener, manager, outcome),
                            },
                        },
                },
            }
    }
}

/// The outcome of an extraction that gives a name or an error.
pub open spec fn name_outcome(r: Result<String, XdsError>) -> Result<Seq<char>, XdsErrorView> {
    match r {
        Ok(name) => Ok(name@),
        Err(e) => Err(e@),
    }
}

/// Finds the cluster of a service in an LDS response.
pub fn extract_cluster_from_lds<
    L: Fn(&[u8]) -> Result<Listener, String>,
    M: Fn(&[u8]) -> Result<HttpConnectionManager, String>,
>(resp: &DiscoveryResponse, listener: &L, manager: &M) -> (r: Result<String, XdsError>)
    requires
        decodes_any(*listener),
        decodes_any(*manager),
    ensures
        lds_outcome(resp.resources@, decoding(*listener), decoding(*manager), name_outcome(r)),
{
    let ghost ld = decoding(*listener);
    let ghost md = decoding(*manager);
    let resources = &resp.resources;
    let mut i: usize = 0;
    assert(resources@.skip(0) =~= resources@);
    while i < resources.len()
        invariant
            i <= resources.len(),
            resources@ == resp.resources@,
            decodes_any(*listener),
            decodes_any(*manager),
            ld == decoding(*listener),
            md == decoding(*manager),
            forall|o: Result<Seq<char>, XdsErrorView>| #[trigger]
                lds_outcome(resources@.skip(i as int), ld, md, o) ==> lds_outcome(
                    resources@,
                    ld,
                    md,
                    o,
                ),
        decreases resources.len() - i,
    {
        let ghost here = resources@.skip(i as int);
        let ghost rest = resources@.skip(i + 1);
        proof {
            assert(here.drop_first() =~= rest);
            assert(here[0] == resources@[i as int]);
        }
        let bytes = resources[i].value.as_slice();
        let decoded = listener(bytes);
        assert(decodes(ld, here[0].value@, decoded));
        let found = match decoded {
            Ok(found) => found,
            Err(e) => {
                let r = Err(XdsError::Decode("Listener: ".to_owned().concat(e.as_str())));
                assert(lds_outcome(here, ld, md, name_outcome(r)));
                return r;
            },
        };
        let any = match &found.api_listener {
            Some(outer) => match &outer.api_listener {
                Some(inner) => {
                    if same_text(inner.type_url.as_str(), HTTP_CONNECTION_MANAGER_TYPE_URL) {
                        Some(inner)
                    } else {
                        None
                    }
                },
                None => None,
            },
            None => None,
        };
        if let Some(any) = any {
            let bytes = any.value.as_slice();
            let inner = manager(bytes);
            assert(decodes(md, any.value@, inner));
            let hcm = match inner {
                Ok(hcm) => hcm,
                Err(e) => {
                    let r = Err(
                        XdsError::Decode("HttpConnectionManager: ".to_owned().concat(e.as_str())),
                    );
                    assert(lds_outcome(here, ld, md, name_outcome(r)));
                    return r;
                },
            };
            if let Some(rc) = &hcm.route_config {
                if let Some(cluster) = first_cluster_from_route_config(rc) {
                    let r = Ok(cluster);
                    assert(lds_outcome(here, ld, md, name_outcome(r)));
                    return r;
                }
            }
            assert(manager_cluster(hcm) is None);
        }
        assert forall|o: Result<Seq<char>, XdsErrorView>| #[trigger]
            lds_outcome(rest, ld, md, o) implies lds_outcome(
            resources@,
            ld,
            md,
            o,
        ) by {
            assert(lds_outcome(here, ld, md, o));
        }
        i += 1;
    }
    let r = Err(XdsError::Decode("no cluster found in LDS response".to_owned()));
    assert(lds_outcome(resources@.skip(i as int), ld, md, name_outcome(r)));
    r
}

/// The name under which the endpoints of a cluster are asked for.
pub open spec fn eds_name(cluster: Cluster) -> Seq<char> {
    match cluster.eds_cluster_config {
        Some(config) => if config.service_name@.len() == 0 {
            cluster.name@
        } else {
            config.service_name@
        },
        None => cluster.name@,
    }
}

/// The outcome of looking for the name of a cluster's endpoints in cluster
/// resources: the first resource decides.
pub open spec fn cds_outcome(
    resources: Seq<Any>,
    cluster_name: Seq<char>,
    cluster: Decoding<Cluster>,
    outcome: Result<Seq<char>, XdsErrorView>,
) -> bool {
    if resources.len() == 0 {
        outcome == Err::<Seq<char>, _>(
            XdsErrorView::Decode("cluster '"@ + cluster_name + "' not found in CDS response"@),
        )
    } else {
        exists|decoded: Result<Cluster, String>| #[trigger]
            decodes(cluster, resources[0].value@, decoded) && match decoded {
                Err(e) => outcome == Err::<Seq<char>, _>(XdsErrorView::Decode("Cluster: "@ + e@)),
                Ok(found) => outcome == Ok::<_, XdsErrorView>(eds_name(found)),
            }
    }
}

/// Finds the name under which the endpoints of a cluster are asked for in a
/// CDS response.
pub fn extract_eds_name_from_cds<C: Fn(&[u8]) -> Result<Cluster, String>>(
    resp: &DiscoveryResponse,
    cluster_name: &str,
    cluster: &C,
) -> (r: Result<String, XdsError>)
    requires
        decodes_any(*cluster),
    ensures
        cds_outcome(resp.resources@, cluster_name@, decoding(*cluster), name_outcome(r)),
{
    if resp.resources.len() == 0 {
        let mut e = "cluster '".to_owned();
        e.append(cluster_name);
        e.append("' not found in CDS response");
        return Err(XdsError::Decode(e));
    }
    let bytes = resp.resources[0].value.as_slice();
    let decoded = cluster(bytes);
    assert(decodes(decoding(*cluster), resp.resources@[0].value@, decoded));
    match decoded {
        Ok(found) => {
            if let Some(config) = &found.eds_cluster_config {
                if !config.service_name.as_str().is_empty() {
                    return Ok(config.service_name.clone());
                }
            }
            Ok(found.name)
        },
        Err(e) => Err(XdsError::Decode("Cluster: ".to_owned().concat(e.as_str()))),
    }
}

/// The socket address of an endpoint, where it has one.
pub open spec fn socket_address_of(endpoint: LbEndpoint) -> Option<SocketAddress> {
    match endpoint.endpoint {
        Some(inner) => match inner.address {
            Some(address) => address.socket_address,
            None => None,
        },
        None => None,
    }
}

/// Addresses and ports of the endpoints that have one, in order.
pub open spec fn locality_endpoints(endpoints: Seq<LbEndpoint>) -> Seq<(Seq<char>, u32)>
    decreases endpoints.len(),
{
    if endpoints.len() == 0 {
        seq![]
    } else {
        let before = locality_endpoints(endpoints.drop_last());
        match socket_address_of(endpoints.last()) {
            Some(address) => before.push((address.address@, address.port_value)),
            None => before,
        }
    }
}

/// Addresses and ports of the endpoints in all localities, in order.
pub open spec fn assignment_endpoints(localities: Seq<LocalityLbEndpoints>) -> Seq<(Seq<char>, u32)>
    decreases localities.len(),
{
    if localities.len() == 0 {
        seq![]
    } else {
        assignment_endpoints(localities.drop_last()) + locality_endpoints(
            localities.last().lb_endpoints@,
        )
    }
}

/// The outcome of collecting endpoints from load assignment resources, behind
/// those found already: all of them in order, or the text of the error.
pub open spec fn eds_outcome(
    resources: Seq<Any>,
    assignment: Decoding<ClusterLoadAssignment>,
    found: Seq<(Seq<char>, u32)>,
    outcome: Result<Seq<(Seq<char>, u32)>, XdsErrorView>,
) -> bool
    decreases resources.len(),
{
    if resources.len() == 0 {
        if found.len() == 0 {
            outcome == Err::<Seq<(Seq<char>, u32)>, _>(
                XdsErrorView::Decode("no endpoints in EDS response"@),
            )
        } else {
            outcome == Ok::<_, XdsErrorView>(found)
        }
    } else {
        exists|decoded: Result<ClusterLoadAssignment, String>| #[trigger]
            decodes(assignment, resources[0].value@, decoded) && match decoded {
                Err(e) => outcome == Err::<Seq<(Seq<char>, u32)>, _>(
                    XdsErrorView::Decode("ClusterLoadAssignment: "@ + e@),
                ),
                Ok(cla) => eds_outcome(
                    resources.drop_first(),
                    assignment,
                    found + assignment_endpoints(cla.endpoints@),
                    outcome,
                ),
            }
    }
}

/// The outcome of an extraction that gives endpoints or an error.
pub open spec fn endpoints_outcome(r: Result<Vec<BackendEndpoint>, XdsError>) -> Result<
    Seq<(Seq<char>, u32)>,
    XdsErrorView,
> {
    match r {
        Ok(endpoints) => Ok(endpoints_view(endpoints@)),
        Err(e) => Err(e@),
    }
}

/// Appends the endpoints of a load assignment to those found already.
fn collect_endpoints(cla: &ClusterLoadAssignment, endpoints: &mut Vec<BackendEndpoint>)
    ensures
        endpoints_view(final(endpoints)@) == endpoints_view(old(endpoints)@)
            + assignment_endpoints(cla.endpoints@),
{
    let ghost start = endpoints_view(endpoints@);
    let localities = &cla.endpoints;
    let mut i: usize = 0;
    assert(start + assignment_endpoints(localities@.take(0)) =~= start);
    while i < localities.len()
        invariant
            i <= localities.len(),
            localities@ == cla.endpoints@,
            endpoints_view(endpoints@) == start + assignment_endpoints(localities@.take(i as int)),
        decreases localities.len() - i,
    {
        let ghost before = endpoints_view(endpoints@);
        let group = &localities[i].lb_endpoints;
        let mut j: usize = 0;
        assert(before + locality_endpoints(group@.take(0)) =~= before);
        while j < group.len()
            invariant
                j <= group.len(),
                endpoints_view(endpoints@) == before + locality_endpoints(group@.take(j as int)),
            decreases group.len() - j,
        {
            let ghost current = endpoints_view(endpoints@);
            assert(group@.take(j + 1).drop_last() =~= group@.take(j as int));
            if let Some(ep) = &group[j].endpoint {
                if let Some(addr) = &ep.address {
                    if let Some(sa) = &addr.socket_address {
                        endpoints.push(
                            BackendEndpoint { address: sa.address.clone(), port: sa.port_value },
                        );
                        assert(endpoints_view(endpoints@) =~= current.push(
                            (sa.address@, sa.port_value),
                        ));
                        assert(endpoints_view(endpoints@) =~= before + locality_endpoints(
                            group@.take(j + 1),
                        ));
                    }
                }
            }
            j += 1;
        }
        assert(group@.take(j as int) =~= group@);
        assert(localities@.take(i + 1).drop_last() =~= localities@.take(i as int));
        assert(endpoints_view(endpoints@) =~= start + assignment_endpoints(
            localities@.take(i + 1),
        ));
        i += 1;
    }
    assert(localities@.take(i as int) =~= localities@);
}

/// Collects the endpoints in an EDS response.
pub fn extract_endpoints_from_eds<A: Fn(&[u8]) -> Result<ClusterLoadAssignment, String>>(
    resp: &DiscoveryResponse,
    assignment: &A,
) -> (r: Result<Vec<BackendEndpoint>, XdsError>)
    requires
        decodes_any(*assignment),
    ensures
        r matches Ok(endpoints) ==> endpoints@.len() > 0,
        eds_outcome(resp.resources@, decoding(*assignment), seq![], endpoints_outcome(r)),
{
    let ghost ad = decoding(*assignment);
    let resources = &resp.resources;
    let mut endpoints: Vec<BackendEndpoint> = Vec::new();
    let mut i: usize = 0;
    assert(resources@.skip(0) =~= resources@);
    assert(endpoints_view(endpoints@) =~= seq![]);
    while i < resources.len()
        invariant
            i <= resources.len(),
            resources@ == resp.resources@,
            decodes_any(*assignment),
            ad == decoding(*assignment),
            forall|o: Result<Seq<(Seq<char>, u32)>, XdsErrorView>| #[trigger]
                eds_outcome(
                    resources@.skip(i as int),
                    ad,
                    endpoints_view(endpoints@),
                    o,
                ) ==> eds_outcome(resources@, ad, seq![], o),
        decreases resources.len() - i,
    {
        let ghost here = resources@.skip(i as int);
        let ghost rest = resources@.skip(i + 1);
        let ghost found = endpoints_view(endpoints@);
        proof {
            assert(here.drop_first() =~= rest);
            assert(here[0] == resources@[i as int]);
        }
        let bytes = resources[i].value.as_slice();
        let decoded = assignment(bytes);
        assert(decodes(ad, here[0].value@, decoded));
        let cla = match decoded {
            Ok(cla) => cla,
            Err(e) => {
                let r = Err(
                    XdsError::Decode("ClusterLoadAssignment: ".to_owned().concat(e.as_str())),
                );
                assert(eds_outcome(here, ad, found, endpoints_outcome(r)));
                return r;
            },
        };
        collect_endpoints(&cla, &mut endpoints);
        assert forall|o: Result<Seq<(Seq<char>, u32)>, XdsErrorView>| #[trigger]
            eds_outcome(rest, ad, endpoints_view(endpoints@), o) implies eds_outcome(
            resources@,
            ad,
            seq![],
            o,
        ) by {
            assert(eds_outcome(here, ad, found, o));
        }
        i += 1;
    }
    let ghost left = resources@.skip(i as int);
    if endpoints.is_empty() {
        let r = Err(XdsError::Decode("no endpoints in EDS response".to_owned()));
        assert(eds_outcome(left, ad, endpoints_view(endpoints@), endpoints_outcome(r)));
        return r;
    }
    let r = Ok(endpoints);
    assert(eds_outcome(left, ad, endpoints_view(r->Ok_0@), endpoints_outcome(r)));
    r
}

} // verus!
