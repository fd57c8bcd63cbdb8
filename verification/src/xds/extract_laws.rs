//! What is found in responses, in terms of the messages that they hold.

use crate::xds::error::XdsError;
use crate::xds::error::XdsErrorView;
use crate::xds::extract::assignment_endpoints;
use crate::xds::extract::cds_outcome;
use crate::xds::extract::decodes;
use crate::xds::extract::decodes_any;
use crate::xds::extract::decoding;
use crate::xds::extract::eds_name;
use crate::xds::extract::eds_outcome;
use crate::xds::extract::endpoints_outcome;
use crate::xds::extract::endpoints_view;
use crate::xds::extract::first_cluster;
use crate::xds::extract::host_clusters;
use crate::xds::extract::lds_outcome;
use crate::xds::extract::locality_endpoints;
use crate::xds::extract::manager_cluster;
use crate::xds::extract::manager_of;
use crate::xds::extract::name_outcome;
use crate::xds::extract::route_clusters;
use crate::xds::extract::socket_address_of;
use crate::xds::extract::BackendEndpoint;
use crate::xds::extract::Decoding;
use crate::xds::types::Any;
use crate::xds::types::Cluster;
use crate::xds::types::ClusterLoadAssignment;
use crate::xds::types::HttpConnectionManager;
use crate::xds::types::LbEndpoint;
use crate::xds::types::Listener;
use crate::xds::types::Route;
use crate::xds::types::RouteConfiguration;
use crate::xds::types::VirtualHost;
use vstd::prelude::*;

verus! {

/// Where no cluster is found among routes, none of them is named.
proof fn lemma_unnamed_routes(routes: Seq<Route>)
    requires
        route_clusters(routes).len() == 0,
    ensures
        forall|j: int|
            0 <= j < routes.len() ==> ((#[trigger] routes[j]).route is None
                || routes[j].route->0.cluster@.len() == 0),
    decreases routes.len(),
{
    if routes.len() > 0 {
        let shorter = routes.drop_last();
        lemma_unnamed_routes(shorter);
        assert forall|j: int| 0 <= j < routes.len() implies ((#[trigger] routes[j]).route is None
            || routes[j].route->0.cluster@.len() == 0) by {
            if j < shorter.len() {
                assert(shorter[j] == routes[j]);
            }
        }
    }
}

/// The first cluster among routes is that of the first named route.
proof fn lemma_first_route(routes: Seq<Route>) -> (j: int)
    requires
        route_clusters(routes).len() > 0,
    ensures
        0 <= j < routes.len(),
        routes[j].route is Some,
        routes[j].route->0.cluster@.len() > 0,
        routes[j].route->0.cluster@ == route_clusters(routes)[0],
        forall|k: int|
            0 <= k < j ==> ((#[trigger] routes[k]).route is None
                || routes[k].route->0.cluster@.len() == 0),
    decreases routes.len(),
{
    let shorter = routes.drop_last();
    if route_clusters(shorter).len() > 0 {
        let j = lemma_first_route(shorter);
        assert forall|k: int| 0 <= k < j implies ((#[trigger] routes[k]).route is None
            || routes[k].route->0.cluster@.len() == 0) by {
            assert(shorter[k] == routes[k]);
        }
        j
    } else {
        lemma_unnamed_routes(shorter);
        assert forall|k: int| 0 <= k < routes.len() - 1 implies ((#[trigger] routes[k]).route is None
            || routes[k].route->0.cluster@.len() == 0) by {
            assert(shorter[k] == routes[k]);
        }
        routes.len() - 1
    }
}

/// Where no cluster is found among virtual hosts, none of their routes is named.
proof fn lemma_unnamed_hosts(hosts: Seq<VirtualHost>)
    requires
        host_clusters(hosts).len() == 0,
    ensures
        forall|i: int, j: int|
            0 <= i < hosts.len() && 0 <= j < hosts[i].routes@.len() ==> ((
            #[trigger] hosts[i].routes@[j]).route is None
                || hosts[i].routes@[j].route->0.cluster@.len() == 0),
    decreases hosts.len(),
{
    if hosts.len() > 0 {
        let shorter = hosts.drop_last();
        lemma_unnamed_hosts(shorter);
        lemma_unnamed_routes(hosts.last().routes@);
        assert forall|i: int, j: int|
            0 <= i < hosts.len() && 0 <= j < hosts[i].routes@.len() implies ((
        #[trigger] hosts[i].routes@[j]).route is None || hosts[i].routes@[j].route->0.cluster@.len()
            == 0) by {
            if i < shorter.len() {
                assert(shorter[i] == hosts[i]);
                assert(shorter[i].routes@[j] == hosts[i].routes@[j]);
            }
        }
    }
}

/// The first cluster among virtual hosts is that of the first named route of the
/// first host that has one.
proof fn lemma_first_host(hosts: Seq<VirtualHost>) -> (at: (int, int))
    requires
        host_clusters(hosts).len() > 0,
    ensures
        0 <= at.0 < hosts.len(),
        0 <= at.1 < hosts[at.0].routes@.len(),
        hosts[at.0].routes@[at.1].route is Some,
        hosts[at.0].routes@[at.1].route->0.cluster@.len() > 0,
        hosts[at.0].routes@[at.1].route->0.cluster@ == host_clusters(hosts)[0],
        forall|i: int, j: int|
            0 <= i <= at.0 && 0 <= j < hosts[i].routes@.len() && (i < at.0 || j < at.1) ==> ((
            #[trigger] hosts[i].routes@[j]).route is None
                || hosts[i].routes@[j].route->0.cluster@.len() == 0),
    decreases hosts.len(),
{
    let shorter = hosts.drop_last();
    if host_clusters(shorter).len() > 0 {
        let at = lemma_first_host(shorter);
        assert forall|i: int, j: int|
            0 <= i <= at.0 && 0 <= j < hosts[i].routes@.len() && (i < at.0 || j < at.1) implies ((
        #[trigger] hosts[i].routes@[j]).route is None || hosts[i].routes@[j].route->0.cluster@.len()
            == 0) by {
            assert(shorter[i].routes@[j] == hosts[i].routes@[j]);
        }
        at
    } else {
        lemma_unnamed_hosts(shorter);
        let j = lemma_first_route(hosts.last().routes@);
        let at = (hosts.len() - 1, j);
        assert forall|i: int, k: int|
            0 <= i <= at.0 && 0 <= k < hosts[i].routes@.len() && (i < at.0 || k < at.1) implies ((
        #[trigger] hosts[i].routes@[k]).route is None || hosts[i].routes@[k].route->0.cluster@.len()
            == 0) by {
            if i < at.0 {
                assert(shorter[i].routes@[k] == hosts[i].routes@[k]);
            }
        }
        at
    }
}

/// The cluster that a route configuration leads to is the one named by the
/// first route that names any, in the order of the virtual hosts and, within a
/// host, of its routes. There is none only where no route at all names one.
///
/// Gives the host and the route of the cluster.
pub proof fn first_named_route_counts(config: RouteConfiguration) -> (at: (int, int))
    ensures
        ({
            let hosts = config.virtual_hosts@;
            match first_cluster(config) {
                Some(cluster) => {
                    &&& 0 <= at.0 < hosts.len()
                    &&& 0 <= at.1 < hosts[at.0].routes@.len()
                    &&& hosts[at.0].routes@[at.1].route is Some
                    &&& hosts[at.0].routes@[at.1].route->0.cluster@ == cluster
                    &&& cluster.len() > 0
                    &&& forall|i: int, j: int|
                        0 <= i <= at.0 && 0 <= j < hosts[i].routes@.len() && (i < at.0 || j < at.1)
                            ==> ((#[trigger] hosts[i].routes@[j]).route is None
                            || hosts[i].routes@[j].route->0.cluster@.len() == 0)
                },
                None => forall|i: int, j: int|
                    0 <= i < hosts.len() && 0 <= j < hosts[i].routes@.len() ==> ((
                    #[trigger] hosts[i].routes@[j]).route is None
                        || hosts[i].routes@[j].route->0.cluster@.len() == 0),
            }
        }),
{
    let hosts = config.virtual_hosts@;
    if host_clusters(hosts).len() > 0 {
        lemma_first_host(hosts)
    } else {
        lemma_unnamed_hosts(hosts);
        (0, 0)
    }
}

/// What a listener, a connection manager, a cluster and an endpoint hold, as
/// far as it is looked for.
pub proof fn messages_hold(
    listener: Listener,
    manager: HttpConnectionManager,
    cluster: Cluster,
    endpoint: LbEndpoint,
)
    ensures
        match manager_of(listener) {
            Some(any) => {
                &&& listener.api_listener is Some
                &&& listener.api_listener->0.api_listener == Some(any)
                &&& any.type_url@
                    == "type.googleapis.com/envoy.extensions.filters.network.http_connection_manager.v3.HttpConnectionManager"@
            },
            None => {
                ||| listener.api_listener is None
                ||| listener.api_listener->0.api_listener is None
                ||| listener.api_listener->0.api_listener->0.type_url@
                    != "type.googleapis.com/envoy.extensions.filters.network.http_connection_manager.v3.HttpConnectionManager"@
            },
        },
        manager.route_config is None ==> manager_cluster(manager) is None,
        manager.route_config matches Some(config) ==> manager_cluster(manager) == first_cluster(
            config,
        ),
        eds_name(cluster) == (if cluster.eds_cluster_config is Some
            && cluster.eds_cluster_config->0.service_name@.len() > 0 {
            cluster.eds_cluster_config->0.service_name@
        } else {
            cluster.name@
        }),
        match socket_address_of(endpoint) {
            Some(socket) => {
                &&& endpoint.endpoint is Some
                &&& endpoint.endpoint->0.address is Some
                &&& endpoint.endpoint->0.address->0.socket_address == Some(socket)
            },
            None => {
                ||| endpoint.endpoint is None
                ||| endpoint.endpoint->0.address is None
                ||| endpoint.endpoint->0.address->0.socket_address is None
            },
        },
{
}

/// Decoding is what the decoder may give for the bytes, and endpoints are seen
/// one by one with their address and port.
pub proof fn views_show_what_is_there<T>(
    relation: Decoding<T>,
    bytes: Seq<u8>,
    decoded: Result<T, String>,
    endpoints: Seq<BackendEndpoint>,
)
    ensures
        decodes(relation, bytes, decoded) == relation(bytes, decoded),
        endpoints_view(endpoints).len() == endpoints.len(),
        forall|i: int|
            0 <= i < endpoints.len() ==> #[trigger] endpoints_view(endpoints)[i] == (
                endpoints[i].address@,
                endpoints[i].port,
            ),
{
}

/// What a decoder may give for bytes is what its own contract allows for a slice
/// of these bytes, and nothing else.
pub proof fn decoding_is_the_decoders<T, D: Fn(&[u8]) -> Result<T, String>>(
    decode: D,
    bytes: Seq<u8>,
    decoded: Result<T, String>,
)
    ensures
        decodes(decoding(decode), bytes, decoded) <==> exists|b: &[u8]|
            b@ == bytes && #[trigger] decode.ensures((b,), decoded),
        decodes_any(decode) <==> forall|b: &[u8]| #[trigger] decode.requires((b,)),
{
}

/// The outcome of an extraction is its result, the name, the endpoints and the
/// error as they are.
pub proof fn outcomes_are_results(
    names: Result<String, XdsError>,
    endpoints: Result<Vec<BackendEndpoint>, XdsError>,
)
    ensures
        names matches Ok(name) ==> name_outcome(names) == Ok::<_, XdsErrorView>(name@),
        names matches Err(e) ==> name_outcome(names) == Err::<Seq<char>, _>(e@),
        endpoints matches Ok(list) ==> {
            &&& endpoints_outcome(endpoints) matches Ok(seen)
            &&& seen.len() == list@.len()
            &&& forall|i: int|
                0 <= i < list@.len() ==> #[trigger] seen[i] == (list@[i].address@, list@[i].port)
        },
        endpoints matches Err(e) ==> endpoints_outcome(endpoints) == Err::<
            Seq<(Seq<char>, u32)>,
            _,
        >(e@),
{
}

/// An error of discovery is seen as what it is, with its text.
pub proof fn errors_are_seen_whole(e: XdsError)
    ensures
        match e {
            XdsError::Transport(t) => e@ == XdsErrorView::Transport(t@),
            XdsError::Auth(t) => e@ == XdsErrorView::Auth(t@),
            XdsError::Rpc(t) => e@ == XdsErrorView::Rpc(t@),
            XdsError::Decode(t) => e@ == XdsErrorView::Decode(t@),
            XdsError::Metadata(t) => e@ == XdsErrorView::Metadata(t@),
            XdsError::StreamEnded => e@ == XdsErrorView::StreamEnded,
            XdsError::NoResponse(t) => e@ == XdsErrorView::NoResponse(t@),
            XdsError::ChannelClosed => e@ == XdsErrorView::ChannelClosed,
        },
{
}

/// How the search for a cluster in listeners comes to its outcome.
///
/// Gives the listeners that were passed, with the connection manager of each
/// where it has one. Each of them decodes and leads to no cluster. Then either
/// there are no more listeners and nothing is found, or the next listener or its
/// connection manager does not decode, with that error, or the next one leads to
/// the cluster.
pub proof fn listeners_are_passed_in_order(
    resources: Seq<Any>,
    listener: Decoding<Listener>,
    manager: Decoding<HttpConnectionManager>,
    outcome: Result<Seq<char>, XdsErrorView>,
) -> (passed: (Seq<Listener>, Seq<HttpConnectionManager>))
    requires
        lds_outcome(resources, listener, manager, outcome),
    ensures
        ({
            let (listeners, managers) = passed;
            let n = listeners.len() as int;
            &&& n <= resources.len()
            &&& managers.len() == n
            &&& forall|k: int|
                0 <= k < n ==> {
                    &&& decodes(listener, resources[k].value@, Ok(#[trigger] listeners[k]))
                    &&& manager_of(listeners[k]) matches Some(any) ==> decodes(
                        manager,
                        any.value@,
                        Ok(managers[k]),
                    ) && manager_cluster(managers[k]) is None
                }
            &&& match outcome {
                Ok(cluster) => n < resources.len() && exists|l: Listener, m: HttpConnectionManager|
                    {
                        &&& #[trigger] decodes(listener, resources[n].value@, Ok(l))
                        &&& manager_of(l) is Some
                        &&& #[trigger] decodes(manager, manager_of(l)->0.value@, Ok(m))
                        &&& manager_cluster(m) == Some(cluster)
                    },
                Err(e) => {
                    ||| n == resources.len() && e == XdsErrorView::Decode(
                        "no cluster found in LDS response"@,
                    )
                    ||| n < resources.len() && exists|t: String|
                        #[trigger] decodes(listener, resources[n].value@, Err(t)) && e
                            == XdsErrorView::Decode("Listener: "@ + t@)
                    ||| n < resources.len() && exists|l: Listener, t: String|
                        {
                            &&& #[trigger] decodes(listener, resources[n].value@, Ok(l))
                            &&& manager_of(l) is Some
                            &&& #[trigger] decodes(manager, manager_of(l)->0.value@, Err(t))
                            &&& e == XdsErrorView::Decode("HttpConnectionManager: "@ + t@)
                        }
                },
            }
        }),
    decreases resources.len(),
{
    if resources.len() == 0 {
        (seq![], seq![])
    } else {
        let rest = resources.drop_first();
        let first = resources[0].value@;
        let decoded = choose|decoded: Result<Listener, String>| #[trigger]
            decodes(listener, first, decoded) && match decoded {
                Err(e) => outcome == Err::<Seq<char>, _>(
                    XdsErrorView::Decode("Listener: "@ + e@),
                ),
                Ok(found) => match manager_of(found) {
                    None => lds_outcome(rest, listener, manager, outcome),
                    Some(any) => exists|inner: Result<HttpConnectionManager, String>| #[trigger]
                        decodes(manager, any.value@, inner) && match inner {
                            Err(e) => outcome == Err::<Seq<char>, _>(
                                XdsErrorView::Decode("HttpConnectionManager: "@ + e@),
                            ),
                            Ok(hcm) => match manager_cluster(hcm) {
                                Some(cluster) => outcome == Ok::<_, XdsErrorView>(cluster),
                                None => lds_outcome(rest, listener, manager, outcome),
                            },
                        },
                },
            };
        match decoded {
            Err(t) => {
                assert(decodes(listener, first, Err(t)));
                (seq![], seq![])
            },
            Ok(found) => match manager_of(found) {
                None => {
                    let (ls, ms) = listeners_are_passed_in_order(rest, listener, manager, outcome);
                    let listeners = seq![found] + ls;
                    let managers = seq![arbitrary::<HttpConnectionManager>()] + ms;
                    assert(listeners.drop_first() =~= ls);
                    assert(managers.drop_first() =~= ms);
                    lemma_passed(rest, resources, listeners, ls, managers, ms, listener, manager);
                    (listeners, managers)
                },
                Some(any) => {
                    let inner = choose|inner: Result<HttpConnectionManager, String>| #[trigger]
                        decodes(manager, any.value@, inner) && match inner {
                            Err(e) => outcome == Err::<Seq<char>, _>(
                                XdsErrorView::Decode("HttpConnectionManager: "@ + e@),
                            ),
                            Ok(hcm) => match manager_cluster(hcm) {
                                Some(cluster) => outcome == Ok::<_, XdsErrorView>(cluster),
                                None => lds_outcome(rest, listener, manager, outcome),
                            },
                        };
                    match inner {
                        Err(t) => {
                            assert(decodes(listener, first, Ok(found)));
                            assert(decodes(manager, any.value@, Err(t)));
                            (seq![], seq![])
                        },
                        Ok(hcm) => if manager_cluster(hcm) is Some {
                            assert(decodes(listener, first, Ok(found)));
                            assert(decodes(manager, any.value@, Ok(hcm)));
                            (seq![], seq![])
                        } else {
                            let (ls, ms) = listeners_are_passed_in_order(
                                rest,
                                listener,
                                manager,
                                outcome,
                            );
                            let listeners = seq![found] + ls;
                            let managers = seq![hcm] + ms;
                            assert(listeners.drop_first() =~= ls);
                            assert(managers.drop_first() =~= ms);
                            lemma_passed(
                                rest,
                                resources,
                                listeners,
                                ls,
                                managers,
                                ms,
                                listener,
                                manager,
                            );
                            (listeners, managers)
                        },
                    }
                },
            },
        }
    }
}

/// Listeners that were passed stay so behind one that is passed.
proof fn lemma_passed(
    rest: Seq<Any>,
    resources: Seq<Any>,
    listeners: Seq<Listener>,
    ls: Seq<Listener>,
    managers: Seq<HttpConnectionManager>,
    ms: Seq<HttpConnectionManager>,
    listener: Decoding<Listener>,
    manager: Decoding<HttpConnectionManager>,
)
    requires
        resources.len() > 0,
        rest == resources.drop_first(),
        listeners.len() == ls.len() + 1,
        listeners.drop_first() == ls,
        managers.len() == ms.len() + 1,
        managers.drop_first() == ms,
        ls.len() == ms.len(),
        ls.len() <= rest.len(),
        decodes(listener, resources[0].value@, Ok(listeners[0])),
        manager_of(listeners[0]) matches Some(any) ==> decodes(
            manager,
            any.value@,
            Ok(managers[0]),
        ) && manager_cluster(managers[0]) is None,
        forall|k: int|
            0 <= k < ls.len() ==> {
                &&& decodes(listener, rest[k].value@, Ok(#[trigger] ls[k]))
                &&& manager_of(ls[k]) matches Some(any) ==> decodes(
                    manager,
                    any.value@,
                    Ok(ms[k]),
                ) && manager_cluster(ms[k]) is None
            },
    ensures
        forall|k: int|
            0 <= k < listeners.len() ==> {
                &&& decodes(listener, resources[k].value@, Ok(#[trigger] listeners[k]))
                &&& manager_of(listeners[k]) matches Some(any) ==> decodes(
                    manager,
                    any.value@,
                    Ok(managers[k]),
                ) && manager_cluster(managers[k]) is None
            },
        ls.len() < rest.len() ==> rest[ls.len() as int] == resources[listeners.len() as int],
{
    assert forall|k: int| 0 <= k < listeners.len() implies {
        &&& decodes(listener, resources[k].value@, Ok(#[trigger] listeners[k]))
        &&& manager_of(listeners[k]) matches Some(any) ==> decodes(
            manager,
            any.value@,
            Ok(managers[k]),
        ) && manager_cluster(managers[k]) is None
    } by {
        if k > 0 {
            assert(ls[k - 1] == listeners[k]);
            assert(ms[k - 1] == managers[k]);
            assert(rest[k - 1] == resources[k]);
        }
    }
}

/// The first cluster resource decides: its error where it does not decode,
/// otherwise the service name in it, or its own name where that is empty or not
/// there. Without a resource the cluster that was asked for is not found.
pub proof fn first_cluster_resource_decides(
    resources: Seq<Any>,
    cluster_name: Seq<char>,
    cluster: Decoding<Cluster>,
    outcome: Result<Seq<char>, XdsErrorView>,
)
    requires
        cds_outcome(resources, cluster_name, cluster, outcome),
    ensures
        resources.len() == 0 ==> outcome == Err::<Seq<char>, _>(
            XdsErrorView::Decode("cluster '"@ + cluster_name + "' not found in CDS response"@),
        ),
        resources.len() > 0 ==> match outcome {
            Ok(name) => exists|c: Cluster|
                {
                    &&& #[trigger] decodes(cluster, resources[0].value@, Ok(c))
                    &&& if c.eds_cluster_config is Some
                        && c.eds_cluster_config->0.service_name@.len() > 0 {
                        name == c.eds_cluster_config->0.service_name@
                    } else {
                        name == c.name@
                    }
                },
            Err(e) => exists|t: String|
                #[trigger] decodes(cluster, resources[0].value@, Err(t)) && e
                    == XdsErrorView::Decode("Cluster: "@ + t@),
        },
{
    if resources.len() > 0 {
        let decoded = choose|decoded: Result<Cluster, String>| #[trigger]
            decodes(cluster, resources[0].value@, decoded) && match decoded {
                Err(e) => outcome == Err::<Seq<char>, _>(XdsErrorView::Decode("Cluster: "@ + e@)),
                Ok(found) => outcome == Ok::<_, XdsErrorView>(eds_name(found)),
            };
        match decoded {
            Ok(c) => {
                assert(decodes(cluster, resources[0].value@, Ok(c)));
            },
            Err(t) => {
                assert(decodes(cluster, resources[0].value@, Err(t)));
            },
        }
    }
}

/// The indices are in order, none of them twice.
spec fn ascending(places: Seq<int>) -> bool {
    forall|k: int, l: int| 0 <= k < l < places.len() ==> #[trigger] places[k] < #[trigger] places[l]
}

/// Which endpoints of a locality are found.
proof fn lemma_group_places(group: Seq<LbEndpoint>) -> (places: Seq<int>)
    ensures
        places.len() == locality_endpoints(group).len(),
        ascending(places),
        forall|k: int|
            0 <= k < places.len() ==> {
                &&& 0 <= #[trigger] places[k] < group.len()
                &&& socket_address_of(group[places[k]]) is Some
                &&& locality_endpoints(group)[k] == (
                    socket_address_of(group[places[k]])->0.address@,
                    socket_address_of(group[places[k]])->0.port_value,
                )
            },
        forall|c: int|
            0 <= c < group.len() && socket_address_of(#[trigger] group[c]) is Some
                ==> places.contains(c),
    decreases group.len(),
{
    if group.len() == 0 {
        seq![]
    } else {
        let shorter = group.drop_last();
        let before = lemma_group_places(shorter);
        let last = group.len() - 1;
        let places = if socket_address_of(group.last()) is Some {
            before.push(last)
        } else {
            before
        };
        assert forall|k: int| 0 <= k < places.len() implies {
            &&& 0 <= #[trigger] places[k] < group.len()
            &&& socket_address_of(group[places[k]]) is Some
            &&& locality_endpoints(group)[k] == (
                socket_address_of(group[places[k]])->0.address@,
                socket_address_of(group[places[k]])->0.port_value,
            )
        } by {
            if k < before.len() {
                assert(before[k] == places[k]);
                assert(shorter[before[k]] == group[places[k]]);
            }
        }
        assert forall|c: int|
            0 <= c < group.len() && socket_address_of(#[trigger] group[c]) is Some implies
            places.contains(c) by {
            if c < last {
                assert(shorter[c] == group[c]);
                let k = choose|k: int| 0 <= k < before.len() && before[k] == c;
                assert(places[k] == c);
            } else {
                assert(places[before.len() as int] == c);
            }
        }
        places
    }
}

/// One place is before another, by the first number in which they differ.
spec fn precedes(p: (int, int, int), q: (int, int, int)) -> bool {
    p.0 < q.0 || (p.0 == q.0 && (p.1 < q.1 || (p.1 == q.1 && p.2 < q.2)))
}

/// The endpoint at a place: which load assignment, which locality of it, which
/// endpoint of that.
spec fn is_place(assignments: Seq<ClusterLoadAssignment>, p: (int, int, int)) -> bool {
    &&& 0 <= p.0 < assignments.len()
    &&& 0 <= p.1 < assignments[p.0].endpoints@.len()
    &&& 0 <= p.2 < assignments[p.0].endpoints@[p.1].lb_endpoints@.len()
    &&& assignments[p.0].endpoints@[p.1].lb_endpoints@[p.2].endpoint is Some
    &&& assignments[p.0].endpoints@[p.1].lb_endpoints@[p.2].endpoint->0.address is Some
    &&& assignments[p.0].endpoints@[p.1].lb_endpoints@[p.2].endpoint->0.address->0.socket_address is Some
}

/// The address and port at a place.
spec fn at_place(assignments: Seq<ClusterLoadAssignment>, p: (int, int, int)) -> (
    Seq<char>,
    u32,
) {
    let socket = assignments[p.0].endpoints@[p.1].lb_endpoints@[p.2].endpoint->0.address->0.socket_address->0;
    (socket.address@, socket.port_value)
}

/// The endpoints are those at the places, in order and without gaps.
spec fn placed(
    assignments: Seq<ClusterLoadAssignment>,
    endpoints: Seq<(Seq<char>, u32)>,
    places: Seq<(int, int, int)>,
) -> bool {
    &&& places.len() == endpoints.len()
    &&& forall|k: int|
        0 <= k < places.len() ==> is_place(assignments, #[trigger] places[k]) && endpoints[k]
            == at_place(assignments, places[k])
    &&& forall|k: int, l: int|
        0 <= k < l < places.len() ==> precedes(#[trigger] places[k], #[trigger] places[l])
    &&& forall|p: (int, int, int)| #[trigger] is_place(assignments, p) ==> places.contains(p)
}

/// Which endpoints of the localities before the `n`th of the last assignment,
/// and of all assignments before it, are found.
proof fn lemma_locality_places(
    assignments: Seq<ClusterLoadAssignment>,
    n: int,
    before: Seq<(int, int, int)>,
) -> (places: Seq<(int, int, int)>)
    requires
        assignments.len() > 0,
        0 <= n <= assignments.last().endpoints@.len(),
        placed(assignments.drop_last(), all_endpoints(assignments.drop_last()), before),
    ensures
        ({
            let last = assignments.len() - 1;
            let found = all_endpoints(assignments.drop_last()) + assignment_endpoints(
                assignments.last().endpoints@.take(n),
            );
            &&& places.len() == found.len()
            &&& forall|k: int|
                0 <= k < places.len() ==> is_place(assignments, #[trigger] places[k]) && found[k]
                    == at_place(assignments, places[k]) && (places[k].0 < last || places[k].1 < n)
            &&& forall|k: int, l: int|
                0 <= k < l < places.len() ==> precedes(#[trigger] places[k], #[trigger] places[l])
            &&& forall|p: (int, int, int)|
                #[trigger] is_place(assignments, p) && (p.0 < last || p.1 < n) ==> places.contains(p)
        }),
    decreases n,
{
    let shorter = assignments.drop_last();
    let last = assignments.len() - 1;
    let localities = assignments.last().endpoints@;
    if n == 0 {
        assert(localities.take(0) =~= seq![]);
        let found = all_endpoints(shorter) + assignment_endpoints(localities.take(0));
        assert(found =~= all_endpoints(shorter));
        assert forall|k: int| 0 <= k < before.len() implies is_place(
            assignments,
            #[trigger] before[k],
        ) && found[k] == at_place(assignments, before[k]) && (before[k].0 < last || before[k].1 < n)
            by {
            assert(is_place(shorter, before[k]));
            assert(shorter[before[k].0] == assignments[before[k].0]);
        }
        assert forall|p: (int, int, int)|
            #[trigger] is_place(assignments, p) && (p.0 < last || p.1 < n) implies before.contains(
            p,
        ) by {
            assert(shorter[p.0] == assignments[p.0]);
            assert(is_place(shorter, p));
        }
        before
    } else {
        let so_far = lemma_locality_places(assignments, n - 1, before);
        let group = localities[n - 1].lb_endpoints@;
        let in_group = lemma_group_places(group);
        let more = in_group.map_values(|c: int| (last, n - 1, c));
        let places = so_far + more;
        assert(localities.take(n).drop_last() =~= localities.take(n - 1));
        assert(localities.take(n).last() == localities[n - 1]);
        let found_before = all_endpoints(shorter) + assignment_endpoints(localities.take(n - 1));
        let found = all_endpoints(shorter) + assignment_endpoints(localities.take(n));
        assert(found =~= found_before + locality_endpoints(group));
        assert forall|k: int| 0 <= k < places.len() implies is_place(
            assignments,
            #[trigger] places[k],
        ) && found[k] == at_place(assignments, places[k]) && (places[k].0 < last || places[k].1 < n)
            by {
            if k < so_far.len() {
                assert(places[k] == so_far[k]);
            } else {
                let c = in_group[k - so_far.len()];
                assert(places[k] == (last, n - 1, c));
                assert(socket_address_of(group[c]) is Some);
            }
        }
        assert forall|k: int, l: int| 0 <= k < l < places.len() implies precedes(
            #[trigger] places[k],
            #[trigger] places[l],
        ) by {
            if l < so_far.len() {
                assert(places[k] == so_far[k] && places[l] == so_far[l]);
            } else if k < so_far.len() {
                assert(places[k] == so_far[k]);
                assert(is_place(assignments, so_far[k]));
                assert(places[l] == (last, n - 1, in_group[l - so_far.len()]));
            } else {
                assert(in_group[k - so_far.len()] < in_group[l - so_far.len()]);
            }
        }
        assert forall|p: (int, int, int)|
            #[trigger] is_place(assignments, p) && (p.0 < last || p.1 < n) implies places.contains(
            p,
        ) by {
            if p.0 < last || p.1 < n - 1 {
                assert(so_far.contains(p));
                let k = choose|k: int| 0 <= k < so_far.len() && so_far[k] == p;
                assert(places[k] == p);
            } else {
                assert(socket_address_of(group[p.2]) is Some);
                assert(in_group.contains(p.2));
                let k = choose|k: int| 0 <= k < in_group.len() && in_group[k] == p.2;
                assert(places[so_far.len() + k] == p);
            }
        }
        places
    }
}

/// The endpoints of load assignments, in order.
spec fn all_endpoints(assignments: Seq<ClusterLoadAssignment>) -> Seq<(Seq<char>, u32)>
    decreases assignments.len(),
{
    if assignments.len() == 0 {
        seq![]
    } else {
        all_endpoints(assignments.drop_last()) + assignment_endpoints(
            assignments.last().endpoints@,
        )
    }
}

/// Which endpoints of load assignments are found.
proof fn lemma_places(assignments: Seq<ClusterLoadAssignment>) -> (places: Seq<(int, int, int)>)
    ensures
        placed(assignments, all_endpoints(assignments), places),
    decreases assignments.len(),
{
    if assignments.len() == 0 {
        seq![]
    } else {
        let before = lemma_places(assignments.drop_last());
        let localities = assignments.last().endpoints@;
        let places = lemma_locality_places(assignments, localities.len() as int, before);
        assert(localities.take(localities.len() as int) =~= localities);
        places
    }
}

/// The load assignments that were decoded on the way to an outcome.
proof fn lemma_assignments(
    resources: Seq<Any>,
    assignment: Decoding<ClusterLoadAssignment>,
    found: Seq<(Seq<char>, u32)>,
    outcome: Result<Seq<(Seq<char>, u32)>, XdsErrorView>,
) -> (assignments: Seq<ClusterLoadAssignment>)
    requires
        eds_outcome(resources, assignment, found, outcome),
    ensures
        assignments.len() <= resources.len(),
        forall|i: int|
            0 <= i < assignments.len() ==> decodes(
                assignment,
                resources[i].value@,
                Ok(#[trigger] assignments[i]),
            ),
        match outcome {
            Ok(endpoints) => {
                &&& assignments.len() == resources.len()
                &&& endpoints == found + all_endpoints(assignments)
                &&& endpoints.len() > 0
            },
            Err(e) => {
                ||| assignments.len() == resources.len() && (found + all_endpoints(
                    assignments,
                )).len() == 0 && e == XdsErrorView::Decode("no endpoints in EDS response"@)
                ||| assignments.len() < resources.len() && exists|t: String|
                    #[trigger] decodes(
                        assignment,
                        resources[assignments.len() as int].value@,
                        Err(t),
                    ) && e == XdsErrorView::Decode("ClusterLoadAssignment: "@ + t@)
            },
        },
    decreases resources.len(),
{
    if resources.len() == 0 {
        assert(found + all_endpoints(seq![]) =~= found);
        seq![]
    } else {
        let rest = resources.drop_first();
        let decoded = choose|decoded: Result<ClusterLoadAssignment, String>| #[trigger]
            decodes(assignment, resources[0].value@, decoded) && match decoded {
                Err(e) => outcome == Err::<Seq<(Seq<char>, u32)>, _>(
                    XdsErrorView::Decode("ClusterLoadAssignment: "@ + e@),
                ),
                Ok(cla) => eds_outcome(
                    rest,
                    assignment,
                    found + assignment_endpoints(cla.endpoints@),
                    outcome,
                ),
            };
        match decoded {
            Err(t) => {
                assert(decodes(assignment, resources[0].value@, Err(t)));
                seq![]
            },
            Ok(cla) => {
                let more = assignment_endpoints(cla.endpoints@);
                let later = lemma_assignments(rest, assignment, found + more, outcome);
                let assignments = seq![cla] + later;
                lemma_all_endpoints(cla, later);
                assert((found + more) + all_endpoints(later) =~= found + (more + all_endpoints(
                    later,
                )));
                assert forall|i: int| 0 <= i < assignments.len() implies decodes(
                    assignment,
                    resources[i].value@,
                    Ok(#[trigger] assignments[i]),
                ) by {
                    if i > 0 {
                        assert(assignments[i] == later[i - 1]);
                        assert(rest[i - 1] == resources[i]);
                    }
                }
                if later.len() < rest.len() {
                    assert(rest[later.len() as int] == resources[assignments.len() as int]);
                }
                assignments
            },
        }
    }
}

/// The endpoints of the first load assignment come first.
proof fn lemma_all_endpoints(first: ClusterLoadAssignment, later: Seq<ClusterLoadAssignment>)
    ensures
        all_endpoints(seq![first] + later) == assignment_endpoints(first.endpoints@)
            + all_endpoints(later),
    decreases later.len(),
{
    let all = seq![first] + later;
    if later.len() == 0 {
        assert(all.drop_last() =~= seq![]);
        assert(all_endpoints(all.drop_last()) =~= seq![]);
        assert(all_endpoints(later) =~= seq![]);
        assert(all_endpoints(all) =~= assignment_endpoints(first.endpoints@) + all_endpoints(later));
    } else {
        lemma_all_endpoints(first, later.drop_last());
        assert(all.drop_last() =~= seq![first] + later.drop_last());
        assert(all_endpoints(all) =~= assignment_endpoints(first.endpoints@) + all_endpoints(later));
    }
}

/// The endpoints found in load assignments are complete and in order.
///
/// Gives the load assignments that were decoded, and the place of each endpoint
/// found. Where endpoints are found, all resources decode; each endpoint is the
/// address and port at its place; the places are in order, none of them twice;
/// and every endpoint with a socket address, in any locality of any resource,
/// has its place among them. So there are as many as there are such endpoints.
/// Where none are found, either a resource does not decode, with that error, or
/// no endpoint in any of them has a socket address.
pub proof fn endpoints_are_complete(
    resources: Seq<Any>,
    assignment: Decoding<ClusterLoadAssignment>,
    outcome: Result<Seq<(Seq<char>, u32)>, XdsErrorView>,
) -> (found: (Seq<ClusterLoadAssignment>, Seq<(int, int, int)>))
    requires
        eds_outcome(resources, assignment, seq![], outcome),
    ensures
        ({
            let (assignments, places) = found;
            &&& assignments.len() <= resources.len()
            &&& forall|i: int|
                0 <= i < assignments.len() ==> decodes(
                    assignment,
                    resources[i].value@,
                    Ok(#[trigger] assignments[i]),
                )
            &&& match outcome {
                Ok(endpoints) => {
                    &&& assignments.len() == resources.len()
                    &&& endpoints.len() > 0
                    &&& places.len() == endpoints.len()
                    &&& forall|k: int|
                        0 <= k < places.len() ==> {
                            let (a, b, c) = #[trigger] places[k];
                            let endpoint = assignments[a].endpoints@[b].lb_endpoints@[c];
                            let socket = endpoint.endpoint->0.address->0.socket_address->0;
                            &&& 0 <= a < assignments.len()
                            &&& 0 <= b < assignments[a].endpoints@.len()
                            &&& 0 <= c < assignments[a].endpoints@[b].lb_endpoints@.len()
                            &&& endpoint.endpoint is Some
                            &&& endpoint.endpoint->0.address is Some
                            &&& endpoint.endpoint->0.address->0.socket_address is Some
                            &&& endpoints[k] == (socket.address@, socket.port_value)
                        }
                    &&& forall|k: int, l: int|
                        0 <= k < l < places.len() ==> {
                            let (a, b, c) = #[trigger] places[k];
                            let (x, y, z) = #[trigger] places[l];
                            a < x || (a == x && (b < y || (b == y && c < z)))
                        }
                    &&& forall|a: int, b: int, c: int|
                        0 <= a < assignments.len() && 0 <= b < assignments[a].endpoints@.len() && 0
                            <= c < assignments[a].endpoints@[b].lb_endpoints@.len()
                            && assignments[a].endpoints@[b].lb_endpoints@[c].endpoint is Some
                            && assignments[a].endpoints@[b].lb_endpoints@[c].endpoint->0.address is Some
                            && assignments[a].endpoints@[b].lb_endpoints@[c].endpoint->0.address->0.socket_address is Some
                            ==> #[trigger] places.contains((a, b, c))
                },
                Err(e) => {
                    ||| assignments.len() < resources.len() && exists|t: String|
                        #[trigger] decodes(
                            assignment,
                            resources[assignments.len() as int].value@,
                            Err(t),
                        ) && e == XdsErrorView::Decode("ClusterLoadAssignment: "@ + t@)
                    ||| {
                        &&& assignments.len() == resources.len()
                        &&& e == XdsErrorView::Decode("no endpoints in EDS response"@)
                        &&& forall|a: int, b: int, c: int|
                            0 <= a < assignments.len() && 0 <= b < assignments[a].endpoints@.len()
                                && 0 <= c < assignments[a].endpoints@[b].lb_endpoints@.len() ==> {
                                let endpoint =
                                    #[trigger] assignments[a].endpoints@[b].lb_endpoints@[c];
                                ||| endpoint.endpoint is None
                                ||| endpoint.endpoint->0.address is None
                                ||| endpoint.endpoint->0.address->0.socket_address is None
                            }
                    }
                },
            }
        }),
{
    let assignments = lemma_assignments(resources, assignment, seq![], outcome);
    let places = lemma_places(assignments);
    assert(Seq::<(Seq<char>, u32)>::empty() + all_endpoints(assignments) =~= all_endpoints(
        assignments,
    ));
    if outcome is Ok {
        assert forall|k: int| 0 <= k < places.len() implies {
            let (a, b, c) = #[trigger] places[k];
            let endpoint = assignments[a].endpoints@[b].lb_endpoints@[c];
            let socket = endpoint.endpoint->0.address->0.socket_address->0;
            &&& 0 <= a < assignments.len()
            &&& 0 <= b < assignments[a].endpoints@.len()
            &&& 0 <= c < assignments[a].endpoints@[b].lb_endpoints@.len()
            &&& endpoint.endpoint is Some
            &&& endpoint.endpoint->0.address is Some
            &&& endpoint.endpoint->0.address->0.socket_address is Some
            &&& outcome->Ok_0[k] == (socket.address@, socket.port_value)
        } by {
            assert(is_place(assignments, places[k]));
        }
        assert forall|k: int, l: int| 0 <= k < l < places.len() implies {
            let (a, b, c) = #[trigger] places[k];
            let (x, y, z) = #[trigger] places[l];
            a < x || (a == x && (b < y || (b == y && c < z)))
        } by {
            assert(precedes(places[k], places[l]));
        }
        assert forall|a: int, b: int, c: int|
            0 <= a < assignments.len() && 0 <= b < assignments[a].endpoints@.len() && 0 <= c
                < assignments[a].endpoints@[b].lb_endpoints@.len()
                && assignments[a].endpoints@[b].lb_endpoints@[c].endpoint is Some
                && assignments[a].endpoints@[b].lb_endpoints@[c].endpoint->0.address is Some
                && assignments[a].endpoints@[b].lb_endpoints@[c].endpoint->0.address->0.socket_address is Some
            implies #[trigger] places.contains((a, b, c)) by {
            assert(is_place(assignments, (a, b, c)));
        }
    } else if assignments.len() == resources.len() && all_endpoints(assignments).len() == 0 {
        assert forall|a: int, b: int, c: int|
            0 <= a < assignments.len() && 0 <= b < assignments[a].endpoints@.len() && 0 <= c
                < assignments[a].endpoints@[b].lb_endpoints@.len() implies {
            let endpoint = #[trigger] assignments[a].endpoints@[b].lb_endpoints@[c];
            ||| endpoint.endpoint is None
            ||| endpoint.endpoint->0.address is None
            ||| endpoint.endpoint->0.address->0.socket_address is None
        } by {
            if is_place(assignments, (a, b, c)) {
                assert(places.contains((a, b, c)));
            }
        }
    }
    (assignments, places)
}

} // verus!
