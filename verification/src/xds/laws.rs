//! What holds of whole discoveries, and of what they find.

use crate::text::hex;
use crate::text::hex_byte;
use crate::text::lemma_before_last;
use crate::text::lemma_hex;
use crate::text::lemma_split_at;
use crate::text::lemma_split_one;
use crate::text::split;
use crate::xds::discovery::ack_of;
use crate::xds::discovery::is_step;
use crate::xds::discovery::request_for;
use crate::xds::discovery::DecodersView;
use crate::xds::discovery::DiscoveryView;
use crate::xds::discovery::StageView;
use crate::xds::discovery::StepView;
use crate::xds::discovery::StreamEvent;
use crate::xds::discovery::MAX_RESPONSES;
use crate::xds::error::XdsErrorView;
use crate::xds::extract::assignment_endpoints;
use crate::xds::extract::cds_outcome;
use crate::xds::extract::decodes;
use crate::xds::extract::eds_outcome;
use crate::xds::extract::first_cluster;
use crate::xds::extract::host_clusters;
use crate::xds::extract::lds_outcome;
use crate::xds::extract::manager_cluster;
use crate::xds::extract::manager_of;
use crate::xds::extract::route_clusters;
use crate::xds::extract::Decoding;
use crate::xds::node::node_in;
use crate::xds::node::node_metadata;
use crate::xds::node::uuid_bytes;
use crate::xds::node::uuid_text;
use crate::xds::types::Any;
use crate::xds::types::ClusterLoadAssignment;
use crate::xds::types::DiscoveryResponse;
use crate::xds::types::HttpConnectionManager;
use crate::xds::types::Listener;
use crate::xds::types::NodeView;
use crate::xds::types::RequestView;
use crate::xds::types::Route;
use crate::xds::types::RouteConfiguration;
use crate::xds::types::VirtualHost;
use crate::xds::types::CDS_TYPE_URL;
use crate::xds::types::EDS_TYPE_URL;
use crate::xds::types::LDS_TYPE_URL;
use vstd::prelude::*;

verus! {

/// None of the names is empty.
spec fn all_named(names: Seq<Seq<char>>) -> bool {
    forall|i: int| 0 <= i < names.len() ==> (#[trigger] names[i]).len() > 0
}

/// No cluster that routes lead to has the empty name.
proof fn lemma_route_clusters_named(routes: Seq<Route>)
    ensures
        all_named(route_clusters(routes)),
    decreases routes.len(),
{
    if routes.len() > 0 {
        lemma_route_clusters_named(routes.drop_last());
    }
}

/// No cluster that the routes of virtual hosts lead to has the empty name.
proof fn lemma_host_clusters_named(hosts: Seq<VirtualHost>)
    ensures
        all_named(host_clusters(hosts)),
    decreases hosts.len(),
{
    if hosts.len() > 0 {
        lemma_host_clusters_named(hosts.drop_last());
        lemma_route_clusters_named(hosts.last().routes@);
    }
}

/// A route configuration never leads to a cluster with the empty name.
pub proof fn first_cluster_is_named(config: RouteConfiguration)
    ensures
        first_cluster(config) matches Some(cluster) ==> cluster.len() > 0,
{
    lemma_host_clusters_named(config.virtual_hosts@);
}

/// A cluster found in listeners never has the empty name.
pub proof fn found_cluster_is_named(
    resources: Seq<Any>,
    listener: Decoding<Listener>,
    manager: Decoding<HttpConnectionManager>,
    cluster: Seq<char>,
)
    requires
        lds_outcome(resources, listener, manager, Ok(cluster)),
    ensures
        cluster.len() > 0,
    decreases resources.len(),
{
    let rest = resources.drop_first();
    let decoded = choose|decoded: Result<Listener, String>| #[trigger]
        decodes(listener, resources[0].value@, decoded) && match decoded {
            Err(e) => false,
            Ok(found) => match manager_of(found) {
                None => lds_outcome(rest, listener, manager, Ok(cluster)),
                Some(any) => exists|inner: Result<HttpConnectionManager, String>| #[trigger]
                    decodes(manager, any.value@, inner) && match inner {
                        Err(e) => false,
                        Ok(hcm) => match manager_cluster(hcm) {
                            Some(c) => cluster == c,
                            None => lds_outcome(rest, listener, manager, Ok(cluster)),
                        },
                    },
            },
        };
    match manager_of(decoded->Ok_0) {
        None => found_cluster_is_named(rest, listener, manager, cluster),
        Some(any) => {
            let inner = choose|inner: Result<HttpConnectionManager, String>| #[trigger]
                decodes(manager, any.value@, inner) && match inner {
                    Err(e) => false,
                    Ok(hcm) => match manager_cluster(hcm) {
                        Some(c) => cluster == c,
                        None => lds_outcome(rest, listener, manager, Ok(cluster)),
                    },
                };
            match manager_cluster(inner->Ok_0) {
                Some(_) => first_cluster_is_named(inner->Ok_0.route_config->Some_0),
                None => found_cluster_is_named(rest, listener, manager, cluster),
            }
        },
    }
}

/// Endpoints found in load assignments are never none, and those found before
/// come first.
pub proof fn found_endpoints_are_some(
    resources: Seq<Any>,
    assignment: Decoding<ClusterLoadAssignment>,
    found: Seq<(Seq<char>, u32)>,
    endpoints: Seq<(Seq<char>, u32)>,
)
    requires
        eds_outcome(resources, assignment, found, Ok(endpoints)),
    ensures
        endpoints.len() > 0,
        found.is_prefix_of(endpoints),
    decreases resources.len(),
{
    if resources.len() > 0 {
        let rest = resources.drop_first();
        let decoded = choose|decoded: Result<ClusterLoadAssignment, String>| #[trigger]
            decodes(assignment, resources[0].value@, decoded) && match decoded {
                Err(e) => false,
                Ok(cla) => eds_outcome(
                    rest,
                    assignment,
                    found + assignment_endpoints(cla.endpoints@),
                    Ok(endpoints),
                ),
            };
        let more = assignment_endpoints(decoded->Ok_0.endpoints@);
        found_endpoints_are_some(rest, assignment, found + more, endpoints);
        assert(found =~= (found + more).subrange(0, found.len() as int));
        assert(found =~= endpoints.subrange(0, found.len() as int));
    }
}

impl StageView {
    /// How many responses have been waited for and received.
    pub open spec fn index(self) -> nat {
        match self {
            StageView::Listener => 0,
            StageView::Cluster(_) => 1,
            StageView::Endpoints => 2,
        }
    }
}

impl DiscoveryView {
    /// How many responses may still come before the discovery ends, at most.
    pub open spec fn budget(self) -> int {
        (3 - self.stage.index()) * MAX_RESPONSES - self.skipped
    }
}

/// A step that goes on keeps the service and the node, leaves a discovery that
/// may go on, and brings its end nearer. It either skips a response and sends
/// nothing, or acknowledges the response and asks for the next resource: the
/// acknowledgement has the version and the nonce of the response, the request
/// has neither, and both are the node's.
pub proof fn step_goes_on(
    state: DiscoveryView,
    event: StreamEvent,
    decoders: DecodersView,
    next: DiscoveryView,
    requests: Seq<RequestView>,
)
    requires
        state.wf(),
        is_step(state, event, decoders, StepView::Continue(next, requests)),
    ensures
        next.wf(),
        next.service_name == state.service_name,
        next.node == state.node,
        0 < next.budget() < state.budget(),
        event is Response,
        requests.len() == 0 ==> next.stage == state.stage && event->Response_0.type_url@
            != state.stage.type_url(),
        requests.len() > 0 ==> {
            let resp = event->Response_0;
            &&& requests.len() == 2
            &&& next.stage.index() == state.stage.index() + 1
            &&& resp.type_url@ == state.stage.type_url()
            &&& requests[0].type_url == resp.type_url@
            &&& requests[0].version_info == resp.version_info@
            &&& requests[0].response_nonce == resp.nonce@
            &&& requests[1].type_url == next.stage.type_url()
            &&& requests[1].version_info.len() == 0
            &&& requests[1].response_nonce.len() == 0
            &&& forall|i: int|
                0 <= i < 2 ==> (#[trigger] requests[i]).node == Some(state.node)
                    && requests[i].resource_names.len() == 1
        },
{
}

/// The discovery may take these events and find these endpoints at the last
/// one, having sent these requests on the way.
pub open spec fn finds(
    state: DiscoveryView,
    decoders: DecodersView,
    events: Seq<StreamEvent>,
    sent: Seq<RequestView>,
    endpoints: Seq<(Seq<char>, u32)>,
) -> bool
    decreases events.len(),
{
    events.len() > 0 && exists|step: StepView| #[trigger]
        is_step(state, events[0], decoders, step) && match step {
            StepView::Continue(next, requests) => {
                &&& requests.is_prefix_of(sent)
                &&& finds(
                    next,
                    decoders,
                    events.drop_first(),
                    sent.skip(requests.len() as int),
                    endpoints,
                )
            },
            StepView::Done(found) => {
                &&& events.len() == 1
                &&& sent.len() == 0
                &&& found == endpoints
            },
            StepView::Failed(_) => false,
        }
}

/// The discovery may take these events and come to this state.
pub open spec fn reaches(
    state: DiscoveryView,
    decoders: DecodersView,
    events: Seq<StreamEvent>,
    end: DiscoveryView,
) -> bool
    decreases events.len(),
{
    if events.len() == 0 {
        end == state
    } else {
        exists|step: StepView| #[trigger]
            is_step(state, events[0], decoders, step) && match step {
                StepView::Continue(next, _) => reaches(next, decoders, events.drop_first(), end),
                _ => false,
            }
    }
}

/// A discovery ends: it takes only so many events before it has endpoints or
/// has failed. On the way it keeps the service and the node.
pub proof fn discovery_ends(
    state: DiscoveryView,
    decoders: DecodersView,
    events: Seq<StreamEvent>,
    end: DiscoveryView,
)
    requires
        state.wf(),
        reaches(state, decoders, events, end),
    ensures
        end.wf(),
        end.service_name == state.service_name,
        end.node == state.node,
        events.len() + end.budget() <= state.budget(),
        events.len() < 3 * MAX_RESPONSES,
    decreases events.len(),
{
    if events.len() > 0 {
        let step = choose|step: StepView| #[trigger]
            is_step(state, events[0], decoders, step) && match step {
                StepView::Continue(next, _) => reaches(next, decoders, events.drop_first(), end),
                _ => false,
            };
        step_goes_on(state, events[0], decoders, step->Continue_0, step->Continue_1);
        discovery_ends(step->Continue_0, decoders, events.drop_first(), end);
    }
}

/// The endpoints of a service, from the three responses that lead to them:
/// what the responses are, what was found in them, and what was sent after
/// the first request.
pub open spec fn is_chain(
    service_name: Seq<char>,
    node: NodeView,
    decoders: DecodersView,
    lds: DiscoveryResponse,
    cds: DiscoveryResponse,
    eds: DiscoveryResponse,
    cluster: Seq<char>,
    name: Seq<char>,
    sent: Seq<RequestView>,
    endpoints: Seq<(Seq<char>, u32)>,
) -> bool {
    &&& lds.type_url@ == LDS_TYPE_URL@
    &&& cds.type_url@ == CDS_TYPE_URL@
    &&& eds.type_url@ == EDS_TYPE_URL@
    &&& lds_outcome(lds.resources@, decoders.listener, decoders.manager, Ok(cluster))
    &&& cds_outcome(cds.resources@, cluster, decoders.cluster, Ok(name))
    &&& eds_outcome(eds.resources@, decoders.assignment, seq![], Ok(endpoints))
    &&& sent == seq![
        ack_of(node, LDS_TYPE_URL@, service_name, lds),
        request_for(node, CDS_TYPE_URL@, cluster),
        ack_of(node, CDS_TYPE_URL@, cluster, cds),
        request_for(node, EDS_TYPE_URL@, name),
    ]
}

/// The step of a discovery that finds endpoints, taken at its first event.
spec fn finding_step(
    state: DiscoveryView,
    decoders: DecodersView,
    events: Seq<StreamEvent>,
    sent: Seq<RequestView>,
    endpoints: Seq<(Seq<char>, u32)>,
) -> StepView {
    choose|step: StepView| #[trigger]
        is_step(state, events[0], decoders, step) && match step {
            StepView::Continue(next, requests) => {
                &&& requests.is_prefix_of(sent)
                &&& finds(
                    next,
                    decoders,
                    events.drop_first(),
                    sent.skip(requests.len() as int),
                    endpoints,
                )
            },
            StepView::Done(found) => {
                &&& events.len() == 1
                &&& sent.len() == 0
                &&& found == endpoints
            },
            StepView::Failed(_) => false,
        }
}

/// What a discovery that waits for endpoints finds comes from a response among
/// the events.
proof fn lemma_finds_endpoints(
    state: DiscoveryView,
    decoders: DecodersView,
    events: Seq<StreamEvent>,
    sent: Seq<RequestView>,
    endpoints: Seq<(Seq<char>, u32)>,
) -> (k: int)
    requires
        finds(state, decoders, events, sent, endpoints),
        state.stage == StageView::Endpoints,
    ensures
        k == events.len() - 1,
        events[k] is Response,
        events[k]->Response_0.type_url@ == EDS_TYPE_URL@,
        eds_outcome(
            events[k]->Response_0.resources@,
            decoders.assignment,
            seq![],
            Ok(endpoints),
        ),
        sent.len() == 0,
    decreases events.len(),
{
    let step = finding_step(state, decoders, events, sent, endpoints);
    match step {
        StepView::Continue(next, requests) => {
            let rest = events.drop_first();
            assert(requests.len() == 0);
            assert(sent.skip(0) =~= sent);
            let k = lemma_finds_endpoints(next, decoders, rest, sent, endpoints);
            assert(rest[k] == events[k + 1]);
            k + 1
        },
        _ => 0,
    }
}

/// What a discovery that waits for a cluster finds comes from two responses
/// among the events.
proof fn lemma_finds_by_cluster(
    state: DiscoveryView,
    decoders: DecodersView,
    events: Seq<StreamEvent>,
    sent: Seq<RequestView>,
    endpoints: Seq<(Seq<char>, u32)>,
) -> (found: (int, Seq<char>))
    requires
        finds(state, decoders, events, sent, endpoints),
        state.stage is Cluster,
    ensures
        ({
            let (k, name) = found;
            let m = events.len() - 1;
            let cluster = state.stage->Cluster_0;
            &&& 0 <= k < m
            &&& events[k] is Response
            &&& events[m] is Response
            &&& events[k]->Response_0.type_url@ == CDS_TYPE_URL@
            &&& events[m]->Response_0.type_url@ == EDS_TYPE_URL@
            &&& cds_outcome(
                events[k]->Response_0.resources@,
                cluster,
                decoders.cluster,
                Ok(name),
            )
            &&& eds_outcome(
                events[m]->Response_0.resources@,
                decoders.assignment,
                seq![],
                Ok(endpoints),
            )
            &&& sent == seq![
                ack_of(state.node, CDS_TYPE_URL@, cluster, events[k]->Response_0),
                request_for(state.node, EDS_TYPE_URL@, name),
            ]
        }),
    decreases events.len(),
{
    let step = finding_step(state, decoders, events, sent, endpoints);
    let next = step->Continue_0;
    let requests = step->Continue_1;
    let rest = events.drop_first();
    if requests.len() == 0 {
        assert(sent.skip(0) =~= sent);
        let (k, name) = lemma_finds_by_cluster(next, decoders, rest, sent, endpoints);
        assert(rest[k] == events[k + 1]);
        assert(rest.last() == events.last());
        (k + 1, name)
    } else {
        let cluster = state.stage->Cluster_0;
        let resp = events[0]->Response_0;
        let outcome = choose|outcome: Result<Seq<char>, XdsErrorView>| #[trigger]
            cds_outcome(resp.resources@, cluster, decoders.cluster, outcome) && outcome is Ok
                && requests[1] == request_for(state.node, EDS_TYPE_URL@, outcome->Ok_0);
        let k = lemma_finds_endpoints(next, decoders, rest, sent.skip(2), endpoints);
        assert(rest[k] == events[k + 1]);
        assert(sent =~= requests + sent.skip(2));
        assert(sent =~= requests);
        (0, outcome->Ok_0)
    }
}

/// What a discovery that waits for a listener finds comes from three responses
/// among the events.
proof fn lemma_finds_by_listener(
    state: DiscoveryView,
    decoders: DecodersView,
    events: Seq<StreamEvent>,
    sent: Seq<RequestView>,
    endpoints: Seq<(Seq<char>, u32)>,
) -> (found: (int, int, Seq<char>, Seq<char>))
    requires
        finds(state, decoders, events, sent, endpoints),
        state.stage is Listener,
    ensures
        ({
            let (j, k, cluster, name) = found;
            let m = events.len() - 1;
            &&& 0 <= j < k < m
            &&& events[j] is Response
            &&& events[k] is Response
            &&& events[m] is Response
            &&& is_chain(
                state.service_name,
                state.node,
                decoders,
                events[j]->Response_0,
                events[k]->Response_0,
                events[m]->Response_0,
                cluster,
                name,
                sent,
                endpoints,
            )
        }),
    decreases events.len(),
{
    let step = finding_step(state, decoders, events, sent, endpoints);
    let next = step->Continue_0;
    let requests = step->Continue_1;
    let rest = events.drop_first();
    if requests.len() == 0 {
        assert(sent.skip(0) =~= sent);
        let (j, k, cluster, name) = lemma_finds_by_listener(next, decoders, rest, sent, endpoints);
        assert(rest[j] == events[j + 1]);
        assert(rest[k] == events[k + 1]);
        assert(rest.last() == events.last());
        (j + 1, k + 1, cluster, name)
    } else {
        let resp = events[0]->Response_0;
        let cluster = next.stage->Cluster_0;
        assert(lds_outcome(resp.resources@, decoders.listener, decoders.manager, Ok(cluster)));
        let (k, name) = lemma_finds_by_cluster(next, decoders, rest, sent.skip(2), endpoints);
        assert(rest[k] == events[k + 1]);
        assert(rest.last() == events.last());
        let cds = events[k + 1]->Response_0;
        assert(sent =~= seq![
            ack_of(state.node, LDS_TYPE_URL@, state.service_name, resp),
            request_for(state.node, CDS_TYPE_URL@, cluster),
            ack_of(state.node, CDS_TYPE_URL@, cluster, cds),
            request_for(state.node, EDS_TYPE_URL@, name),
        ]) by {
            assert(sent =~= requests + sent.skip(2));
        }
        (0, k + 1, cluster, name)
    }
}

/// A discovery that finds endpoints has followed the chain from the listener
/// of the service to the cluster that it leads to and on to the endpoints of
/// that cluster. The three responses are among the events, in this order and
/// the last one last; all but the last are acknowledged; what is found in one
/// is what is asked for next; and there is at least one endpoint.
pub proof fn discovery_follows_chain(
    service_name: Seq<char>,
    node: NodeView,
    decoders: DecodersView,
    events: Seq<StreamEvent>,
    sent: Seq<RequestView>,
    endpoints: Seq<(Seq<char>, u32)>,
)
    requires
        finds(DiscoveryView::fresh(service_name, node), decoders, events, sent, endpoints),
    ensures
        endpoints.len() > 0,
        exists|j: int, k: int, cluster: Seq<char>, name: Seq<char>|
            0 <= j < k < events.len() - 1 && events[j] is Response && events[k] is Response
                && events.last() is Response && #[trigger] is_chain(
                service_name,
                node,
                decoders,
                events[j]->Response_0,
                events[k]->Response_0,
                events.last()->Response_0,
                cluster,
                name,
                sent,
                endpoints,
            ),
{
    let state = DiscoveryView::fresh(service_name, node);
    let (j, k, cluster, name) = lemma_finds_by_listener(state, decoders, events, sent, endpoints);
    let eds = events.last()->Response_0;
    found_endpoints_are_some(eds.resources@, decoders.assignment, seq![], endpoints);
}

/// Responses that make up a chain lead a discovery to the endpoints.
pub proof fn chain_is_found(
    service_name: Seq<char>,
    node: NodeView,
    decoders: DecodersView,
    lds: DiscoveryResponse,
    cds: DiscoveryResponse,
    eds: DiscoveryResponse,
    cluster: Seq<char>,
    name: Seq<char>,
    sent: Seq<RequestView>,
    endpoints: Seq<(Seq<char>, u32)>,
)
    requires
        is_chain(service_name, node, decoders, lds, cds, eds, cluster, name, sent, endpoints),
    ensures
        finds(
            DiscoveryView::fresh(service_name, node),
            decoders,
            seq![
                StreamEvent::Response(lds),
                StreamEvent::Response(cds),
                StreamEvent::Response(eds),
            ],
            sent,
            endpoints,
        ),
{
    let first = DiscoveryView::fresh(service_name, node);
    let second = DiscoveryView { stage: StageView::Cluster(cluster), ..first };
    let third = DiscoveryView { stage: StageView::Endpoints, ..first };
    let all = seq![
        StreamEvent::Response(lds),
        StreamEvent::Response(cds),
        StreamEvent::Response(eds),
    ];
    let from_second = seq![StreamEvent::Response(cds), StreamEvent::Response(eds)];
    let from_third = seq![StreamEvent::Response(eds)];
    assert(all.drop_first() =~= from_second);
    assert(from_second.drop_first() =~= from_third);
    assert(is_step(third, from_third[0], decoders, StepView::Done(endpoints)));
    assert(sent.skip(2).skip(2).len() == 0);
    assert(finds(third, decoders, from_third, sent.skip(2).skip(2), endpoints));
    assert(is_step(
        second,
        from_second[0],
        decoders,
        StepView::Continue(third, seq![sent[2], sent[3]]),
    ));
    assert(seq![sent[2], sent[3]].is_prefix_of(sent.skip(2)));
    assert(finds(second, decoders, from_second, sent.skip(2), endpoints));
    assert(is_step(
        first,
        all[0],
        decoders,
        StepView::Continue(second, seq![sent[0], sent[1]]),
    ));
    assert(seq![sent[0], sent[1]].is_prefix_of(sent));
}

/// The identifier in the name of a node is a version 4 UUID of the common
/// variant: five groups of lower-case hexadecimal digits, with the version at
/// the head of the third and the variant at the head of the fourth.
pub proof fn uuid_has_version_and_variant(random: Seq<u8>)
    requires
        random.len() == 16,
    ensures
        ({
            let text = uuid_text(uuid_bytes(random));
            &&& text.len() == 36
            &&& text[14] == '4'
            &&& text[19] == '8' || text[19] == '9' || text[19] == 'a' || text[19] == 'b'
            &&& forall|i: int|
                0 <= i < 36 ==> if i == 8 || i == 13 || i == 18 || i == 23 {
                    #[trigger] text[i] == '-'
                } else {
                    '0' <= text[i] <= '9' || 'a' <= text[i] <= 'f'
                }
        }),
{
    let bytes = uuid_bytes(random);
    reveal_strlit("-");
    lemma_hex(bytes.subrange(0, 4));
    lemma_hex(bytes.subrange(4, 6));
    lemma_hex(bytes.subrange(6, 8));
    lemma_hex(bytes.subrange(8, 10));
    lemma_hex(bytes.subrange(10, 16));
}

/// From the zone `projects/{project}/zones/{region}-{letter}` comes the node
/// of that project, in that zone of that region.
pub proof fn node_is_in_zone(
    project: Seq<char>,
    region: Seq<char>,
    letter: Seq<char>,
    uuid: Seq<char>,
)
    requires
        !project.contains('/'),
        !region.contains('/'),
        !letter.contains('/'),
        !letter.contains('-'),
    ensures
        ({
            let name = region + "-"@ + letter;
            let zone = "projects/"@ + project + "/zones/"@ + name;
            &&& split(zone, '/').len() == 4
            &&& node_in(zone, uuid) == (NodeView {
                id: "projects/"@ + project + "/networks/default/nodes/"@ + uuid,
                cluster: seq![],
                metadata: Some(node_metadata(project)),
                locality: Some((region, name)),
            })
        }),
{
    let name = region + "-"@ + letter;
    let zone = "projects/"@ + project + "/zones/"@ + name;
    let projects = seq!['p', 'r', 'o', 'j', 'e', 'c', 't', 's'];
    let zones = seq!['z', 'o', 'n', 'e', 's'];
    reveal_strlit("-");
    reveal_strlit("projects/");
    reveal_strlit("/zones/");
    assert(name =~= region.push('-') + letter);
    assert(!name.contains('/')) by {
        assert(forall|i: int|
            0 <= i < name.len() ==> name[i] == if i < region.len() {
                region[i]
            } else if i == region.len() {
                '-'
            } else {
                letter[i - region.len() - 1]
            });
    }
    let tail = zones.push('/') + name;
    let middle = project.push('/') + tail;
    assert(zone =~= projects.push('/') + middle);
    lemma_split_at(projects, '/', middle);
    lemma_split_at(project, '/', tail);
    lemma_split_at(zones, '/', name);
    lemma_split_one(projects, '/');
    lemma_split_one(project, '/');
    lemma_split_one(zones, '/');
    lemma_split_one(name, '/');
    assert(split(zone, '/') =~= seq![projects, project, zones, name]);
    lemma_before_last(region, '-', letter);
}

/// What the step of a discovery is, for everything that may come.
///
/// A stream that ends or fails, or that takes no more requests, ends the
/// discovery. A response of another type than the one waited for is passed over
/// nine times in a wait, and ends the discovery at the tenth. The response that
/// is waited for is acknowledged, with its version and nonce and for the
/// resource that was asked for, and what is found in it is asked for next; or
/// its error ends the discovery; or, at the last, its endpoints do.
pub proof fn steps_follow_events(
    state: DiscoveryView,
    event: StreamEvent,
    decoders: DecodersView,
    step: StepView,
)
    requires
        is_step(state, event, decoders, step),
    ensures
        event is Ended ==> step == StepView::Failed(XdsErrorView::StreamEnded),
        event is RequestsClosed ==> step == StepView::Failed(XdsErrorView::ChannelClosed),
        event matches StreamEvent::Failed(text) ==> step == StepView::Failed(
            XdsErrorView::Rpc(text@),
        ),
        event matches StreamEvent::Response(resp) ==> {
            let waited_for = match state.stage {
                StageView::Listener => "type.googleapis.com/envoy.config.listener.v3.Listener"@,
                StageView::Cluster(_) => "type.googleapis.com/envoy.config.cluster.v3.Cluster"@,
                StageView::Endpoints =>
                    "type.googleapis.com/envoy.config.endpoint.v3.ClusterLoadAssignment"@,
            };
            if resp.type_url@ != waited_for {
                if state.skipped < 9 {
                    step == StepView::Continue(
                        DiscoveryView { skipped: state.skipped + 1, ..state },
                        seq![],
                    )
                } else {
                    step == StepView::Failed(XdsErrorView::NoResponse(waited_for))
                }
            } else {
                match (state.stage, step) {
                    (StageView::Listener, StepView::Continue(next, requests)) => exists|
                        cluster: Seq<char>,
                    |
                        {
                            &&& #[trigger] lds_outcome(
                                resp.resources@,
                                decoders.listener,
                                decoders.manager,
                                Ok(cluster),
                            )
                            &&& next.stage == StageView::Cluster(cluster)
                            &&& next.skipped == 0
                            &&& next.service_name == state.service_name
                            &&& next.node == state.node
                            &&& requests == seq![
                                RequestView {
                                    version_info: resp.version_info@,
                                    node: Some(state.node),
                                    resource_names: seq![state.service_name],
                                    type_url: "type.googleapis.com/envoy.config.listener.v3.Listener"@,
                                    response_nonce: resp.nonce@,
                                },
                                RequestView {
                                    version_info: seq![],
                                    node: Some(state.node),
                                    resource_names: seq![cluster],
                                    type_url: "type.googleapis.com/envoy.config.cluster.v3.Cluster"@,
                                    response_nonce: seq![],
                                },
                            ]
                        },
                    (StageView::Listener, StepView::Failed(e)) => lds_outcome(
                        resp.resources@,
                        decoders.listener,
                        decoders.manager,
                        Err(e),
                    ),
                    (StageView::Cluster(cluster), StepView::Continue(next, requests)) => exists|
                        name: Seq<char>,
                    |
                        {
                            &&& #[trigger] cds_outcome(
                                resp.resources@,
                                cluster,
                                decoders.cluster,
                                Ok(name),
                            )
                            &&& next.stage is Endpoints
                            &&& next.skipped == 0
                            &&& next.service_name == state.service_name
                            &&& next.node == state.node
                            &&& requests == seq![
                                RequestView {
                                    version_info: resp.version_info@,
                                    node: Some(state.node),
                                    resource_names: seq![cluster],
                                    type_url: "type.googleapis.com/envoy.config.cluster.v3.Cluster"@,
                                    response_nonce: resp.nonce@,
                                },
                                RequestView {
                                    version_info: seq![],
                                    node: Some(state.node),
                                    resource_names: seq![name],
                                    type_url: "type.googleapis.com/envoy.config.endpoint.v3.ClusterLoadAssignment"@,
                                    response_nonce: seq![],
                                },
                            ]
                        },
                    (StageView::Cluster(cluster), StepView::Failed(e)) => cds_outcome(
                        resp.resources@,
                        cluster,
                        decoders.cluster,
                        Err(e),
                    ),
                    (StageView::Endpoints, StepView::Done(endpoints)) => eds_outcome(
                        resp.resources@,
                        decoders.assignment,
                        seq![],
                        Ok(endpoints),
                    ),
                    (StageView::Endpoints, StepView::Failed(e)) => eds_outcome(
                        resp.resources@,
                        decoders.assignment,
                        seq![],
                        Err(e),
                    ),
                    _ => false,
                }
            }
        },
{
    if let StreamEvent::Response(resp) = event {
        if resp.type_url@ == state.stage.type_url() {
            match state.stage {
                StageView::Listener => {
                    let found = choose|found: Result<Seq<char>, XdsErrorView>| #[trigger]
                        lds_outcome(resp.resources@, decoders.listener, decoders.manager, found)
                            && step == match found {
                            Ok(cluster) => StepView::Continue(
                                DiscoveryView {
                                    stage: StageView::Cluster(cluster),
                                    skipped: 0,
                                    ..state
                                },
                                seq![
                                    ack_of(state.node, LDS_TYPE_URL@, state.service_name, resp),
                                    request_for(state.node, CDS_TYPE_URL@, cluster),
                                ],
                            ),
                            Err(e) => StepView::Failed(e),
                        };
                    if let Ok(cluster) = found {
                        assert(lds_outcome(
                            resp.resources@,
                            decoders.listener,
                            decoders.manager,
                            Ok(cluster),
                        ));
                    }
                },
                StageView::Cluster(asked) => {
                    let found = choose|found: Result<Seq<char>, XdsErrorView>| #[trigger]
                        cds_outcome(resp.resources@, asked, decoders.cluster, found) && step
                            == match found {
                            Ok(name) => StepView::Continue(
                                DiscoveryView { stage: StageView::Endpoints, skipped: 0, ..state },
                                seq![
                                    ack_of(state.node, CDS_TYPE_URL@, asked, resp),
                                    request_for(state.node, EDS_TYPE_URL@, name),
                                ],
                            ),
                            Err(e) => StepView::Failed(e),
                        };
                    if let Ok(name) = found {
                        assert(cds_outcome(resp.resources@, asked, decoders.cluster, Ok(name)));
                    }
                },
                StageView::Endpoints => {},
            }
        }
    }
}

/// The events of a series of responses.
spec fn as_events(resps: Seq<DiscoveryResponse>) -> Seq<StreamEvent> {
    resps.map_values(|resp: DiscoveryResponse| StreamEvent::Response(resp))
}

/// Responses of other types before what is to come do not keep a discovery from
/// finding endpoints, as long as there are few enough of them.
proof fn lemma_others_are_passed(
    state: DiscoveryView,
    decoders: DecodersView,
    others: Seq<DiscoveryResponse>,
    rest: Seq<StreamEvent>,
    sent: Seq<RequestView>,
    endpoints: Seq<(Seq<char>, u32)>,
)
    requires
        state.skipped + others.len() < MAX_RESPONSES,
        forall|i: int|
            0 <= i < others.len() ==> (#[trigger] others[i]).type_url@ != state.stage.type_url(),
        finds(
            DiscoveryView { skipped: state.skipped + others.len(), ..state },
            decoders,
            rest,
            sent,
            endpoints,
        ),
    ensures
        finds(state, decoders, as_events(others) + rest, sent, endpoints),
    decreases others.len(),
{
    let events = as_events(others) + rest;
    if others.len() == 0 {
        assert(events =~= rest);
        assert(DiscoveryView { skipped: state.skipped + others.len(), ..state } == state);
    } else {
        let next = DiscoveryView { skipped: state.skipped + 1, ..state };
        let later = others.drop_first();
        assert forall|i: int| 0 <= i < later.len() implies (#[trigger] later[i]).type_url@
            != next.stage.type_url() by {
            assert(later[i] == others[i + 1]);
        }
        lemma_others_are_passed(next, decoders, later, rest, sent, endpoints);
        assert(events[0] == StreamEvent::Response(others[0]));
        assert(events.drop_first() =~= as_events(later) + rest);
        assert(is_step(state, events[0], decoders, StepView::Continue(next, seq![])));
        assert(sent.skip(0) =~= sent);
        assert(Seq::<RequestView>::empty().is_prefix_of(sent));
    }
}

/// A chain of responses leads a discovery to the endpoints though responses of
/// other types come in between: up to nine before the listeners, up to nine
/// before the cluster, and up to nine before the endpoints. The first three
/// responses of their types count, what is found in one is asked for next, and
/// each but the last is acknowledged.
pub proof fn chain_is_found_among_others(
    service_name: Seq<char>,
    node: NodeView,
    decoders: DecodersView,
    before_lds: Seq<DiscoveryResponse>,
    lds: DiscoveryResponse,
    before_cds: Seq<DiscoveryResponse>,
    cds: DiscoveryResponse,
    before_eds: Seq<DiscoveryResponse>,
    eds: DiscoveryResponse,
    cluster: Seq<char>,
    name: Seq<char>,
    endpoints: Seq<(Seq<char>, u32)>,
)
    requires
        before_lds.len() <= 9 && before_cds.len() <= 9 && before_eds.len() <= 9,
        forall|i: int|
            0 <= i < before_lds.len() ==> (#[trigger] before_lds[i]).type_url@
                != "type.googleapis.com/envoy.config.listener.v3.Listener"@,
        forall|i: int|
            0 <= i < before_cds.len() ==> (#[trigger] before_cds[i]).type_url@
                != "type.googleapis.com/envoy.config.cluster.v3.Cluster"@,
        forall|i: int|
            0 <= i < before_eds.len() ==> (#[trigger] before_eds[i]).type_url@
                != "type.googleapis.com/envoy.config.endpoint.v3.ClusterLoadAssignment"@,
        lds.type_url@ == "type.googleapis.com/envoy.config.listener.v3.Listener"@,
        cds.type_url@ == "type.googleapis.com/envoy.config.cluster.v3.Cluster"@,
        eds.type_url@ == "type.googleapis.com/envoy.config.endpoint.v3.ClusterLoadAssignment"@,
        lds_outcome(lds.resources@, decoders.listener, decoders.manager, Ok(cluster)),
        cds_outcome(cds.resources@, cluster, decoders.cluster, Ok(name)),
        eds_outcome(eds.resources@, decoders.assignment, seq![], Ok(endpoints)),
    ensures
        finds(
            DiscoveryView { service_name, node, stage: StageView::Listener, skipped: 0 },
            decoders,
            before_lds.map_values(|resp: DiscoveryResponse| StreamEvent::Response(resp)) + (seq![
                StreamEvent::Response(lds),
            ] + (before_cds.map_values(|resp: DiscoveryResponse| StreamEvent::Response(resp)) + (
            seq![StreamEvent::Response(cds)] + (before_eds.map_values(
                |resp: DiscoveryResponse| StreamEvent::Response(resp),
            ) + seq![StreamEvent::Response(eds)])))),
            seq![
                RequestView {
                    version_info: lds.version_info@,
                    node: Some(node),
                    resource_names: seq![service_name],
                    type_url: "type.googleapis.com/envoy.config.listener.v3.Listener"@,
                    response_nonce: lds.nonce@,
                },
                RequestView {
                    version_info: seq![],
                    node: Some(node),
                    resource_names: seq![cluster],
                    type_url: "type.googleapis.com/envoy.config.cluster.v3.Cluster"@,
                    response_nonce: seq![],
                },
                RequestView {
                    version_info: cds.version_info@,
                    node: Some(node),
                    resource_names: seq![cluster],
                    type_url: "type.googleapis.com/envoy.config.cluster.v3.Cluster"@,
                    response_nonce: cds.nonce@,
                },
                RequestView {
                    version_info: seq![],
                    node: Some(node),
                    resource_names: seq![name],
                    type_url: "type.googleapis.com/envoy.config.endpoint.v3.ClusterLoadAssignment"@,
                    response_nonce: seq![],
                },
            ],
            endpoints,
        ),
{
    let first = DiscoveryView { service_name, node, stage: StageView::Listener, skipped: 0 };
    let second = DiscoveryView { stage: StageView::Cluster(cluster), ..first };
    let third = DiscoveryView { stage: StageView::Endpoints, ..first };
    let sent = seq![
        ack_of(node, LDS_TYPE_URL@, service_name, lds),
        request_for(node, CDS_TYPE_URL@, cluster),
        ack_of(node, CDS_TYPE_URL@, cluster, cds),
        request_for(node, EDS_TYPE_URL@, name),
    ];
    let late = sent.skip(2);
    let none = late.skip(2);
    assert(none.len() == 0);

    let at_eds = seq![StreamEvent::Response(eds)];
    let from_third = DiscoveryView { skipped: before_eds.len(), ..third };
    assert(is_step(from_third, at_eds[0], decoders, StepView::Done(endpoints)));
    assert(finds(from_third, decoders, at_eds, none, endpoints));
    lemma_others_are_passed(third, decoders, before_eds, at_eds, none, endpoints);
    let after_cds = as_events(before_eds) + at_eds;

    let at_cds = seq![StreamEvent::Response(cds)] + after_cds;
    let from_second = DiscoveryView { skipped: before_cds.len(), ..second };
    assert(at_cds.drop_first() =~= after_cds);
    assert(is_step(
        from_second,
        at_cds[0],
        decoders,
        StepView::Continue(third, seq![sent[2], sent[3]]),
    ));
    assert(seq![sent[2], sent[3]].is_prefix_of(late));
    assert(finds(from_second, decoders, at_cds, late, endpoints));
    lemma_others_are_passed(second, decoders, before_cds, at_cds, late, endpoints);
    let after_lds = as_events(before_cds) + at_cds;

    let at_lds = seq![StreamEvent::Response(lds)] + after_lds;
    let from_first = DiscoveryView { skipped: before_lds.len(), ..first };
    assert(at_lds.drop_first() =~= after_lds);
    assert(is_step(
        from_first,
        at_lds[0],
        decoders,
        StepView::Continue(second, seq![sent[0], sent[1]]),
    ));
    assert(seq![sent[0], sent[1]].is_prefix_of(sent));
    assert(finds(from_first, decoders, at_lds, sent, endpoints));
    lemma_others_are_passed(first, decoders, before_lds, at_lds, sent, endpoints);
}

/// The digits of the identifier of a node, all of them: leaving out the dashes,
/// they are the halves of the random bytes in order, each a lower-case
/// hexadecimal digit, but for the thirteenth, which is the version, and the
/// seventeenth, whose two highest bits are the variant.
pub proof fn uuid_digits_are_random(random: Seq<u8>, k: int)
    requires
        random.len() == 16,
        0 <= k < 32,
    ensures
        ({
            let text = uuid_text(uuid_bytes(random));
            let dashes: int = if k < 8 {
                0
            } else if k < 12 {
                1
            } else if k < 16 {
                2
            } else if k < 20 {
                3
            } else {
                4
            };
            let half: int = if k % 2 == 0 {
                random[k / 2] as int / 16
            } else {
                random[k / 2] as int % 16
            };
            let digit: int = if k == 12 {
                4
            } else if k == 16 {
                8 + half % 4
            } else {
                half
            };
            text[k + dashes] as int == digit + if digit < 10 {
                48int
            } else {
                87
            }
        }),
{
    let bytes = uuid_bytes(random);
    let b: u8 = bytes[k / 2];
    let r: u8 = random[k / 2];
    lemma_uuid_place(bytes, k);
    assert(((r % 16) + 64) / 16 == 4 && ((r % 16) + 64) % 16 == r % 16) by (bit_vector);
    assert(((r % 64) + 128) / 16 == 8 + (r / 16) % 4 && ((r % 64) + 128) % 16 == r % 16)
        by (bit_vector);
    if k == 12 || k == 13 {
        assert(b == (r % 16) + 64);
    } else if k == 16 || k == 17 {
        assert(b == (r % 64) + 128);
    } else {
        assert(b == r);
    }
}

/// Where the digits of each byte are in a UUID.
#[verifier::spinoff_prover]
proof fn lemma_uuid_place(bytes: Seq<u8>, k: int)
    requires
        bytes.len() == 16,
        0 <= k < 32,
    ensures
        uuid_text(bytes)[k + if k < 8 {
            0int
        } else if k < 12 {
            1
        } else if k < 16 {
            2
        } else if k < 20 {
            3
        } else {
            4
        }] == hex_byte(bytes[k / 2])[k % 2],
{
    reveal_strlit("-");
    lemma_hex(bytes.subrange(0, 4));
    lemma_hex(bytes.subrange(4, 6));
    lemma_hex(bytes.subrange(6, 8));
    lemma_hex(bytes.subrange(8, 10));
    lemma_hex(bytes.subrange(10, 16));
    if k < 8 {
        assert(uuid_text(bytes)[k] == hex(bytes.subrange(0, 4))[k]);
    } else if k < 12 {
        assert(uuid_text(bytes)[k + 1] == hex(bytes.subrange(4, 6))[k - 8]);
    } else if k < 16 {
        assert(uuid_text(bytes)[k + 2] == hex(bytes.subrange(6, 8))[k - 12]);
    } else if k < 20 {
        assert(uuid_text(bytes)[k + 3] == hex(bytes.subrange(8, 10))[k - 16]);
    } else {
        assert(uuid_text(bytes)[k + 4] == hex(bytes.subrange(10, 16))[k - 20]);
    }
}

} // verus!
