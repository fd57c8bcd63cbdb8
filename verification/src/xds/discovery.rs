//! Endpoint discovery: asks Traffic Director for the listener of a service,
//! then for the cluster that the listener leads to, then for the endpoints of
//! that cluster.
//!
//! [`Discovery`] holds how far the discovery has come. It is handed what comes
//! from the stream of responses and says what to send.

use crate::text::same_text;
use crate::text::texts;
use crate::xds::error::XdsError;
use crate::xds::error::XdsErrorView;
use crate::xds::extract::cds_outcome;
use crate::xds::extract::decodes_any;
use crate::xds::extract::decoding;
use crate::xds::extract::eds_outcome;
use crate::xds::extract::endpoints_outcome;
use crate::xds::extract::endpoints_view;
use crate::xds::extract::extract_cluster_from_lds;
use crate::xds::extract::extract_eds_name_from_cds;
use crate::xds::extract::extract_endpoints_from_eds;
use crate::xds::extract::lds_outcome;
use crate::xds::extract::name_outcome;
use crate::xds::extract::BackendEndpoint;
use crate::xds::extract::Decoding;
use crate::xds::types::Cluster;
use crate::xds::types::ClusterLoadAssignment;
use crate::xds::types::DiscoveryRequest;
use crate::xds::types::DiscoveryResponse;
use crate::xds::types::HttpConnectionManager;
use crate::xds::types::Listener;
use crate::xds::types::Node;
use crate::xds::types::NodeView;
use crate::xds::types::RequestView;
use crate::xds::types::CDS_TYPE_URL;
use crate::xds::types::EDS_TYPE_URL;
use crate::xds::types::LDS_TYPE_URL;
use vstd::prelude::*;

verus! {

/// Where Traffic Director is.
pub const TRAFFIC_DIRECTOR_ADDR: &'static str = "https://directpath-pa.googleapis.com";

/// The call that opens the stream.
pub const ADS_PATH: &'static str = "/envoy.service.discovery.v3.AggregatedDiscoveryService/StreamAggregatedResources";

/// How many seconds connecting may take.
pub const CONNECT_TIMEOUT_SECS: u64 = 10;

/// How many seconds a request may take.
pub const REQUEST_TIMEOUT_SECS: u64 = 30;

/// How many requests may wait to be sent.
pub const REQUEST_QUEUE_SIZE: usize = 8;

/// How many responses are read for one of the type that is waited for.
pub const MAX_RESPONSES: u32 = 10;

/// What came from the stream.
pub enum StreamEvent {
    /// A response.
    Response(DiscoveryResponse),
    /// The end of the stream.
    Ended,
    /// A failure of the stream, with its text.
    Failed(String),
    /// Requests can no longer be sent.
    RequestsClosed,
}

/// What an event comes to while a response of some type is waited for.
pub enum Received {
    /// The response that was waited for.
    Matched(DiscoveryResponse),
    /// A response of another type.
    Skipped,
    /// The wait has failed.
    Failed(XdsError),
}

/// What an event comes to, as contracts see it.
#[verifier::ext_equal]
pub enum ReceivedView {
    /// The response that was waited for.
    Matched(DiscoveryResponse),
    /// A response of another type.
    Skipped,
    /// The wait has failed.
    Failed(XdsErrorView),
}

impl View for Received {
    type V = ReceivedView;

    open spec fn view(&self) -> ReceivedView {
        match self {
            Received::Matched(resp) => ReceivedView::Matched(*resp),
            Received::Skipped => ReceivedView::Skipped,
            Received::Failed(e) => ReceivedView::Failed(e@),
        }
    }
}

/// What an event comes to while a response of the expected type is waited for
/// and some of other types have been skipped already.
pub open spec fn received(
    expected_type: Seq<char>,
    skipped: nat,
    event: StreamEvent,
) -> ReceivedView {
    match event {
        StreamEvent::Failed(e) => ReceivedView::Failed(XdsErrorView::Rpc(e@)),
        StreamEvent::Ended => ReceivedView::Failed(XdsErrorView::StreamEnded),
        StreamEvent::RequestsClosed => ReceivedView::Failed(XdsErrorView::ChannelClosed),
        StreamEvent::Response(resp) => if resp.type_url@ == expected_type {
            ReceivedView::Matched(resp)
        } else if skipped + 1 < MAX_RESPONSES {
            ReceivedView::Skipped
        } else {
            ReceivedView::Failed(XdsErrorView::NoResponse(expected_type))
        },
    }
}

/// Traffic Director may send responses of different types on one stream.
/// Tells whether what came is a response of the expected type, where
/// `skipped` responses of other types came before it.
pub fn recv_response(expected_type: &str, skipped: u32, event: StreamEvent) -> (r: Received)
    requires
        skipped < MAX_RESPONSES,
    ensures
        r@ == received(expected_type@, skipped as nat, event),
        match event {
            StreamEvent::Failed(text) => r matches Received::Failed(XdsError::Rpc(t)) && t == text,
            StreamEvent::Ended => r matches Received::Failed(XdsError::StreamEnded),
            StreamEvent::RequestsClosed => r matches Received::Failed(XdsError::ChannelClosed),
            StreamEvent::Response(resp) => if resp.type_url@ == expected_type@ {
                r matches Received::Matched(matched) && matched == resp
            } else if skipped < 9 {
                r is Skipped
            } else {
                r matches Received::Failed(XdsError::NoResponse(t)) && t@ == expected_type@
            },
        },
{
    match event {
        StreamEvent::Failed(e) => Received::Failed(XdsError::Rpc(e)),
        StreamEvent::Ended => Received::Failed(XdsError::StreamEnded),
        StreamEvent::RequestsClosed => Received::Failed(XdsError::ChannelClosed),
        StreamEvent::Response(resp) => {
            if same_text(resp.type_url.as_str(), expected_type) {
                Received::Matched(resp)
            } else if skipped + 1 < MAX_RESPONSES {
                Received::Skipped
            } else {
                Received::Failed(XdsError::NoResponse(expected_type.to_owned()))
            }
        },
    }
}

/// How the resources in responses are decoded.
pub struct Decoders<L, M, C, A> {
    /// Decodes listeners.
    pub listener: L,
    /// Decodes the connection manager inside a listener.
    pub manager: M,
    /// Decodes clusters.
    pub cluster: C,
    /// Decodes load assignments.
    pub assignment: A,
}

/// What the decoders may give.
pub struct DecodersView {
    /// For listeners.
    pub listener: Decoding<Listener>,
    /// For connection managers.
    pub manager: Decoding<HttpConnectionManager>,
    /// For clusters.
    pub cluster: Decoding<Cluster>,
    /// For load assignments.
    pub assignment: Decoding<ClusterLoadAssignment>,
}

impl<
    L: Fn(&[u8]) -> Result<Listener, String>,
    M: Fn(&[u8]) -> Result<HttpConnectionManager, String>,
    C: Fn(&[u8]) -> Result<Cluster, String>,
    A: Fn(&[u8]) -> Result<ClusterLoadAssignment, String>,
> Decoders<L, M, C, A> {
    /// What the decoders may give.
    pub open spec fn view(&self) -> DecodersView {
        DecodersView {
            listener: decoding(self.listener),
            manager: decoding(self.manager),
            cluster: decoding(self.cluster),
            assignment: decoding(self.assignment),
        }
    }

    /// The decoders can be applied to any bytes.
    pub open spec fn decode_any(&self) -> bool {
        &&& decodes_any(self.listener)
        &&& decodes_any(self.manager)
        &&& decodes_any(self.cluster)
        &&& decodes_any(self.assignment)
    }
}

/// What a discovery waits for.
enum Stage {
    /// The listener of the service.
    Listener,
    /// The cluster of this name.
    Cluster(String),
    /// The endpoints of a cluster.
    Endpoints,
}

/// What a discovery waits for, as contracts see it.
#[verifier::ext_equal]
pub enum StageView {
    /// The listener of the service.
    Listener,
    /// The cluster of this name.
    Cluster(Seq<char>),
    /// The endpoints of a cluster.
    Endpoints,
}

impl StageView {
    /// The type of the response that is waited for.
    pub open spec fn type_url(self) -> Seq<char> {
        match self {
            StageView::Listener => LDS_TYPE_URL@,
            StageView::Cluster(_) => CDS_TYPE_URL@,
            StageView::Endpoints => EDS_TYPE_URL@,
        }
    }
}

/// A discovery under way.
pub struct Discovery {
    service_name: String,
    node: Node,
    stage: Stage,
    skipped: u32,
}

/// A discovery under way, as contracts see it.
#[verifier::ext_equal]
pub struct DiscoveryView {
    /// The service whose endpoints are asked for.
    pub service_name: Seq<char>,
    /// Who asks.
    pub node: NodeView,
    /// What is waited for.
    pub stage: StageView,
    /// How many responses of other types came since that wait began.
    pub skipped: nat,
}

impl DiscoveryView {
    /// A discovery that begins.
    pub open spec fn fresh(service_name: Seq<char>, node: NodeView) -> DiscoveryView {
        DiscoveryView { service_name, node, stage: StageView::Listener, skipped: 0 }
    }

    /// What holds of every discovery under way: more responses may still come.
    pub open spec fn wf(self) -> bool {
        self.skipped < MAX_RESPONSES
    }
}

impl View for Discovery {
    type V = DiscoveryView;

    closed spec fn view(&self) -> DiscoveryView {
        DiscoveryView {
            service_name: self.service_name@,
            node: self.node@,
            stage: match self.stage {
                Stage::Listener => StageView::Listener,
                Stage::Cluster(cluster) => StageView::Cluster(cluster@),
                Stage::Endpoints => StageView::Endpoints,
            },
            skipped: self.skipped as nat,
        }
    }
}

/// What comes next in a discovery.
pub enum DiscoveryStep {
    /// Send these requests in order, then hand over the next event.
    Continue(Discovery, Vec<DiscoveryRequest>),
    /// The endpoints are found.
    Done(Vec<BackendEndpoint>),
    /// The discovery has failed.
    Failed(XdsError),
}

/// What comes next in a discovery, as contracts see it.
#[verifier::ext_equal]
pub enum StepView {
    /// Send these requests in order, then hand over the next event.
    Continue(DiscoveryView, Seq<RequestView>),
    /// The endpoints are found.
    Done(Seq<(Seq<char>, u32)>),
    /// The discovery has failed.
    Failed(XdsErrorView),
}

/// Requests as contracts see them.
pub open spec fn requests_view(requests: Seq<DiscoveryRequest>) -> Seq<RequestView> {
    requests.map_values(|r: DiscoveryRequest| r@)
}

impl View for DiscoveryStep {
    type V = StepView;

    open spec fn view(&self) -> StepView {
        match self {
            DiscoveryStep::Continue(next, requests) => StepView::Continue(
                next@,
                requests_view(requests@),
            ),
            DiscoveryStep::Done(endpoints) => StepView::Done(endpoints_view(endpoints@)),
            DiscoveryStep::Failed(e) => StepView::Failed(e@),
        }
    }
}

/// The first request for a resource.
pub open spec fn request_for(node: NodeView, type_url: Seq<char>, name: Seq<char>) -> RequestView {
    RequestView {
        version_info: seq![],
        node: Some(node),
        resource_names: seq![name],
        type_url,
        response_nonce: seq![],
    }
}

/// The acknowledgement of a response with a resource.
pub open spec fn ack_of(
    node: NodeView,
    type_url: Seq<char>,
    name: Seq<char>,
    resp: DiscoveryResponse,
) -> RequestView {
    RequestView {
        version_info: resp.version_info@,
        response_nonce: resp.nonce@,
        ..request_for(node, type_url, name)
    }
}

/// Builds the first request for a resource.
fn make_request(node: &Node, type_url: &str, name: &str) -> (request: DiscoveryRequest)
    ensures
        request@ == request_for(node@, type_url@, name@),
        request.type_url@ == type_url@,
        request.resource_names@.len() == 1 && request.resource_names@[0]@ == name@,
        request.version_info@.len() == 0 && request.response_nonce@.len() == 0,
        request.node matches Some(n) && n@ == node@,
{
    let mut resource_names: Vec<String> = Vec::new();
    resource_names.push(name.to_owned());
    assert(texts(resource_names@) =~= seq![name@]);
    DiscoveryRequest {
        version_info: String::new(),
        node: Some(node.clone()),
        resource_names,
        type_url: type_url.to_owned(),
        response_nonce: String::new(),
    }
}

/// Builds the acknowledgement of a response.
fn make_ack(node: &Node, type_url: &str, name: &str, resp: &DiscoveryResponse) -> (request:
    DiscoveryRequest)
    ensures
        request@ == ack_of(node@, type_url@, name@, *resp),
        request.type_url@ == type_url@,
        request.resource_names@.len() == 1 && request.resource_names@[0]@ == name@,
        request.version_info@ == resp.version_info@ && request.response_nonce@ == resp.nonce@,
        request.node matches Some(n) && n@ == node@,
{
    let mut request = make_request(node, type_url, name);
    request.version_info = resp.version_info.clone();
    request.response_nonce = resp.nonce.clone();
    request
}

/// A list of two requests.
fn in_order(first: DiscoveryRequest, second: DiscoveryRequest) -> (requests: Vec<DiscoveryRequest>)
    ensures
        requests_view(requests@) == seq![first@, second@],
        requests@ == seq![first, second],
{
    let mut requests: Vec<DiscoveryRequest> = Vec::new();
    requests.push(first);
    requests.push(second);
    assert(requests_view(requests@) =~= seq![first@, second@]);
    requests
}

/// What may come next in a discovery when the response that it waits for has
/// come.
pub open spec fn matched_step(
    state: DiscoveryView,
    resp: DiscoveryResponse,
    decoders: DecodersView,
    step: StepView,
) -> bool {
    match state.stage {
        StageView::Listener => exists|found: Result<Seq<char>, XdsErrorView>| #[trigger]
            lds_outcome(resp.resources@, decoders.listener, decoders.manager, found) && step
                == match found {
                Ok(cluster) => StepView::Continue(
                    DiscoveryView { stage: StageView::Cluster(cluster), skipped: 0, ..state },
                    seq![
                        ack_of(state.node, LDS_TYPE_URL@, state.service_name, resp),
                        request_for(state.node, CDS_TYPE_URL@, cluster),
                    ],
                ),
                Err(e) => StepView::Failed(e),
            },
        StageView::Cluster(cluster) => exists|found: Result<Seq<char>, XdsErrorView>| #[trigger]
            cds_outcome(resp.resources@, cluster, decoders.cluster, found) && step == match found {
                Ok(name) => StepView::Continue(
                    DiscoveryView { stage: StageView::Endpoints, skipped: 0, ..state },
                    seq![
                        ack_of(state.node, CDS_TYPE_URL@, cluster, resp),
                        request_for(state.node, EDS_TYPE_URL@, name),
                    ],
                ),
                Err(e) => StepView::Failed(e),
            },
        StageView::Endpoints => exists|found: Result<Seq<(Seq<char>, u32)>, XdsErrorView>|
            #[trigger]
            eds_outcome(resp.resources@, decoders.assignment, seq![], found) && step
                == match found {
                Ok(endpoints) => StepView::Done(endpoints),
                Err(e) => StepView::Failed(e),
            },
    }
}

/// What may come next in a discovery after an event. Only the decoders leave
/// anything open.
pub open spec fn is_step(
    state: DiscoveryView,
    event: StreamEvent,
    decoders: DecodersView,
    step: StepView,
) -> bool {
    match received(state.stage.type_url(), state.skipped, event) {
        ReceivedView::Matched(resp) => matched_step(state, resp, decoders, step),
        ReceivedView::Skipped => step == StepView::Continue(
            DiscoveryView { skipped: state.skipped + 1, ..state },
            seq![],
        ),
        ReceivedView::Failed(e) => step == StepView::Failed(e),
    }
}

impl Discovery {
    /// Begins the discovery of the endpoints of a service. The request is to
    /// be sent before the stream is opened: the server answers only once it
    /// has one.
    pub fn start(service_name: &str, node: Node) -> (r: (Discovery, DiscoveryRequest))
        ensures
            r.0@ == DiscoveryView::fresh(service_name@, node@),
            r.0@.wf(),
            r.1@ == request_for(node@, LDS_TYPE_URL@, service_name@),
            r.0@.service_name == service_name@ && r.0@.node == node@ && r.0@.stage is Listener
                && r.0@.skipped == 0,
            r.1.type_url@ == "type.googleapis.com/envoy.config.listener.v3.Listener"@,
            r.1.resource_names@.len() == 1 && r.1.resource_names@[0]@ == service_name@,
            r.1.version_info@.len() == 0 && r.1.response_nonce@.len() == 0,
            r.1.node matches Some(n) && n@ == node@,
    {
        let request = make_request(&node, LDS_TYPE_URL, service_name);
        let discovery = Discovery {
            service_name: service_name.to_owned(),
            node,
            stage: Stage::Listener,
            skipped: 0,
        };
        (discovery, request)
    }

    /// Takes what came from the stream and says what comes next.
    pub fn on_event<
        L: Fn(&[u8]) -> Result<Listener, String>,
        M: Fn(&[u8]) -> Result<HttpConnectionManager, String>,
        C: Fn(&[u8]) -> Result<Cluster, String>,
        A: Fn(&[u8]) -> Result<ClusterLoadAssignment, String>,
    >(self, event: StreamEvent, decoders: &Decoders<L, M, C, A>) -> (step: DiscoveryStep)
        requires
            self@.wf(),
            decoders.decode_any(),
        ensures
            is_step(self@, event, decoders@, step@),
            step matches DiscoveryStep::Continue(next, _) ==> next@.wf(),
            step matches DiscoveryStep::Continue(_, requests) ==> {
                ||| requests@.len() == 0
                ||| {
                    &&& requests@.len() == 2
                    &&& event matches StreamEvent::Response(resp)
                    &&& requests@[0].type_url@ == resp.type_url@
                    &&& requests@[0].version_info@ == resp.version_info@
                    &&& requests@[0].response_nonce@ == resp.nonce@
                    &&& requests@[1].version_info@.len() == 0
                    &&& requests@[1].response_nonce@.len() == 0
                    &&& requests@[1].type_url@ == (if self@.stage is Listener {
                        "type.googleapis.com/envoy.config.cluster.v3.Cluster"@
                    } else {
                        "type.googleapis.com/envoy.config.endpoint.v3.ClusterLoadAssignment"@
                    })
                    &&& requests@[0].resource_names@.len() == 1
                    &&& requests@[1].resource_names@.len() == 1
                    &&& requests@[0].node matches Some(n) && n@ == self@.node
                    &&& requests@[1].node matches Some(n) && n@ == self@.node
                }
            },
            step matches DiscoveryStep::Done(endpoints) ==> endpoints@.len() > 0,
    {
        let Discovery { service_name, node, stage, skipped } = self;
        let expected_type = match &stage {
            Stage::Listener => LDS_TYPE_URL,
            Stage::Cluster(_) => CDS_TYPE_URL,
            Stage::Endpoints => EDS_TYPE_URL,
        };
        let resp = match recv_response(expected_type, skipped, event) {
            Received::Matched(resp) => resp,
            Received::Skipped => {
                let next = Discovery { service_name, node, stage, skipped: skipped + 1 };
                let requests: Vec<DiscoveryRequest> = Vec::new();
                assert(requests_view(requests@) =~= seq![]);
                return DiscoveryStep::Continue(next, requests);
            },
            Received::Failed(e) => return DiscoveryStep::Failed(e),
        };
        match stage {
            Stage::Listener => {
                let found = extract_cluster_from_lds(&resp, &decoders.listener, &decoders.manager);
                let ghost outcome = name_outcome(found);
                assert(lds_outcome(
                    resp.resources@,
                    decoders@.listener,
                    decoders@.manager,
                    outcome,
                ));
                match found {
                    Ok(cluster) => {
                        let ack = make_ack(&node, LDS_TYPE_URL, service_name.as_str(), &resp);
                        let request = make_request(&node, CDS_TYPE_URL, cluster.as_str());
                        let requests = in_order(ack, request);
                        let next = Discovery {
                            service_name,
                            node,
                            stage: Stage::Cluster(cluster),
                            skipped: 0,
                        };
                        DiscoveryStep::Continue(next, requests)
                    },
                    Err(e) => DiscoveryStep::Failed(e),
                }
            },
            Stage::Cluster(cluster) => {
                let found = extract_eds_name_from_cds(&resp, cluster.as_str(), &decoders.cluster);
                let ghost outcome = name_outcome(found);
                assert(cds_outcome(resp.resources@, cluster@, decoders@.cluster, outcome));
                match found {
                    Ok(name) => {
                        let ack = make_ack(&node, CDS_TYPE_URL, cluster.as_str(), &resp);
                        let request = make_request(&node, EDS_TYPE_URL, name.as_str());
                        let requests = in_order(ack, request);
                        let next = Discovery {
                            service_name,
                            node,
                            stage: Stage::Endpoints,
                            skipped: 0,
                        };
                        DiscoveryStep::Continue(next, requests)
                    },
                    Err(e) => DiscoveryStep::Failed(e),
                }
            },
            Stage::Endpoints => {
                let found = extract_endpoints_from_eds(&resp, &decoders.assignment);
                let ghost outcome = endpoints_outcome(found);
                assert(eds_outcome(resp.resources@, decoders@.assignment, seq![], outcome));
                match found {
                    Ok(endpoints) => DiscoveryStep::Done(endpoints),
                    Err(e) => DiscoveryStep::Failed(e),
                }
            },
        }
    }
}

/// Where Traffic Director is and how it is called.
pub proof fn discovery_constants()
    ensures
        TRAFFIC_DIRECTOR_ADDR@ == "https://directpath-pa.googleapis.com"@,
        ADS_PATH@
            == "/envoy.service.discovery.v3.AggregatedDiscoveryService/StreamAggregatedResources"@,
        CONNECT_TIMEOUT_SECS == 10,
        REQUEST_TIMEOUT_SECS == 30,
        REQUEST_QUEUE_SIZE == 8,
        MAX_RESPONSES == 10,
{
}

/// What the decoders may give is what each of them may give.
pub proof fn decoders_are_seen_whole<
    L: Fn(&[u8]) -> Result<Listener, String>,
    M: Fn(&[u8]) -> Result<HttpConnectionManager, String>,
    C: Fn(&[u8]) -> Result<Cluster, String>,
    A: Fn(&[u8]) -> Result<ClusterLoadAssignment, String>,
>(decoders: Decoders<L, M, C, A>)
    ensures
        decoders@.listener == decoding(decoders.listener),
        decoders@.manager == decoding(decoders.manager),
        decoders@.cluster == decoding(decoders.cluster),
        decoders@.assignment == decoding(decoders.assignment),
{
}

/// A step is seen as what it is: the requests one by one, the endpoints one by
/// one, the error.
pub proof fn steps_are_seen_whole(step: DiscoveryStep)
    ensures
        step matches DiscoveryStep::Continue(next, requests) ==> {
            &&& step@ matches StepView::Continue(seen, seen_requests)
            &&& seen == next@
            &&& seen_requests.len() == requests@.len()
            &&& forall|i: int|
                0 <= i < requests@.len() ==> #[trigger] seen_requests[i] == requests@[i]@
        },
        step matches DiscoveryStep::Done(endpoints) ==> {
            &&& step@ matches StepView::Done(seen)
            &&& seen.len() == endpoints@.len()
            &&& forall|i: int|
                0 <= i < endpoints@.len() ==> #[trigger] seen[i] == (
                    endpoints@[i].address@,
                    endpoints@[i].port,
                )
        },
        step matches DiscoveryStep::Failed(e) ==> step@ == StepView::Failed(e@),
{
}

} // verus!
