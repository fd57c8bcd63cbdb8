//! How a DirectPath channel comes about: endpoints are taken from the cache or
//! discovered, and the first of them is connected to.

use crate::text::append_decimal;
use crate::text::decimal;
use crate::xds::error::XdsError;
use crate::xds::error::XdsErrorView;
use crate::xds::extract::endpoints_view;
use crate::xds::extract::BackendEndpoint;
use crate::xds::types::Node;
use crate::xds::types::NodeView;
use vstd::prelude::*;
use vstd::string::StringExecFns;

verus! {

/// For how many seconds cached endpoints remain valid.
pub const ENDPOINT_CACHE_TTL_SECS: u64 = 300;

/// For how many services endpoints are cached at most.
pub const ENDPOINT_CACHE_CAPACITY: u64 = 64;

/// How many requests may be under way on one channel.
pub const CONCURRENCY_LIMIT: usize = 100;

/// Why there is no DirectPath channel. Errors of the network come with their
/// text.
#[derive(Debug)]
pub enum DirectPathError {
    /// Discovery has failed.
    Xds(XdsError),
    /// Discovery gave no endpoints.
    NoEndpoints,
    /// The endpoint cannot be connected to.
    InvalidEndpoint(String),
    /// Connecting has failed.
    Connect(String),
}

/// Why there is no DirectPath channel, as contracts see it.
#[verifier::ext_equal]
pub enum DirectPathErrorView {
    /// Discovery has failed.
    Xds(XdsErrorView),
    /// Discovery gave no endpoints.
    NoEndpoints,
    /// The endpoint cannot be connected to.
    InvalidEndpoint(Seq<char>),
    /// Connecting has failed.
    Connect(Seq<char>),
}

impl View for DirectPathError {
    type V = DirectPathErrorView;

    open spec fn view(&self) -> DirectPathErrorView {
        match self {
            DirectPathError::Xds(e) => DirectPathErrorView::Xds(e@),
            DirectPathError::NoEndpoints => DirectPathErrorView::NoEndpoints,
            DirectPathError::InvalidEndpoint(e) => DirectPathErrorView::InvalidEndpoint(e@),
            DirectPathError::Connect(e) => DirectPathErrorView::Connect(e@),
        }
    }
}

impl DirectPathError {
    /// The text of the error.
    pub open spec fn text(&self) -> Seq<char> {
        match self {
            DirectPathError::Xds(e) => "DirectPath xDS discovery failed: "@ + e.text(),
            DirectPathError::NoEndpoints => "DirectPath: xDS returned no endpoints"@,
            DirectPathError::InvalidEndpoint(e) => "DirectPath: invalid endpoint: "@ + e@,
            DirectPathError::Connect(e) => "DirectPath: ALTS connection failed: "@ + e@,
        }
    }

    /// The text of the error behind this one, where there is one.
    pub open spec fn cause(&self) -> Option<Seq<char>> {
        match self {
            DirectPathError::Xds(e) => Some(e.text()),
            DirectPathError::Connect(e) => Some(e@),
            _ => None,
        }
    }

    /// Returns the text of the error.
    pub fn message(&self) -> (message: String)
        ensures
            message@ == self.text(),
            message@ == match self {
                DirectPathError::Xds(e) => "DirectPath xDS discovery failed: "@ + e.text(),
                DirectPathError::NoEndpoints => "DirectPath: xDS returned no endpoints"@,
                DirectPathError::InvalidEndpoint(e) => "DirectPath: invalid endpoint: "@ + e@,
                DirectPathError::Connect(e) => "DirectPath: ALTS connection failed: "@ + e@,
            },
    {
        match self {
            DirectPathError::Xds(e) => {
                "DirectPath xDS discovery failed: ".to_owned().concat(e.message().as_str())
            },
            DirectPathError::NoEndpoints => "DirectPath: xDS returned no endpoints".to_owned(),
            DirectPathError::InvalidEndpoint(e) => {
                "DirectPath: invalid endpoint: ".to_owned().concat(e.as_str())
            },
            DirectPathError::Connect(e) => {
                "DirectPath: ALTS connection failed: ".to_owned().concat(e.as_str())
            },
        }
    }

    /// Returns the text of the error behind this one, where there is one.
    pub fn source(&self) -> (source: Option<String>)
        ensures
            match source {
                Some(text) => self.cause() == Some(text@),
                None => self.cause() is None,
            },
            (match source {
                Some(s) => Some(s@),
                None => None,
            }) == match self {
                DirectPathError::Xds(e) => Some(e.text()),
                DirectPathError::Connect(e) => Some(e@),
                _ => None,
            },
    {
        match self {
            DirectPathError::Xds(e) => Some(e.message()),
            DirectPathError::Connect(e) => Some(e.clone()),
            _ => None,
        }
    }
}

/// What has come of the last action while the endpoints of a service are
/// resolved.
pub enum ResolveEvent {
    /// What the cache holds for the service.
    Looked(Option<Vec<BackendEndpoint>>),
    /// The node that asks, or why there is none.
    NodeBuilt(Result<Node, XdsError>),
    /// The endpoints discovered, or why there are none.
    Discovered(Result<Vec<BackendEndpoint>, XdsError>),
}

/// What has come of the last action, as contracts see it.
#[verifier::ext_equal]
pub enum ResolveEventView {
    /// What the cache holds for the service.
    Looked(Option<Seq<(Seq<char>, u32)>>),
    /// The node that asks, or why there is none.
    NodeBuilt(Result<NodeView, XdsErrorView>),
    /// The endpoints discovered, or why there are none.
    Discovered(Result<Seq<(Seq<char>, u32)>, XdsErrorView>),
}

impl View for ResolveEvent {
    type V = ResolveEventView;

    open spec fn view(&self) -> ResolveEventView {
        match self {
            ResolveEvent::Looked(Some(cached)) => ResolveEventView::Looked(
                Some(endpoints_view(cached@)),
            ),
            ResolveEvent::Looked(None) => ResolveEventView::Looked(None),
            ResolveEvent::NodeBuilt(Ok(node)) => ResolveEventView::NodeBuilt(Ok(node@)),
            ResolveEvent::NodeBuilt(Err(e)) => ResolveEventView::NodeBuilt(Err(e@)),
            ResolveEvent::Discovered(Ok(found)) => ResolveEventView::Discovered(
                Ok(endpoints_view(found@)),
            ),
            ResolveEvent::Discovered(Err(e)) => ResolveEventView::Discovered(Err(e@)),
        }
    }
}

/// What to do next while the endpoints of a service are resolved.
pub enum ResolveAction {
    /// Connect by these endpoints.
    Connect(Vec<BackendEndpoint>),
    /// Build the node that asks.
    BuildNode,
    /// Discover endpoints with this node.
    Discover(Node),
    /// Put these endpoints in the cache, then connect by them.
    CacheAndConnect(Vec<BackendEndpoint>),
    /// Give up.
    Fail(DirectPathError),
}

/// What to do next, as contracts see it.
#[verifier::ext_equal]
pub enum ResolveActionView {
    /// Connect by these endpoints.
    Connect(Seq<(Seq<char>, u32)>),
    /// Build the node that asks.
    BuildNode,
    /// Discover endpoints with this node.
    Discover(NodeView),
    /// Put these endpoints in the cache, then connect by them.
    CacheAndConnect(Seq<(Seq<char>, u32)>),
    /// Give up.
    Fail(DirectPathErrorView),
}

impl View for ResolveAction {
    type V = ResolveActionView;

    open spec fn view(&self) -> ResolveActionView {
        match self {
            ResolveAction::Connect(e) => ResolveActionView::Connect(endpoints_view(e@)),
            ResolveAction::BuildNode => ResolveActionView::BuildNode,
            ResolveAction::Discover(node) => ResolveActionView::Discover(node@),
            ResolveAction::CacheAndConnect(e) => ResolveActionView::CacheAndConnect(
                endpoints_view(e@),
            ),
            ResolveAction::Fail(e) => ResolveActionView::Fail(e@),
        }
    }
}

/// What to do next: what the cache holds is used; where it holds nothing, a
/// node is built and endpoints are discovered with it, and what is discovered
/// goes to the cache.
pub open spec fn resolution(event: ResolveEventView) -> ResolveActionView {
    match event {
        ResolveEventView::Looked(Some(cached)) => ResolveActionView::Connect(cached),
        ResolveEventView::Looked(None) => ResolveActionView::BuildNode,
        ResolveEventView::NodeBuilt(Ok(node)) => ResolveActionView::Discover(node),
        ResolveEventView::NodeBuilt(Err(e)) => ResolveActionView::Fail(DirectPathErrorView::Xds(e)),
        ResolveEventView::Discovered(Ok(found)) => if found.len() == 0 {
            ResolveActionView::Fail(DirectPathErrorView::NoEndpoints)
        } else {
            ResolveActionView::CacheAndConnect(found)
        },
        ResolveEventView::Discovered(Err(e)) => ResolveActionView::Fail(
            DirectPathErrorView::Xds(e),
        ),
    }
}

/// Says what to do next to resolve the endpoints of a service. The first event
/// is what the cache holds.
pub fn resolve_endpoints(event: ResolveEvent) -> (action: ResolveAction)
    ensures
        action@ == resolution(event@),
        match event {
            ResolveEvent::Looked(Some(cached)) => action matches ResolveAction::Connect(e) && e@
                == cached@,
            ResolveEvent::Looked(None) => action is BuildNode,
            ResolveEvent::NodeBuilt(Ok(node)) => action matches ResolveAction::Discover(n) && n
                == node,
            ResolveEvent::NodeBuilt(Err(e)) => action matches ResolveAction::Fail(
                DirectPathError::Xds(cause),
            ) && cause == e,
            ResolveEvent::Discovered(Ok(found)) => if found@.len() == 0 {
                action matches ResolveAction::Fail(DirectPathError::NoEndpoints)
            } else {
                action matches ResolveAction::CacheAndConnect(e) && e@ == found@
            },
            ResolveEvent::Discovered(Err(e)) => action matches ResolveAction::Fail(
                DirectPathError::Xds(cause),
            ) && cause == e,
        },
{
    match event {
        ResolveEvent::Looked(Some(cached)) => ResolveAction::Connect(cached),
        ResolveEvent::Looked(None) => ResolveAction::BuildNode,
        ResolveEvent::NodeBuilt(Ok(node)) => ResolveAction::Discover(node),
        ResolveEvent::NodeBuilt(Err(e)) => ResolveAction::Fail(DirectPathError::Xds(e)),
        ResolveEvent::Discovered(Ok(found)) => {
            if found.is_empty() {
                ResolveAction::Fail(DirectPathError::NoEndpoints)
            } else {
                ResolveAction::CacheAndConnect(found)
            }
        },
        ResolveEvent::Discovered(Err(e)) => ResolveAction::Fail(DirectPathError::Xds(e)),
    }
}

/// The endpoints in the cache, by service.
pub type EndpointCache = Map<Seq<char>, Seq<(Seq<char>, u32)>>;

/// What a resolution comes to.
pub struct Resolution {
    /// The cache after it.
    pub cache: EndpointCache,
    /// What was done, in order.
    pub actions: Seq<ResolveActionView>,
    /// The endpoints, or why there are none.
    pub outcome: Result<Seq<(Seq<char>, u32)>, DirectPathErrorView>,
}

/// What comes of building a node and of discovering endpoints, where it is
/// done.
pub struct Answers {
    /// The node that asks, or why there is none.
    pub node: Result<NodeView, XdsErrorView>,
    /// The endpoints discovered, or why there are none.
    pub found: Result<Seq<(Seq<char>, u32)>, XdsErrorView>,
}

impl ResolveEventView {
    /// How many events may follow this one.
    pub open spec fn rank(self) -> nat {
        match self {
            ResolveEventView::Looked(_) => 2,
            ResolveEventView::NodeBuilt(_) => 1,
            ResolveEventView::Discovered(_) => 0,
        }
    }
}

/// A resolution from an event on: each action is done, and what comes of it is
/// the next event.
pub open spec fn resolve_from(
    cache: EndpointCache,
    service: Seq<char>,
    event: ResolveEventView,
    answers: Answers,
) -> Resolution
    decreases event.rank(),
{
    let action = resolution(event);
    match action {
        ResolveActionView::Connect(endpoints) => Resolution {
            cache,
            actions: seq![action],
            outcome: Ok(endpoints),
        },
        ResolveActionView::CacheAndConnect(endpoints) => Resolution {
            cache: cache.insert(service, endpoints),
            actions: seq![action],
            outcome: Ok(endpoints),
        },
        ResolveActionView::Fail(e) => Resolution { cache, actions: seq![action], outcome: Err(e) },
        ResolveActionView::BuildNode => {
            let rest = resolve_from(
                cache,
                service,
                ResolveEventView::NodeBuilt(answers.node),
                answers,
            );
            Resolution { actions: seq![action] + rest.actions, ..rest }
        },
        ResolveActionView::Discover(_) => {
            let rest = resolve_from(
                cache,
                service,
                ResolveEventView::Discovered(answers.found),
                answers,
            );
            Resolution { actions: seq![action] + rest.actions, ..rest }
        },
    }
}

/// A whole resolution of the endpoints of a service: it begins with what the
/// cache holds.
pub open spec fn resolve(cache: EndpointCache, service: Seq<char>, answers: Answers) -> Resolution {
    let cached = if cache.contains_key(service) {
        Some(cache[service])
    } else {
        None
    };
    resolve_from(cache, service, ResolveEventView::Looked(cached), answers)
}

/// What a whole resolution comes to, in full: where the cache holds endpoints
/// they are used and nothing else is done; where it does not, the node and the
/// discovery decide, and only endpoints that were discovered go to the cache.
pub proof fn resolution_in_full(cache: EndpointCache, service: Seq<char>, answers: Answers)
    ensures
        ({
            let r = resolve(cache, service, answers);
            if cache.contains_key(service) {
                &&& r.outcome == Ok::<_, DirectPathErrorView>(cache[service])
                &&& r.cache == cache
                &&& r.actions == seq![ResolveActionView::Connect(cache[service])]
            } else {
                match (answers.node, answers.found) {
                    (Err(e), _) => {
                        &&& r.outcome == Err::<Seq<(Seq<char>, u32)>, _>(
                            DirectPathErrorView::Xds(e),
                        )
                        &&& r.cache == cache
                    },
                    (Ok(_), Err(e)) => {
                        &&& r.outcome == Err::<Seq<(Seq<char>, u32)>, _>(
                            DirectPathErrorView::Xds(e),
                        )
                        &&& r.cache == cache
                    },
                    (Ok(node), Ok(found)) => if found.len() == 0 {
                        &&& r.outcome == Err::<Seq<(Seq<char>, u32)>, _>(
                            DirectPathErrorView::NoEndpoints,
                        )
                        &&& r.cache == cache
                    } else {
                        &&& r.outcome == Ok::<_, DirectPathErrorView>(found)
                        &&& r.cache == cache.insert(service, found)
                        &&& r.actions == seq![
                            ResolveActionView::BuildNode,
                            ResolveActionView::Discover(node),
                            ResolveActionView::CacheAndConnect(found),
                        ]
                    },
                }
            }
        }),
{
    let r = resolve(cache, service, answers);
    reveal_with_fuel(resolve_from, 3);
    if !cache.contains_key(service) {
        if let (Ok(node), Ok(found)) = (answers.node, answers.found) {
            if found.len() > 0 {
                assert(r.actions =~= seq![
                    ResolveActionView::BuildNode,
                    ResolveActionView::Discover(node),
                    ResolveActionView::CacheAndConnect(found),
                ]);
            }
        }
    }
}

/// As long as its endpoints stay in the cache, a service that was resolved is
/// resolved to the same endpoints again, whatever a node or a discovery would
/// come to: no node is built and nothing is discovered.
pub proof fn resolved_again_from_cache(
    cache: EndpointCache,
    service: Seq<char>,
    answers: Answers,
    later: Answers,
)
    requires
        resolve(cache, service, answers).outcome is Ok,
    ensures
        ({
            let first = resolve(cache, service, answers);
            let second = resolve(first.cache, service, later);
            &&& second.outcome == first.outcome
            &&& second.cache == first.cache
            &&& second.actions == seq![ResolveActionView::Connect(first.outcome->Ok_0)]
            &&& forall|i: int|
                0 <= i < second.actions.len() ==> !(#[trigger] second.actions[i] is BuildNode)
                    && !(second.actions[i] is Discover)
        }),
{
    resolution_in_full(cache, service, answers);
    resolution_in_full(resolve(cache, service, answers).cache, service, later);
}

/// A resolution that fails leaves the cache as it was, and none changes what
/// the cache holds for another service.
pub proof fn cache_changes_only_by_success(
    cache: EndpointCache,
    service: Seq<char>,
    answers: Answers,
    other: Seq<char>,
)
    ensures
        ({
            let r = resolve(cache, service, answers);
            &&& r.outcome is Err ==> r.cache == cache
            &&& other != service ==> {
                &&& r.cache.contains_key(other) == cache.contains_key(other)
                &&& r.cache[other] == cache[other]
            }
        }),
{
    resolution_in_full(cache, service, answers);
}

/// Every list of endpoints in the cache has at least one.
pub open spec fn never_empty(cache: EndpointCache) -> bool {
    forall|service: Seq<char>| #[trigger]
        cache.contains_key(service) ==> cache[service].len() > 0
}

/// No empty list of endpoints ever goes to the cache, so there is always an
/// endpoint to connect to.
pub proof fn resolved_endpoints_are_some(
    cache: EndpointCache,
    service: Seq<char>,
    answers: Answers,
)
    requires
        never_empty(cache),
    ensures
        never_empty(resolve(cache, service, answers).cache),
        resolve(cache, service, answers).outcome matches Ok(endpoints) ==> endpoints.len() > 0,
{
    resolution_in_full(cache, service, answers);
}

/// The address of the backend to connect to: the first of the endpoints.
pub fn backend_uri(endpoints: &[BackendEndpoint]) -> (uri: String)
    requires
        endpoints@.len() > 0,
    ensures
        uri@ == "http://"@ + endpoints@[0].address@ + ":"@ + decimal(endpoints@[0].port as nat),
{
    let endpoint = &endpoints[0];
    let mut uri = "http://".to_owned();
    uri.append(endpoint.address.as_str());
    uri.append(":");
    append_decimal(&mut uri, endpoint.port as u64);
    uri
}

/// How long and for how many services endpoints are cached, and how many
/// requests a channel takes.
pub proof fn channel_limits()
    ensures
        ENDPOINT_CACHE_TTL_SECS == 5 * 60,
        ENDPOINT_CACHE_CAPACITY == 64,
        CONCURRENCY_LIMIT == 100,
{
}

/// An event, an action and an error are seen as what they are, endpoints one by
/// one.
pub proof fn resolution_is_seen_whole(
    event: ResolveEvent,
    action: ResolveAction,
    error: DirectPathError,
)
    ensures
        event matches ResolveEvent::Looked(Some(e)) ==> event@ == ResolveEventView::Looked(
            Some(endpoints_view(e@)),
        ),
        event matches ResolveEvent::Looked(None) ==> event@ == ResolveEventView::Looked(None),
        event matches ResolveEvent::NodeBuilt(Ok(n)) ==> event@ == ResolveEventView::NodeBuilt(
            Ok(n@),
        ),
        event matches ResolveEvent::NodeBuilt(Err(e)) ==> event@ == ResolveEventView::NodeBuilt(
            Err(e@),
        ),
        event matches ResolveEvent::Discovered(Ok(e)) ==> event@ == ResolveEventView::Discovered(
            Ok(endpoints_view(e@)),
        ),
        event matches ResolveEvent::Discovered(Err(e)) ==> event@ == ResolveEventView::Discovered(
            Err(e@),
        ),
        action matches ResolveAction::Connect(e) ==> action@ == ResolveActionView::Connect(
            endpoints_view(e@),
        ),
        action is BuildNode ==> action@ is BuildNode,
        action matches ResolveAction::Discover(n) ==> action@ == ResolveActionView::Discover(n@),
        action matches ResolveAction::CacheAndConnect(e) ==> action@
            == ResolveActionView::CacheAndConnect(endpoints_view(e@)),
        action matches ResolveAction::Fail(e) ==> action@ == ResolveActionView::Fail(e@),
        match error {
            DirectPathError::Xds(e) => error@ == DirectPathErrorView::Xds(e@),
            DirectPathError::NoEndpoints => error@ == DirectPathErrorView::NoEndpoints,
            DirectPathError::InvalidEndpoint(t) => error@ == DirectPathErrorView::InvalidEndpoint(
                t@,
            ),
            DirectPathError::Connect(t) => error@ == DirectPathErrorView::Connect(t@),
        },
{
}

} // verus!
