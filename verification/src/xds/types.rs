//! The minimal subset of xDS messages needed for DirectPath endpoint discovery.

use crate::text::texts;
use vstd::prelude::*;

verus! {

/// Type URL of the listeners asked for first.
pub const LDS_TYPE_URL: &'static str = "type.googleapis.com/envoy.config.listener.v3.Listener";

/// Type URL of route configurations.
pub const RDS_TYPE_URL: &'static str = "type.googleapis.com/envoy.config.route.v3.RouteConfiguration";

/// Type URL of the clusters asked for next.
pub const CDS_TYPE_URL: &'static str = "type.googleapis.com/envoy.config.cluster.v3.Cluster";

/// Type URL of the load assignments asked for last.
pub const EDS_TYPE_URL: &'static str = "type.googleapis.com/envoy.config.endpoint.v3.ClusterLoadAssignment";

/// Type URL of the connection manager inside a listener.
pub const HTTP_CONNECTION_MANAGER_TYPE_URL: &'static str = "type.googleapis.com/envoy.extensions.filters.network.http_connection_manager.v3.HttpConnectionManager";

/// A message of some type, encoded.
#[derive(Clone, Debug, Default, PartialEq)]
pub struct Any {
    /// What type the message is of.
    pub type_url: String,
    /// The encoded message.
    pub value: Vec<u8>,
}

// ADS (envoy.service.discovery.v3)

/// A request for resources, or the acknowledgement of a response.
#[derive(Clone, Debug, Default, PartialEq)]
pub struct DiscoveryRequest {
    /// The version that is acknowledged.
    pub version_info: String,
    /// Who asks.
    pub node: Option<Node>,
    /// The names of the resources.
    pub resource_names: Vec<String>,
    /// The type of the resources.
    pub type_url: String,
    /// The nonce of the response that is acknowledged.
    pub response_nonce: String,
}

/// A response with resources.
#[derive(Clone, Debug, Default, PartialEq)]
pub struct DiscoveryResponse {
    /// The version of the resources.
    pub version_info: String,
    /// The resources.
    pub resources: Vec<Any>,
    /// The type of the resources.
    pub type_url: String,
    /// The nonce of the response.
    pub nonce: String,
}

// Node (envoy.config.core.v3)

/// A field of the metadata of a node.
#[derive(Clone, Debug, Default, PartialEq)]
pub struct MetadataField {
    /// The name of the field.
    pub key: String,
    /// Its value.
    pub value: String,
}

/// Who asks for resources.
#[derive(Debug, Default, PartialEq)]
pub struct Node {
    /// The identifier of the node.
    pub id: String,
    /// The cluster of the node.
    pub cluster: String,
    /// What else is known of the node: text fields, no two with one name.
    pub metadata: Option<Vec<MetadataField>>,
    /// Where the node is.
    pub locality: Option<Locality>,
}

/// Where a node is.
#[derive(Clone, Debug, Default, PartialEq)]
pub struct Locality {
    /// The region.
    pub region: String,
    /// The zone in the region.
    pub zone: String,
}

// Listener (envoy.config.listener.v3), in an LDS response

/// A listener.
#[derive(Clone, Debug, Default, PartialEq)]
pub struct Listener {
    /// The name of the listener.
    pub name: String,
    /// What it listens for.
    pub api_listener: Option<ApiListener>,
}

/// What a listener listens for.
#[derive(Clone, Debug, Default, PartialEq)]
pub struct ApiListener {
    /// The configuration, encoded.
    pub api_listener: Option<Any>,
}

// HttpConnectionManager (envoy.extensions.filters.network.http_connection_manager.v3),
// only the fields needed to extract the inline route configuration

/// A connection manager.
#[derive(Clone, Debug, Default, PartialEq)]
pub struct HttpConnectionManager {
    /// Where to ask for the route configuration.
    pub rds: Option<Rds>,
    /// The inline route configuration.
    pub route_config: Option<RouteConfiguration>,
}

/// Where to ask for a route configuration.
#[derive(Clone, Debug, Default, PartialEq)]
pub struct Rds {
    /// The name of the route configuration.
    pub route_config_name: String,
}

// RouteConfiguration (envoy.config.route.v3)

/// A route configuration.
#[derive(Clone, Debug, Default, PartialEq)]
pub struct RouteConfiguration {
    /// The name of the configuration.
    pub name: String,
    /// Its virtual hosts.
    pub virtual_hosts: Vec<VirtualHost>,
}

/// A virtual host.
#[derive(Clone, Debug, Default, PartialEq)]
pub struct VirtualHost {
    /// The name of the host.
    pub name: String,
    /// Its routes.
    pub routes: Vec<Route>,
}

/// A route.
#[derive(Clone, Debug, Default, PartialEq)]
pub struct Route {
    /// What the route does.
    pub route: Option<RouteAction>,
}

/// What a route does.
#[derive(Clone, Debug, Default, PartialEq)]
pub struct RouteAction {
    /// The cluster that it leads to, empty where there is none.
    pub cluster: String,
}

// Cluster (envoy.config.cluster.v3), in a CDS response

/// A cluster.
#[derive(Clone, Debug, Default, PartialEq)]
pub struct Cluster {
    /// The name of the cluster.
    pub name: String,
    /// Where its endpoints are asked for.
    pub eds_cluster_config: Option<EdsClusterConfig>,
}

/// Where the endpoints of a cluster are asked for.
#[derive(Clone, Debug, Default, PartialEq)]
pub struct EdsClusterConfig {
    /// The name to ask for, empty where it is that of the cluster.
    pub service_name: String,
}

// ClusterLoadAssignment (envoy.config.endpoint.v3), in an EDS response

/// The endpoints of a cluster.
#[derive(Clone, Debug, Default, PartialEq)]
pub struct ClusterLoadAssignment {
    /// The name of the cluster.
    pub cluster_name: String,
    /// Its endpoints, by locality.
    pub endpoints: Vec<LocalityLbEndpoints>,
}

/// The endpoints in a locality.
#[derive(Clone, Debug, Default, PartialEq)]
pub struct LocalityLbEndpoints {
    /// The endpoints.
    pub lb_endpoints: Vec<LbEndpoint>,
}

/// An endpoint among those that share the load.
#[derive(Clone, Debug, Default, PartialEq)]
pub struct LbEndpoint {
    /// The endpoint.
    pub endpoint: Option<Endpoint>,
}

/// An endpoint.
#[derive(Clone, Debug, Default, PartialEq)]
pub struct Endpoint {
    /// Its address.
    pub address: Option<Address>,
}

/// An address.
#[derive(Clone, Debug, Default, PartialEq)]
pub struct Address {
    /// The address as that of a socket.
    pub socket_address: Option<SocketAddress>,
}

/// The address of a socket.
#[derive(Clone, Debug, Default, PartialEq)]
pub struct SocketAddress {
    /// The host.
    pub address: String,
    /// The port.
    pub port_value: u32,
}

/// A node as its contracts see it.
#[verifier::ext_equal]
pub struct NodeView {
    /// The identifier of the node.
    pub id: Seq<char>,
    /// The cluster of the node.
    pub cluster: Seq<char>,
    /// Names and values of the metadata fields.
    pub metadata: Option<Seq<(Seq<char>, Seq<char>)>>,
    /// Region and zone.
    pub locality: Option<(Seq<char>, Seq<char>)>,
}

/// A request as its contracts see it.
#[verifier::ext_equal]
pub struct RequestView {
    /// The version that is acknowledged.
    pub version_info: Seq<char>,
    /// Who asks.
    pub node: Option<NodeView>,
    /// The names of the resources.
    pub resource_names: Seq<Seq<char>>,
    /// The type of the resources.
    pub type_url: Seq<char>,
    /// The nonce of the response that is acknowledged.
    pub response_nonce: Seq<char>,
}

/// Names and values of metadata fields.
pub open spec fn fields_view(fields: Seq<MetadataField>) -> Seq<(Seq<char>, Seq<char>)> {
    fields.map_values(|f: MetadataField| (f.key@, f.value@))
}

impl View for Node {
    type V = NodeView;

    open spec fn view(&self) -> NodeView {
        NodeView {
            id: self.id@,
            cluster: self.cluster@,
            metadata: match self.metadata {
                Some(fields) => Some(fields_view(fields@)),
                None => None,
            },
            locality: match self.locality {
                Some(locality) => Some((locality.region@, locality.zone@)),
                None => None,
            },
        }
    }
}

impl View for DiscoveryRequest {
    type V = RequestView;

    open spec fn view(&self) -> RequestView {
        RequestView {
            version_info: self.version_info@,
            node: match self.node {
                Some(node) => Some(node@),
                None => None,
            },
            resource_names: texts(self.resource_names@),
            type_url: self.type_url@,
            response_nonce: self.response_nonce@,
        }
    }
}

impl Clone for Node {
    fn clone(&self) -> (node: Self)
        ensures
            node@ == self@,
            node.id@ == self.id@,
            node.cluster@ == self.cluster@,
    {
        let metadata = match &self.metadata {
            Some(fields) => {
                let mut copies: Vec<MetadataField> = Vec::new();
                let mut i: usize = 0;
                while i < fields.len()
                    invariant
                        i <= fields.len(),
                        fields_view(copies@) == fields_view(fields@).take(i as int),
                    decreases fields.len() - i,
                {
                    let ghost before = fields_view(copies@);
                    let field = &fields[i];
                    copies.push(
                        MetadataField { key: field.key.clone(), value: field.value.clone() },
                    );
                    assert(fields_view(copies@) =~= before.push((field.key@, field.value@)));
                    assert(fields_view(fields@).take(i + 1) =~= before.push(
                        (field.key@, field.value@),
                    ));
                    i += 1;
                }
                assert(fields_view(copies@) =~= fields_view(fields@));
                Some(copies)
            },
            None => None,
        };
        let locality = match &self.locality {
            Some(locality) => Some(
                Locality { region: locality.region.clone(), zone: locality.zone.clone() },
            ),
            None => None,
        };
        Node { id: self.id.clone(), cluster: self.cluster.clone(), metadata, locality }
    }
}

/// The types of the resources that are asked for.
pub proof fn type_urls()
    ensures
        LDS_TYPE_URL@ == "type.googleapis.com/envoy.config.listener.v3.Listener"@,
        RDS_TYPE_URL@ == "type.googleapis.com/envoy.config.route.v3.RouteConfiguration"@,
        CDS_TYPE_URL@ == "type.googleapis.com/envoy.config.cluster.v3.Cluster"@,
        EDS_TYPE_URL@ == "type.googleapis.com/envoy.config.endpoint.v3.ClusterLoadAssignment"@,
        HTTP_CONNECTION_MANAGER_TYPE_URL@
            == "type.googleapis.com/envoy.extensions.filters.network.http_connection_manager.v3.HttpConnectionManager"@,
{
}

/// A request and a node are seen with all that they hold, field by field and in
/// order.
pub proof fn requests_are_seen_whole(request: DiscoveryRequest, node: Node)
    ensures
        request@.version_info == request.version_info@,
        request@.type_url == request.type_url@,
        request@.response_nonce == request.response_nonce@,
        request@.resource_names.len() == request.resource_names@.len(),
        forall|i: int|
            0 <= i < request.resource_names@.len() ==> #[trigger] request@.resource_names[i]
                == request.resource_names@[i]@,
        request.node is None <==> request@.node is None,
        request.node matches Some(n) ==> request@.node == Some(n@),
        node@.id == node.id@,
        node@.cluster == node.cluster@,
        node.metadata is None <==> node@.metadata is None,
        node.metadata matches Some(fields) ==> {
            &&& node@.metadata->0.len() == fields@.len()
            &&& forall|i: int|
                0 <= i < fields@.len() ==> #[trigger] node@.metadata->0[i] == (
                    fields@[i].key@,
                    fields@[i].value@,
                )
        },
        node.locality is None <==> node@.locality is None,
        node.locality matches Some(locality) ==> node@.locality == Some(
            (locality.region@, locality.zone@),
        ),
{
}

} // verus!
