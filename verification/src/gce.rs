//! Detection of Google Compute Engine by its metadata server.

use crate::text::same_text;
use vstd::prelude::*;
use vstd::string::StringExecFns;

verus! {

/// The header by which requests and responses of the metadata server are
/// known.
pub const METADATA_FLAVOR_HEADER: &'static str = "Metadata-Flavor";

/// The value of that header.
pub const METADATA_FLAVOR_VALUE: &'static str = "Google";

/// The host of the metadata server where nothing else is set.
pub const DEFAULT_METADATA_HOST: &'static str = "metadata.google.internal";

/// The environment variable that names another host.
pub const GCE_METADATA_HOST_ENV_VAR: &'static str = "GCE_METADATA_HOST";

/// How long to wait for the metadata server, in milliseconds.
pub const DETECTION_TIMEOUT_MILLIS: u64 = 500;

/// The host of the metadata server, from the value of the environment variable
/// [`GCE_METADATA_HOST_ENV_VAR`], where it is set.
pub fn metadata_host(variable: Option<String>) -> (host: String)
    ensures
        host@ == match variable {
            Some(value) => value@,
            None => "metadata.google.internal"@,
        },
{
    match variable {
        Some(value) => value,
        None => DEFAULT_METADATA_HOST.to_owned(),
    }
}

/// The URL by which the metadata server on a host is detected.
pub fn detection_url(host: &str) -> (url: String)
    ensures
        url@ == "http://"@ + host@ + "/computeMetadata/v1/"@,
{
    let mut url = "http://".to_owned();
    url.append(host);
    url.append("/computeMetadata/v1/");
    url
}

/// The URL of the instance zone on the metadata server of a host.
pub fn zone_url(host: &str) -> (url: String)
    ensures
        url@ == "http://"@ + host@ + "/computeMetadata/v1/instance/zone"@,
{
    let mut url = "http://".to_owned();
    url.append(host);
    url.append("/computeMetadata/v1/instance/zone");
    url
}

/// What came of asking for the detection URL.
#[derive(Debug)]
pub enum Probe {
    /// No response came.
    Failed,
    /// A response came, with this value of the flavor header, if it has one
    /// that is text.
    Answered(Option<String>),
}

/// Whether an answer is that of a metadata server.
pub fn detect_gce(probe: &Probe) -> (detected: bool)
    ensures
        detected == (probe matches Probe::Answered(Some(value)) && value@ == "Google"@),
{
    match probe {
        Probe::Answered(Some(value)) => same_text(value.as_str(), METADATA_FLAVOR_VALUE),
        _ => false,
    }
}

/// What came of asking for the zone URL.
#[derive(Debug)]
pub enum ZoneReply {
    /// No response came.
    Failed,
    /// A response came: whether its status is one of success, and its body,
    /// where it could be read.
    Answered(bool, Option<String>),
}

/// The zone of the instance, e.g. `projects/123456/zones/us-central1-a`, or
/// `None` where the query failed.
pub fn instance_zone(reply: ZoneReply) -> (zone: Option<String>)
    ensures
        zone == match reply {
            ZoneReply::Answered(true, body) => body,
            _ => None,
        },
{
    match reply {
        ZoneReply::Answered(success, body) => {
            if success {
                body
            } else {
                None
            }
        },
        ZoneReply::Failed => None,
    }
}

/// The names and values by which the metadata server is asked.
pub proof fn metadata_names()
    ensures
        METADATA_FLAVOR_HEADER@ == "Metadata-Flavor"@,
        METADATA_FLAVOR_VALUE@ == "Google"@,
        DEFAULT_METADATA_HOST@ == "metadata.google.internal"@,
        GCE_METADATA_HOST_ENV_VAR@ == "GCE_METADATA_HOST"@,
        DETECTION_TIMEOUT_MILLIS == 500,
{
}

} // verus!
