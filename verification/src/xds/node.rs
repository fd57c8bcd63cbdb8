//! Who asks Traffic Director for endpoints: the node, from the zone that the
//! metadata server names.

use crate::text::append_hex_byte;
use crate::text::before_last;
use crate::text::hex;
use crate::text::hex_byte;
use crate::text::split;
use crate::text::split_text;
use crate::text::text_before_last;
use crate::text::texts;
use crate::xds::error::XdsError;
use crate::xds::types::fields_view;
use crate::xds::types::Locality;
use crate::xds::types::MetadataField;
use crate::xds::types::Node;
use crate::xds::types::NodeView;
use rand::RngExt;
use vstd::prelude::*;
use vstd::string::StringExecFns;

verus! {

/// Sixteen random bytes: calls `fill` of `rand` on the generator that
/// `rand::rng` gives. Any bytes may come back, so nothing is claimed of them.
#[verifier::external_body]
fn random_bytes() -> (bytes: [u8; 16]) {
    let mut bytes = [0u8; 16];
    rand::rng().fill(&mut bytes);
    bytes
}

/// The bytes of a version 4, variant 1 UUID: the given ones, with the version
/// in the high half of byte 6 and the variant in the two highest bits of byte
/// 8.
pub open spec fn uuid_bytes(random: Seq<u8>) -> Seq<u8> {
    random.update(6, ((random[6] % 16) + 64) as u8).update(8, ((random[8] % 64) + 128) as u8)
}

/// Bytes as a UUID: in hexadecimal, in groups of 4, 2, 2, 2 and 6 bytes.
pub open spec fn uuid_text(bytes: Seq<u8>) -> Seq<char> {
    hex(bytes.subrange(0, 4)) + "-"@ + hex(bytes.subrange(4, 6)) + "-"@ + hex(bytes.subrange(6, 8))
        + "-"@ + hex(bytes.subrange(8, 10)) + "-"@ + hex(bytes.subrange(10, 16))
}

/// Appends the bytes from `from` to `to` in hexadecimal.
fn append_hex(out: &mut String, bytes: &[u8; 16], from: usize, to: usize)
    requires
        from <= to <= 16,
    ensures
        final(out)@ == old(out)@ + hex(bytes@.subrange(from as int, to as int)),
{
    let ghost start = out@;
    let mut i: usize = from;
    assert(bytes@.subrange(from as int, from as int) =~= seq![]);
    assert(start + hex(seq![]) =~= start);
    while i < to
        invariant
            from <= i <= to <= 16,
            out@ == start + hex(bytes@.subrange(from as int, i as int)),
        decreases to - i,
    {
        let ghost group = bytes@.subrange(from as int, i + 1);
        append_hex_byte(out, bytes[i]);
        assert(group.drop_last() =~= bytes@.subrange(from as int, i as int));
        assert(start + (hex(group.drop_last()) + hex_byte(bytes@[i as int])) =~= start + hex(
            group.drop_last(),
        ) + hex_byte(bytes@[i as int]));
        i += 1;
    }
}

/// Makes a version 4 UUID of random bytes.
pub fn format_uuid_v4(random: [u8; 16]) -> (uuid: String)
    ensures
        uuid@ == uuid_text(uuid_bytes(random@)),
{
    let mut bytes = random;
    let b6: u8 = bytes[6];
    let b8: u8 = bytes[8];
    assert((b6 & 0x0f) | 0x40 == (b6 % 16) + 64) by (bit_vector);
    assert((b8 & 0x3f) | 0x80 == (b8 % 64) + 128) by (bit_vector);
    bytes[6] = (b6 & 0x0f) | 0x40;
    bytes[8] = (b8 & 0x3f) | 0x80;
    assert(bytes@ =~= uuid_bytes(random@));
    let mut uuid = String::new();
    append_hex(&mut uuid, &bytes, 0, 4);
    uuid.append("-");
    append_hex(&mut uuid, &bytes, 4, 6);
    uuid.append("-");
    append_hex(&mut uuid, &bytes, 6, 8);
    uuid.append("-");
    append_hex(&mut uuid, &bytes, 8, 10);
    uuid.append("-");
    append_hex(&mut uuid, &bytes, 10, 16);
    assert(uuid@ =~= uuid_text(uuid_bytes(random@)));
    uuid
}

/// Makes a random version 4 UUID.
pub fn uuid_v4() -> (uuid: String)
    ensures
        exists|random: [u8; 16]| uuid@ == #[trigger] uuid_text(uuid_bytes(random@)),
{
    let random = random_bytes();
    format_uuid_v4(random)
}

/// The metadata that Traffic Director asks of a node of a project.
pub open spec fn node_metadata(project_number: Seq<char>) -> Seq<(Seq<char>, Seq<char>)> {
    seq![
        ("TRAFFICDIRECTOR_GCP_PROJECT_NUMBER"@, project_number),
        ("TRAFFICDIRECTOR_NETWORK_NAME"@, "default"@),
    ]
}

/// The node in a zone, with a UUID of its own. The zone has the form
/// `projects/{project_number}/zones/{zone_name}`; the region is the name of
/// the zone without its last part.
pub open spec fn node_in(zone: Seq<char>, uuid: Seq<char>) -> NodeView {
    let parts = split(zone, '/');
    NodeView {
        id: "projects/"@ + parts[1] + "/networks/default/nodes/"@ + uuid,
        cluster: seq![],
        metadata: Some(node_metadata(parts[1])),
        locality: Some((before_last(parts[3], '-'), parts[3])),
    }
}

/// What building a node comes to.
pub open spec fn is_node_of(r: Result<Node, XdsError>, zone: Option<String>, uuid: Seq<char>) -> bool {
    match zone {
        None => r matches Err(XdsError::Metadata(e)) && e@ == "failed to get instance zone"@,
        Some(zone) => if split(zone@, '/').len() >= 4 {
            r matches Ok(node) && node@ == node_in(zone@, uuid)
        } else {
            r matches Err(XdsError::Metadata(e)) && e@ == "unexpected zone format: "@ + zone@
        },
    }
}

/// Builds the node of the instance in the given zone, `None` where the
/// metadata server did not tell it, with a UUID made of the given random bytes.
pub fn build_node(zone: Option<String>, random: [u8; 16]) -> (r: Result<Node, XdsError>)
    ensures
        is_node_of(r, zone, uuid_text(uuid_bytes(random@))),
        r is Ok <==> zone is Some && split(zone->0@, '/').len() >= 4,
        r matches Ok(node) ==> {
            let parts = split(zone->0@, '/');
            &&& node.id@ == "projects/"@ + parts[1] + "/networks/default/nodes/"@ + uuid_text(
                uuid_bytes(random@),
            )
            &&& node.cluster@.len() == 0
            &&& node.metadata is Some
            &&& node.metadata->0@.len() == 2
            &&& node.metadata->0@[0].key@ == "TRAFFICDIRECTOR_GCP_PROJECT_NUMBER"@
            &&& node.metadata->0@[0].value@ == parts[1]
            &&& node.metadata->0@[1].key@ == "TRAFFICDIRECTOR_NETWORK_NAME"@
            &&& node.metadata->0@[1].value@ == "default"@
            &&& node.locality is Some
            &&& node.locality->0.zone@ == parts[3]
            &&& node.locality->0.region@ == before_last(parts[3], '-')
        },
        r matches Err(e) ==> (e matches XdsError::Metadata(text) && text@ == match zone {
            None => "failed to get instance zone"@,
            Some(zone) => "unexpected zone format: "@ + zone@,
        }),
{
    let zone = match zone {
        Some(zone) => zone,
        None => return Err(XdsError::Metadata("failed to get instance zone".to_owned())),
    };
    let parts = split_text(zone.as_str(), '/');
    assert(texts(parts@).len() == parts@.len());
    if parts.len() < 4 {
        return Err(XdsError::Metadata("unexpected zone format: ".to_owned().concat(zone.as_str())));
    }
    assert(texts(parts@)[1] == parts@[1]@);
    assert(texts(parts@)[3] == parts@[3]@);
    let project_number = parts[1].clone();
    let zone_name = parts[3].clone();
    let region = text_before_last(zone_name.as_str(), '-');

    let mut id = "projects/".to_owned();
    id.append(project_number.as_str());
    id.append("/networks/default/nodes/");
    id.append(format_uuid_v4(random).as_str());

    let mut fields: Vec<MetadataField> = Vec::new();
    fields.push(
        MetadataField {
            key: "TRAFFICDIRECTOR_GCP_PROJECT_NUMBER".to_owned(),
            value: project_number,
        },
    );
    fields.push(
        MetadataField {
            key: "TRAFFICDIRECTOR_NETWORK_NAME".to_owned(),
            value: "default".to_owned(),
        },
    );
    assert(fields_view(fields@) =~= node_metadata(project_number@));
    Ok(
        Node {
            id,
            cluster: String::new(),
            metadata: Some(fields),
            locality: Some(Locality { region, zone: zone_name }),
        },
    )
}

/// Builds the node of the instance in the given zone, `None` where the
/// metadata server did not tell it, with a random UUID.
pub fn build_node_from_metadata(zone: Option<String>) -> (r: Result<Node, XdsError>)
    ensures
        exists|random: [u8; 16]|
            is_node_of(r, zone, #[trigger] uuid_text(uuid_bytes(random@))),
{
    let random = random_bytes();
    build_node(zone, random)
}

/// What building a node comes to, for every zone: an error where there is none
/// or where it has fewer than four parts, and otherwise the node of the project
/// in the second part, in the zone in the fourth.
pub proof fn node_results(r: Result<Node, XdsError>, zone: Option<String>, uuid: Seq<char>)
    ensures
        zone is None ==> (is_node_of(r, zone, uuid) <==> (r matches Err(XdsError::Metadata(e)) && e@
            == "failed to get instance zone"@)),
        zone is Some && split(zone->0@, '/').len() < 4 ==> (is_node_of(r, zone, uuid) <==> (
        r matches Err(XdsError::Metadata(e)) && e@ == "unexpected zone format: "@ + zone->0@)),
        zone is Some && split(zone->0@, '/').len() >= 4 && is_node_of(r, zone, uuid) ==> {
            let parts = split(zone->0@, '/');
            &&& r matches Ok(node)
            &&& node.id@ == "projects/"@ + parts[1] + "/networks/default/nodes/"@ + uuid
            &&& node.cluster@.len() == 0
            &&& node.metadata is Some
            &&& node.metadata->0@.len() == 2
            &&& node.metadata->0@[0].key@ == "TRAFFICDIRECTOR_GCP_PROJECT_NUMBER"@
            &&& node.metadata->0@[0].value@ == parts[1]
            &&& node.metadata->0@[1].key@ == "TRAFFICDIRECTOR_NETWORK_NAME"@
            &&& node.metadata->0@[1].value@ == "default"@
            &&& node.locality is Some
            &&& node.locality->0.zone@ == parts[3]
            &&& node.locality->0.region@ == before_last(parts[3], '-')
        },
{
    if let Ok(node) = r {
        if let Some(fields) = node.metadata {
            let seen = fields_view(fields@);
            if zone is Some && split(zone->0@, '/').len() >= 4 && is_node_of(r, zone, uuid) {
                let expected = node_metadata(split(zone->0@, '/')[1]);
                assert(seen == expected);
                assert(seen[0] == expected[0] && seen[1] == expected[1]);
            }
        }
    }
}

} // verus!
