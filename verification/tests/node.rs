use direct_connectivity::xds::error::XdsError;
use direct_connectivity::xds::node::{
    build_node, build_node_from_metadata, format_uuid_v4, uuid_v4,
};
use direct_connectivity::xds::types::Node;

fn zone(text: &str) -> Option<String> {
    Some(text.to_string())
}

fn locality(node: &Node) -> (String, String) {
    let locality = node.locality.as_ref().unwrap();
    (locality.region.clone(), locality.zone.clone())
}

#[test]
fn random_bytes_become_a_uuid() {
    assert_eq!(
        format_uuid_v4([0; 16]),
        "00000000-0000-4000-8000-000000000000"
    );
    assert_eq!(
        format_uuid_v4([0xff; 16]),
        "ffffffff-ffff-4fff-bfff-ffffffffffff"
    );
    let bytes = [
        0x01, 0x23, 0x45, 0x67, 0x89, 0xab, 0xcd, 0xef, 0x40, 0x0a, 0x0b, 0x0c, 0x0d, 0x0e, 0x0f,
        0x10,
    ];
    assert_eq!(format_uuid_v4(bytes), "01234567-89ab-4def-800a-0b0c0d0e0f10");
}

#[test]
fn uuids_are_random() {
    let first = uuid_v4();
    let second = uuid_v4();
    assert_ne!(first, second);
    for uuid in [first, second] {
        let chars: Vec<char> = uuid.chars().collect();
        assert_eq!(chars.len(), 36);
        assert_eq!(chars[14], '4');
        assert!("89ab".contains(chars[19]));
        for (i, c) in chars.iter().enumerate() {
            if [8, 13, 18, 23].contains(&i) {
                assert_eq!(*c, '-');
            } else {
                assert!(c.is_ascii_digit() || ('a'..='f').contains(c));
            }
        }
    }
}

#[test]
fn a_node_is_built_of_its_zone() {
    let node = build_node(zone("projects/123456/zones/us-central1-f"), [0; 16]).unwrap();
    assert_eq!(
        node.id,
        "projects/123456/networks/default/nodes/00000000-0000-4000-8000-000000000000"
    );
    assert_eq!(node.cluster, "");
    assert_eq!(
        locality(&node),
        ("us-central1".to_string(), "us-central1-f".to_string())
    );
    let fields: Vec<(String, String)> = node
        .metadata
        .unwrap()
        .into_iter()
        .map(|field| (field.key, field.value))
        .collect();
    assert_eq!(
        fields,
        [
            (
                "TRAFFICDIRECTOR_GCP_PROJECT_NUMBER".to_string(),
                "123456".to_string()
            ),
            ("TRAFFICDIRECTOR_NETWORK_NAME".to_string(), "default".to_string()),
        ]
    );
}

#[test]
fn odd_zones_are_taken_apart_too() {
    let node = build_node(zone("a/b/c/nodash/more"), [0; 16]).unwrap();
    assert_eq!(locality(&node), ("nodash".to_string(), "nodash".to_string()));
    let node = build_node(zone("///"), [0; 16]).unwrap();
    assert_eq!(locality(&node), (String::new(), String::new()));
    let node = build_node(zone("a/b/c/-"), [0; 16]).unwrap();
    assert_eq!(locality(&node), (String::new(), "-".to_string()));
}

#[test]
fn a_zone_of_another_form_is_an_error() {
    let error = build_node(zone("projects/1/us-central1-f"), [0; 16]).unwrap_err();
    assert!(matches!(error, XdsError::Metadata(_)));
    assert_eq!(
        error.message(),
        "xDS metadata error: unexpected zone format: projects/1/us-central1-f"
    );
    let error = build_node(None, [0; 16]).unwrap_err();
    assert_eq!(
        error.message(),
        "xDS metadata error: failed to get instance zone"
    );
}

#[test]
fn every_node_has_an_identifier_of_its_own() {
    let a = build_node_from_metadata(zone("projects/1/zones/z-a")).unwrap();
    let b = build_node_from_metadata(zone("projects/1/zones/z-a")).unwrap();
    assert!(a.id.starts_with("projects/1/networks/default/nodes/"));
    assert_ne!(a.id, b.id);
    assert!(build_node_from_metadata(None).is_err());
    let copy = a.clone();
    assert_eq!(copy.id, a.id);
    assert_eq!(copy.metadata.unwrap().len(), 2);
    assert_eq!(copy.locality.unwrap().region, "z");
}
