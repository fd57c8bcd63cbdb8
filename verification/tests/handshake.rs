use direct_connectivity::alts::connector::{AltsConnectError, AltsConnector};
use direct_connectivity::alts::frame::FrameError;
use direct_connectivity::alts::handshaker::{
    ClientHandshake, HandshakeError, HandshakeResult, HandshakerResp, HandshakerResult,
    HandshakerStatus, Identity, IdentityOneof, RpcVersion, ServiceEvent,
};

fn response() -> HandshakerResp {
    HandshakerResp {
        out_frames: vec![],
        bytes_consumed: 0,
        result: None,
        status: None,
    }
}

fn result(identity: Option<Identity>) -> HandshakerResult {
    HandshakerResult {
        record_protocol: "ALTSRP_GCM_AES128".to_string(),
        key_data: vec![7; 44],
        peer_identity: identity,
        max_frame_size: 4096,
    }
}

fn finish(handshake: &ClientHandshake, identity: Option<Identity>, consumed: u32) -> HandshakeResult {
    let event = ServiceEvent::Response(HandshakerResp {
        bytes_consumed: consumed,
        result: Some(result(identity)),
        ..response()
    });
    handshake.on_service(event).unwrap().result.unwrap()
}

#[test]
fn the_first_request_offers_what_the_client_speaks() {
    let (_, request) = ClientHandshake::start("storage.googleapis.com");
    assert_eq!(request.handshake_security_protocol, 2);
    assert_eq!(request.application_protocols, ["grpc"]);
    assert_eq!(request.record_protocols, ["ALTSRP_GCM_AES128"]);
    assert_eq!(request.target_name, "storage.googleapis.com");
    assert_eq!(request.max_rpc_version, RpcVersion { major: 2, minor: 1 });
    assert_eq!(request.min_rpc_version, RpcVersion { major: 2, minor: 1 });
    assert_eq!(request.max_frame_size, 1048576);
}

#[test]
fn frames_go_to_the_peer_until_there_is_a_result() {
    let (mut handshake, _) = ClientHandshake::start("t");
    let event = ServiceEvent::Response(HandshakerResp {
        out_frames: vec![1, 2, 3],
        ..response()
    });
    let step = handshake.on_service(event).unwrap();
    assert_eq!(step.out_frames, Some(vec![1, 2, 3]));
    assert!(step.result.is_none());

    assert_eq!(handshake.on_peer(vec![4, 5, 6, 0, 0], 3).unwrap(), [4, 5, 6]);

    let step = handshake.on_service(ServiceEvent::Response(response())).unwrap();
    assert!(step.out_frames.is_none());
    assert!(step.result.is_none());

    assert_eq!(handshake.on_peer(vec![8, 9], 2).unwrap(), [8, 9]);
    let outcome = finish(&handshake, None, 2);
    assert_eq!(outcome.key_data, vec![7; 44]);
    assert_eq!(outcome.record_protocol, "ALTSRP_GCM_AES128");
    assert_eq!(outcome.max_frame_size, 4096);
    assert!(outcome.unconsumed_bytes.is_empty());
}

#[test]
fn last_frames_go_out_with_the_result() {
    let (handshake, _) = ClientHandshake::start("t");
    let event = ServiceEvent::Response(HandshakerResp {
        out_frames: vec![9],
        result: Some(result(None)),
        status: Some(HandshakerStatus { code: 0, details: "fine".to_string() }),
        ..response()
    });
    let step = handshake.on_service(event).unwrap();
    assert_eq!(step.out_frames, Some(vec![9]));
    assert!(step.result.is_some());
}

#[test]
fn bytes_behind_the_handshake_are_given_back() {
    let (mut handshake, _) = ClientHandshake::start("t");
    assert!(finish(&handshake, None, 0).unconsumed_bytes.is_empty());
    handshake.on_peer(vec![1, 2, 3, 4, 5], 4).unwrap();
    assert_eq!(finish(&handshake, None, 0).unconsumed_bytes, [1, 2, 3, 4]);
    assert_eq!(finish(&handshake, None, 3).unconsumed_bytes, [4]);
    assert!(finish(&handshake, None, 4).unconsumed_bytes.is_empty());
    assert!(finish(&handshake, None, 5).unconsumed_bytes.is_empty());
}

#[test]
fn the_peer_is_named_by_account_or_host() {
    let (handshake, _) = ClientHandshake::start("t");
    let account = Identity {
        identity_oneof: Some(IdentityOneof::ServiceAccount("sa@example".to_string())),
    };
    assert_eq!(
        finish(&handshake, Some(account), 0).peer_identity,
        Some("sa@example".to_string())
    );
    let host = Identity {
        identity_oneof: Some(IdentityOneof::Hostname("host".to_string())),
    };
    assert_eq!(
        finish(&handshake, Some(host), 0).peer_identity,
        Some("host".to_string())
    );
    let nobody = Identity { identity_oneof: None };
    assert_eq!(finish(&handshake, Some(nobody), 0).peer_identity, None);
    assert_eq!(finish(&handshake, None, 0).peer_identity, None);
}

#[test]
fn a_handshake_fails_with_its_service_or_peer() {
    let (mut handshake, _) = ClientHandshake::start("t");
    let error = handshake.on_service(ServiceEvent::Ended).unwrap_err();
    assert!(matches!(error, HandshakeError::UnexpectedEnd));
    assert_eq!(error.message(), "ALTS handshake stream ended unexpectedly");
    assert_eq!(error.source(), None);

    let error = handshake.on_service(ServiceEvent::Failed("gone".to_string())).unwrap_err();
    assert!(matches!(error, HandshakeError::Rpc(_)));
    assert_eq!(error.message(), "ALTS handshaker RPC error: gone");
    assert_eq!(error.source(), Some("gone".to_string()));

    let event = ServiceEvent::Response(HandshakerResp {
        out_frames: vec![1],
        result: Some(result(None)),
        status: Some(HandshakerStatus { code: 16, details: "no".to_string() }),
        ..response()
    });
    let error = handshake.on_service(event).unwrap_err();
    assert!(matches!(error, HandshakeError::HandshakerError(16, _)));
    assert_eq!(error.message(), "ALTS handshaker error (code=16): no");

    let error = handshake.on_peer(vec![0; 8], 0).unwrap_err();
    assert!(matches!(error, HandshakeError::UnexpectedEnd));
}

#[test]
fn handshake_errors_have_texts() {
    let error = HandshakeError::ConnectHandshaker("refused".to_string());
    assert_eq!(
        error.message(),
        "failed to connect to ALTS handshaker service: refused"
    );
    assert_eq!(error.source(), Some("refused".to_string()));
    let error = HandshakeError::Io("broken".to_string());
    assert_eq!(error.message(), "ALTS handshake I/O error: broken");
    assert_eq!(error.source(), Some("broken".to_string()));
    let error = HandshakeError::ChannelClosed;
    assert_eq!(error.message(), "ALTS handshaker channel closed unexpectedly");
    assert_eq!(error.source(), None);
}

#[test]
fn addresses_have_a_host_and_a_port() {
    assert_eq!(
        AltsConnector::address(Some("10.0.0.1"), Some(8080)).unwrap(),
        "10.0.0.1:8080"
    );
    assert_eq!(AltsConnector::address(Some("h"), None).unwrap(), "h:443");
    let error = AltsConnector::address(None, Some(1)).unwrap_err();
    assert_eq!(
        error.message(),
        "invalid URI for ALTS connection: missing host in URI"
    );
    assert_eq!(error.source(), None);
}

#[test]
fn a_connector_knows_its_target() {
    let connector = AltsConnector::new("svc");
    assert_eq!(connector.target_name(), "svc");
    assert_eq!(connector.clone().target_name(), "svc");
}

#[test]
fn key_material_secures_a_connection() {
    let (handshake, _) = ClientHandshake::start("t");
    let mut outcome = finish(&handshake, None, 0);
    outcome.key_data = (0..32).collect();
    let mut stream = AltsConnector::secure(5u8, &outcome).unwrap();
    assert_eq!(*stream.inner_mut(), 5);
    let frame = stream.start_write(b"hi").unwrap();
    let client_key: Vec<u8> = (0..16).collect();
    let sealed = direct_connectivity::alts::frame::encrypt_frame(&client_key, 0, b"hi").unwrap();
    assert_eq!(frame.bytes[4..], sealed[..]);

    outcome.key_data.truncate(31);
    let error = AltsConnector::secure(5u8, &outcome).err().unwrap();
    assert!(matches!(
        error,
        AltsConnectError::KeyDerivation(FrameError::KeyDataTooShort(31))
    ));
    assert_eq!(
        error.message(),
        "ALTS key derivation failed: ALTS key data too short: 31 bytes, need at least 32"
    );
    assert_eq!(
        error.source(),
        Some("ALTS key data too short: 31 bytes, need at least 32".to_string())
    );
}

#[test]
fn connect_errors_have_texts() {
    let error = AltsConnectError::TcpConnect("refused".to_string());
    assert_eq!(error.message(), "TCP connection failed: refused");
    assert_eq!(error.source(), Some("refused".to_string()));
    let error = AltsConnectError::Handshake(HandshakeError::UnexpectedEnd);
    assert_eq!(
        error.message(),
        "ALTS handshake failed: ALTS handshake stream ended unexpectedly"
    );
    assert_eq!(
        error.source(),
        Some("ALTS handshake stream ended unexpectedly".to_string())
    );
}

#[test]
fn bytes_behind_the_handshake_reach_the_stream() {
    let key_data: Vec<u8> = (0..32).collect();
    let mut bytes = vec![18, 0, 0, 0];
    bytes.extend(
        direct_connectivity::alts::frame::encrypt_frame(&key_data[16..], 0, b"hi").unwrap(),
    );
    let mut in_bytes = vec![1, 2, 3];
    in_bytes.extend(&bytes);
    let n = in_bytes.len();

    let (mut handshake, _) = ClientHandshake::start("t");
    handshake.on_peer(in_bytes, n).unwrap();
    let mut outcome = finish(&handshake, None, 3);
    assert_eq!(outcome.unconsumed_bytes, bytes);
    outcome.key_data = key_data;
    let mut stream = AltsConnector::secure(5u8, &outcome).unwrap();
    assert!(stream.read_buffered(16).is_none());
    assert_eq!(stream.read_held(16).unwrap().unwrap(), b"hi");
}

#[test]
fn a_whole_handshake_passes_bytes_between_peer_and_service() {
    let mut responses = vec![
        HandshakerResp { out_frames: vec![1, 2], ..response() },
        response(),
        HandshakerResp { out_frames: vec![3], result: Some(result(None)), bytes_consumed: 1, ..response() },
        HandshakerResp { out_frames: vec![9, 9], ..response() },
    ]
    .into_iter();
    let mut chunks = vec![vec![10, 11], vec![12, 13], vec![99]].into_iter();

    let (mut handshake, _) = ClientHandshake::start("t");
    let mut written = Vec::new();
    let mut handed = Vec::new();
    let outcome = loop {
        let event = ServiceEvent::Response(responses.next().unwrap());
        let step = handshake.on_service(event).unwrap();
        written.extend(step.out_frames.unwrap_or_default());
        if let Some(outcome) = step.result {
            break outcome;
        }
        let chunk = chunks.next().unwrap();
        let n = chunk.len();
        handed.push(handshake.on_peer(chunk, n).unwrap());
    };
    assert_eq!(written, [1, 2, 3]);
    assert_eq!(handed, [vec![10, 11], vec![12, 13]]);
    assert_eq!(outcome.unconsumed_bytes, [13]);
    assert_eq!(outcome.key_data, vec![7; 44]);
}
