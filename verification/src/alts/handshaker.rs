//! The client side of an ALTS handshake, run by a local handshaker service.
//!
//! The handshake passes bytes between the peer and the service until the
//! service reports a result. [`ClientHandshake`] decides each step; reading,
//! writing and the calls to the service are the caller's.

use crate::text::append_decimal;
use crate::text::decimal;
use crate::text::texts;
use vstd::prelude::*;
use vstd::slice::slice_subrange;
use vstd::slice::slice_to_vec;
use vstd::string::StringExecFns;

verus! {

/// Address of the handshaker service.
pub const DEFAULT_HANDSHAKER_ADDR: &'static str = "http://metadata.google.internal:8080";

/// The record protocol that the client offers.
pub const ALTS_RECORD_PROTOCOL: &'static str = "ALTSRP_GCM_AES128";

/// The application protocol that the client offers.
pub const ALTS_APPLICATION_PROTOCOL: &'static str = "grpc";

/// The number of the ALTS handshake protocol.
pub const HANDSHAKE_PROTOCOL_ALTS: i32 = 2;

/// Major version of the RPC protocol that the client speaks.
pub const RPC_VERSION_MAJOR: u32 = 2;

/// Minor version of the RPC protocol that the client speaks.
pub const RPC_VERSION_MINOR: u32 = 1;

/// The largest frame that the client offers to receive (1 MiB).
pub const OFFERED_FRAME_SIZE: u32 = 1024 * 1024;

/// The most that is read from the peer at a time, in bytes.
pub const PEER_READ_SIZE: usize = 64 * 1024;

/// A version of the RPC protocol.
#[derive(Clone, Copy, Debug, PartialEq, Eq, Structural)]
pub struct RpcVersion {
    /// Major version.
    pub major: u32,
    /// Minor version.
    pub minor: u32,
}

/// The request that starts a client handshake.
#[derive(Debug)]
pub struct StartClientHandshakeReq {
    /// Number of the handshake protocol.
    pub handshake_security_protocol: i32,
    /// Application protocols that the client offers.
    pub application_protocols: Vec<String>,
    /// Record protocols that the client offers.
    pub record_protocols: Vec<String>,
    /// The name of the service to connect to.
    pub target_name: String,
    /// Newest version of the RPC protocol that the client speaks.
    pub max_rpc_version: RpcVersion,
    /// Oldest version of the RPC protocol that the client speaks.
    pub min_rpc_version: RpcVersion,
    /// Largest frame that the client can receive.
    pub max_frame_size: u32,
}

/// Status that the handshaker service reports.
#[derive(Debug)]
pub struct HandshakerStatus {
    /// Zero where all is well.
    pub code: u32,
    /// Details of an error.
    pub details: String,
}

/// What an identity names.
#[derive(Debug)]
pub enum IdentityOneof {
    /// A service account.
    ServiceAccount(String),
    /// A host name.
    Hostname(String),
}

/// Who a peer is, as far as it is known.
#[derive(Debug)]
pub struct Identity {
    /// What the identity names.
    pub identity_oneof: Option<IdentityOneof>,
}

/// Result that the handshaker service reports once the handshake is complete.
#[derive(Debug)]
pub struct HandshakerResult {
    /// The negotiated record protocol.
    pub record_protocol: String,
    /// Key material.
    pub key_data: Vec<u8>,
    /// The authenticated identity of the peer.
    pub peer_identity: Option<Identity>,
    /// Largest frame of the record protocol.
    pub max_frame_size: u32,
}

/// A response of the handshaker service.
#[derive(Debug)]
pub struct HandshakerResp {
    /// Bytes for the peer.
    pub out_frames: Vec<u8>,
    /// How many of the bytes handed over last belong to the handshake.
    pub bytes_consumed: u32,
    /// Set once the handshake is complete.
    pub result: Option<HandshakerResult>,
    /// Status of the handshake.
    pub status: Option<HandshakerStatus>,
}

/// Result of a successful ALTS handshake.
#[derive(Debug)]
pub struct HandshakeResult {
    /// Key material for the ALTS record protocol.
    pub key_data: Vec<u8>,
    /// The negotiated record protocol (e.g., "ALTSRP_GCM_AES128").
    pub record_protocol: String,
    /// The peer's authenticated identity (service account).
    pub peer_identity: Option<String>,
    /// Maximum frame size for the ALTS record protocol.
    pub max_frame_size: u32,
    /// Any unconsumed bytes from the handshake that are actually
    /// application data.
    pub unconsumed_bytes: Vec<u8>,
}

/// The errors of a handshake. Those of the network come with their text.
#[derive(Debug)]
pub enum HandshakeError {
    /// Failed to connect to the local handshaker service.
    ConnectHandshaker(String),
    /// gRPC error from the handshaker service.
    Rpc(String),
    /// I/O error on the transport connection.
    Io(String),
    /// The handshaker service returned an error status.
    HandshakerError(u32, String),
    /// The handshaker stream or transport connection ended unexpectedly.
    UnexpectedEnd,
    /// Internal channel was closed unexpectedly.
    ChannelClosed,
}

impl HandshakeError {
    /// The text of the error.
    pub open spec fn text(&self) -> Seq<char> {
        match self {
            HandshakeError::ConnectHandshaker(e) =>
                "failed to connect to ALTS handshaker service: "@ + e@,
            HandshakeError::Rpc(s) => "ALTS handshaker RPC error: "@ + s@,
            HandshakeError::Io(e) => "ALTS handshake I/O error: "@ + e@,
            HandshakeError::HandshakerError(code, details) => "ALTS handshaker error (code="@
                + decimal(*code as nat) + "): "@ + details@,
            HandshakeError::UnexpectedEnd => "ALTS handshake stream ended unexpectedly"@,
            HandshakeError::ChannelClosed => "ALTS handshaker channel closed unexpectedly"@,
        }
    }

    /// The text of the error that caused this one, if any.
    pub open spec fn cause(&self) -> Option<Seq<char>> {
        match self {
            HandshakeError::ConnectHandshaker(e) => Some(e@),
            HandshakeError::Rpc(s) => Some(s@),
            HandshakeError::Io(e) => Some(e@),
            _ => None,
        }
    }

    /// Returns the text of the error.
    pub fn message(&self) -> (message: String)
        ensures
            message@ == self.text(),
            message@ == match self {
                HandshakeError::ConnectHandshaker(e) =>
                    "failed to connect to ALTS handshaker service: "@ + e@,
                HandshakeError::Rpc(s) => "ALTS handshaker RPC error: "@ + s@,
                HandshakeError::Io(e) => "ALTS handshake I/O error: "@ + e@,
                HandshakeError::HandshakerError(code, details) => "ALTS handshaker error (code="@
                    + decimal(*code as nat) + "): "@ + details@,
                HandshakeError::UnexpectedEnd => "ALTS handshake stream ended unexpectedly"@,
                HandshakeError::ChannelClosed => "ALTS handshaker channel closed unexpectedly"@,
            },
    {
        match self {
            HandshakeError::ConnectHandshaker(e) => {
                "failed to connect to ALTS handshaker service: ".to_owned().concat(e.as_str())
            },
            HandshakeError::Rpc(s) => "ALTS handshaker RPC error: ".to_owned().concat(s.as_str()),
            HandshakeError::Io(e) => "ALTS handshake I/O error: ".to_owned().concat(e.as_str()),
            HandshakeError::HandshakerError(code, details) => {
                let mut message = "ALTS handshaker error (code=".to_owned();
                append_decimal(&mut message, *code as u64);
                message.append("): ");
                message.append(details.as_str());
                message
            },
            HandshakeError::UnexpectedEnd => "ALTS handshake stream ended unexpectedly".to_owned(),
            HandshakeError::ChannelClosed => {
                "ALTS handshaker channel closed unexpectedly".to_owned()
            },
        }
    }

    /// Returns the text of the error that caused this one, if any.
    pub fn source(&self) -> (source: Option<String>)
        ensures
            match source {
                Some(s) => self.cause() == Some(s@),
                None => self.cause() is None,
            },
            (match source {
                Some(s) => Some(s@),
                None => None,
            }) == match self {
                HandshakeError::ConnectHandshaker(e) => Some(e@),
                HandshakeError::Rpc(s) => Some(s@),
                HandshakeError::Io(e) => Some(e@),
                _ => None,
            },
    {
        match self {
            HandshakeError::ConnectHandshaker(e) => Some(e.clone()),
            HandshakeError::Rpc(s) => Some(s.clone()),
            HandshakeError::Io(e) => Some(e.clone()),
            _ => None,
        }
    }
}

/// What came from the handshaker service.
#[derive(Debug)]
pub enum ServiceEvent {
    /// A response.
    Response(HandshakerResp),
    /// The stream of responses ended.
    Ended,
    /// The call failed, with this text.
    Failed(String),
}

/// What to do next.
#[derive(Debug)]
pub struct HandshakeStep {
    /// Bytes to write and flush to the peer first, if any.
    pub out_frames: Option<Vec<u8>>,
    /// The result where the handshake is complete. Where it is not, read from
    /// the peer.
    pub result: Option<HandshakeResult>,
}

/// A client handshake in progress.
#[derive(Debug)]
pub struct ClientHandshake {
    /// The bytes of the peer that were handed to the service last.
    in_bytes: Vec<u8>,
}

impl View for ClientHandshake {
    type V = Seq<u8>;

    /// The bytes of the peer that were handed to the service last.
    closed spec fn view(&self) -> Seq<u8> {
        self.in_bytes@
    }
}

/// The name of a peer, where its identity is there and carries one.
pub open spec fn peer_name(identity: Option<Identity>) -> Option<Seq<char>> {
    match identity {
        Some(Identity { identity_oneof: Some(IdentityOneof::ServiceAccount(name)) }) => Some(name@),
        Some(Identity { identity_oneof: Some(IdentityOneof::Hostname(name)) }) => Some(name@),
        _ => None,
    }
}

/// The part of `bytes` behind the first `consumed`.
pub open spec fn unconsumed(bytes: Seq<u8>, consumed: nat) -> Seq<u8> {
    if consumed < bytes.len() {
        bytes.skip(consumed as int)
    } else {
        seq![]
    }
}

/// The bytes handed over last are those that belong to the handshake, followed
/// by the unconsumed ones.
pub proof fn unconsumed_completes(bytes: Seq<u8>, consumed: nat)
    requires
        consumed <= bytes.len(),
    ensures
        bytes.take(consumed as int) + unconsumed(bytes, consumed) == bytes,
{
    assert(bytes.take(consumed as int) + unconsumed(bytes, consumed) =~= bytes);
}

/// The response reports an error.
pub open spec fn reports_error(resp: HandshakerResp) -> bool {
    resp.status matches Some(status) && status.code != 0
}

/// The outcome of a handshake as contracts see it.
#[verifier::ext_equal]
pub struct OutcomeView {
    /// Key material for the record protocol.
    pub key_data: Seq<u8>,
    /// The negotiated record protocol.
    pub record_protocol: Seq<char>,
    /// The name of the peer.
    pub peer_identity: Option<Seq<char>>,
    /// Largest frame of the record protocol.
    pub max_frame_size: u32,
    /// Bytes that came in behind the handshake.
    pub unconsumed_bytes: Seq<u8>,
}

impl View for HandshakeResult {
    type V = OutcomeView;

    open spec fn view(&self) -> OutcomeView {
        OutcomeView {
            key_data: self.key_data@,
            record_protocol: self.record_protocol@,
            peer_identity: match self.peer_identity {
                Some(name) => Some(name@),
                None => None,
            },
            max_frame_size: self.max_frame_size,
            unconsumed_bytes: self.unconsumed_bytes@,
        }
    }
}

/// What to do next in a handshake, as contracts see it.
#[verifier::ext_equal]
pub struct HandshakeStepView {
    /// Bytes to write and flush to the peer first, if any.
    pub out_frames: Option<Seq<u8>>,
    /// The result where the handshake is complete.
    pub result: Option<OutcomeView>,
}

impl View for HandshakeStep {
    type V = HandshakeStepView;

    open spec fn view(&self) -> HandshakeStepView {
        HandshakeStepView {
            out_frames: match self.out_frames {
                Some(frames) => Some(frames@),
                None => None,
            },
            result: match self.result {
                Some(result) => Some(result@),
                None => None,
            },
        }
    }
}

/// The outcome of a handshake, from the result in a response and the bytes
/// handed over last.
pub open spec fn outcome_of(
    result: HandshakerResult,
    in_bytes: Seq<u8>,
    bytes_consumed: nat,
) -> OutcomeView {
    OutcomeView {
        key_data: result.key_data@,
        record_protocol: result.record_protocol@,
        peer_identity: peer_name(result.peer_identity),
        max_frame_size: result.max_frame_size,
        unconsumed_bytes: unconsumed(in_bytes, bytes_consumed),
    }
}

/// What to do next, from what came from the service and the bytes handed to it
/// last.
pub open spec fn service_step(in_bytes: Seq<u8>, event: ServiceEvent) -> Result<
    HandshakeStepView,
    HandshakeError,
> {
    match event {
        ServiceEvent::Failed(text) => Err(HandshakeError::Rpc(text)),
        ServiceEvent::Ended => Err(HandshakeError::UnexpectedEnd),
        ServiceEvent::Response(resp) => if reports_error(resp) {
            Err(HandshakeError::HandshakerError(resp.status->0.code, resp.status->0.details))
        } else {
            Ok(
                HandshakeStepView {
                    out_frames: if resp.out_frames@.len() > 0 {
                        Some(resp.out_frames@)
                    } else {
                        None
                    },
                    result: match resp.result {
                        Some(result) => Some(
                            outcome_of(result, in_bytes, resp.bytes_consumed as nat),
                        ),
                        None => None,
                    },
                },
            )
        },
    }
}

/// The bytes to hand to the service, from what was read from the peer.
pub open spec fn peer_step(chunk: Seq<u8>) -> Result<Seq<u8>, HandshakeError> {
    if chunk.len() == 0 {
        Err(HandshakeError::UnexpectedEnd)
    } else {
        Ok(chunk)
    }
}

impl ClientHandshake {
    /// Starts a handshake with the service of the given name: gives the request
    /// to send first.
    pub fn start(target_name: &str) -> (r: (ClientHandshake, StartClientHandshakeReq))
        ensures
            r.0@ == Seq::<u8>::empty(),
            r.1.handshake_security_protocol == HANDSHAKE_PROTOCOL_ALTS,
            r.1.handshake_security_protocol == 2,
            r.1.application_protocols@.len() == 1 && r.1.application_protocols@[0]@ == "grpc"@,
            r.1.record_protocols@.len() == 1 && r.1.record_protocols@[0]@ == "ALTSRP_GCM_AES128"@,
            r.1.max_rpc_version.major == 2 && r.1.max_rpc_version.minor == 1,
            r.1.max_frame_size == 1_048_576,
            texts(r.1.application_protocols@) == seq![ALTS_APPLICATION_PROTOCOL@],
            texts(r.1.record_protocols@) == seq![ALTS_RECORD_PROTOCOL@],
            r.1.target_name@ == target_name@,
            r.1.max_rpc_version == (RpcVersion {
                major: RPC_VERSION_MAJOR,
                minor: RPC_VERSION_MINOR,
            }),
            r.1.min_rpc_version == r.1.max_rpc_version,
            r.1.max_frame_size == OFFERED_FRAME_SIZE,
    {
        let mut application_protocols: Vec<String> = Vec::new();
        application_protocols.push(ALTS_APPLICATION_PROTOCOL.to_owned());
        let mut record_protocols: Vec<String> = Vec::new();
        record_protocols.push(ALTS_RECORD_PROTOCOL.to_owned());
        assert(texts(application_protocols@) =~= seq![ALTS_APPLICATION_PROTOCOL@]);
        assert(texts(record_protocols@) =~= seq![ALTS_RECORD_PROTOCOL@]);
        let version = RpcVersion { major: RPC_VERSION_MAJOR, minor: RPC_VERSION_MINOR };
        (
            ClientHandshake { in_bytes: Vec::new() },
            StartClientHandshakeReq {
                handshake_security_protocol: HANDSHAKE_PROTOCOL_ALTS,
                application_protocols,
                record_protocols,
                target_name: target_name.to_owned(),
                max_rpc_version: version,
                min_rpc_version: version,
                max_frame_size: OFFERED_FRAME_SIZE,
            },
        )
    }

    /// Decides on what came from the handshaker service.
    pub fn on_service(&self, event: ServiceEvent) -> (r: Result<HandshakeStep, HandshakeError>)
        ensures
            match r {
                Ok(step) => service_step(self@, event) == Ok::<_, HandshakeError>(step@),
                Err(e) => service_step(self@, event) == Err::<HandshakeStepView, _>(e),
            },
            event matches ServiceEvent::Failed(text) ==> r == Err::<HandshakeStep, _>(
                HandshakeError::Rpc(text),
            ),
            event is Ended ==> r == Err::<HandshakeStep, _>(HandshakeError::UnexpectedEnd),
            event matches ServiceEvent::Response(resp) ==> {
                if resp.status is Some && resp.status->0.code != 0 {
                    r == Err::<HandshakeStep, _>(
                        HandshakeError::HandshakerError(
                            resp.status->0.code,
                            resp.status->0.details,
                        ),
                    )
                } else {
                    &&& r matches Ok(step)
                    &&& step.out_frames is Some <==> resp.out_frames@.len() > 0
                    &&& step.out_frames matches Some(frames) ==> frames@ == resp.out_frames@
                    &&& step.result is Some <==> resp.result is Some
                    &&& step.result matches Some(outcome) ==> {
                        let result = resp.result->0;
                        &&& outcome.key_data@ == result.key_data@
                        &&& outcome.record_protocol@ == result.record_protocol@
                        &&& outcome.max_frame_size == result.max_frame_size
                        &&& resp.bytes_consumed <= self@.len() ==> outcome.unconsumed_bytes@
                            == self@.skip(resp.bytes_consumed as int)
                        &&& resp.bytes_consumed > self@.len() ==> outcome.unconsumed_bytes@.len()
                            == 0
                        &&& match outcome.peer_identity {
                            Some(name) => result.peer_identity is Some && match
                                result.peer_identity->0.identity_oneof {
                                Some(IdentityOneof::ServiceAccount(account)) => name@ == account@,
                                Some(IdentityOneof::Hostname(host)) => name@ == host@,
                                None => false,
                            },
                            None => result.peer_identity is None
                                || result.peer_identity->0.identity_oneof is None,
                        }
                    }
                }
            },
    {
        let resp = match event {
            ServiceEvent::Failed(text) => return Err(HandshakeError::Rpc(text)),
            ServiceEvent::Ended => return Err(HandshakeError::UnexpectedEnd),
            ServiceEvent::Response(resp) => resp,
        };
        if let Some(status) = resp.status {
            if status.code != 0 {
                return Err(HandshakeError::HandshakerError(status.code, status.details));
            }
        }
        let out_frames = if resp.out_frames.is_empty() {
            None
        } else {
            Some(resp.out_frames)
        };
        let result = match resp.result {
            Some(result) => {
                let peer_identity = match result.peer_identity {
                    Some(identity) => match identity.identity_oneof {
                        Some(IdentityOneof::ServiceAccount(name)) => Some(name),
                        Some(IdentityOneof::Hostname(name)) => Some(name),
                        None => None,
                    },
                    None => None,
                };
                assert(resp.bytes_consumed <= self@.len() ==> unconsumed(
                    self@,
                    resp.bytes_consumed as nat,
                ) =~= self@.skip(resp.bytes_consumed as int));
                let consumed = resp.bytes_consumed as usize;
                let unconsumed_bytes = if consumed < self.in_bytes.len() {
                    slice_to_vec(
                        slice_subrange(self.in_bytes.as_slice(), consumed, self.in_bytes.len()),
                    )
                } else {
                    Vec::new()
                };
                Some(
                    HandshakeResult {
                        key_data: result.key_data,
                        record_protocol: result.record_protocol,
                        peer_identity,
                        max_frame_size: result.max_frame_size,
                        unconsumed_bytes,
                    },
                )
            },
            None => None,
        };
        Ok(HandshakeStep { out_frames, result })
    }

    /// Decides on `n` bytes read from the peer into `buf`: gives the bytes to
    /// hand to the handshaker service.
    pub fn on_peer(&mut self, buf: Vec<u8>, n: usize) -> (r: Result<Vec<u8>, HandshakeError>)
        requires
            n <= buf@.len(),
        ensures
            match r {
                Ok(in_bytes) => {
                    &&& peer_step(buf@.take(n as int)) == Ok::<_, HandshakeError>(in_bytes@)
                    &&& final(self)@ == in_bytes@
                },
                Err(e) => {
                    &&& peer_step(buf@.take(n as int)) == Err::<Seq<u8>, _>(e)
                    &&& final(self)@ == old(self)@
                },
            },
            r is Ok <==> n > 0,
            r matches Ok(in_bytes) ==> in_bytes@ == buf@.take(n as int) && final(self)@ == buf@.take(
                n as int,
            ),
            r matches Err(e) ==> e is UnexpectedEnd,
    {
        if n == 0 {
            return Err(HandshakeError::UnexpectedEnd);
        }
        let mut in_bytes = buf;
        in_bytes.truncate(n);
        self.in_bytes = slice_to_vec(in_bytes.as_slice());
        Ok(in_bytes)
    }
}

/// Where the handshaker service is, what is offered to it, and how much is read
/// from the peer at a time.
pub proof fn handshake_constants()
    ensures
        DEFAULT_HANDSHAKER_ADDR@ == "http://metadata.google.internal:8080"@,
        ALTS_RECORD_PROTOCOL@ == "ALTSRP_GCM_AES128"@,
        ALTS_APPLICATION_PROTOCOL@ == "grpc"@,
        HANDSHAKE_PROTOCOL_ALTS == 2,
        RPC_VERSION_MAJOR == 2,
        RPC_VERSION_MINOR == 1,
        OFFERED_FRAME_SIZE == 1_048_576,
        PEER_READ_SIZE == 65_536,
{
}

} // verus!
