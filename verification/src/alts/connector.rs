//! Connections secured by ALTS.

use crate::alts::frame::derive_keys;
use crate::alts::frame::FrameError;
use crate::alts::cipher::KEY_SIZE;
use crate::alts::handshaker::HandshakeError;
use crate::alts::handshaker::HandshakeResult;
use crate::alts::stream::AltsStream;
use crate::alts::stream::StreamState;
use crate::text::append_decimal;
use crate::text::decimal;
use vstd::prelude::*;
use vstd::slice::slice_to_vec;
use vstd::string::StringExecFns;

verus! {

/// The port of an address that names none.
pub const DEFAULT_PORT: u16 = 443;

/// A connector that secures connections using the ALTS handshake protocol.
#[derive(Debug)]
pub struct AltsConnector {
    target_name: String,
}

impl Clone for AltsConnector {
    fn clone(&self) -> (connector: Self)
        ensures
            connector.target() == self.target(),
    {
        AltsConnector { target_name: self.target_name.clone() }
    }
}

/// The errors of connecting. Those of the network come with their text.
#[derive(Debug)]
pub enum AltsConnectError {
    /// The address cannot be connected to.
    InvalidUri(String),
    /// No connection was established.
    TcpConnect(String),
    /// The handshake failed.
    Handshake(HandshakeError),
    /// No keys could be derived.
    KeyDerivation(FrameError),
}

impl AltsConnectError {
    /// The text of the error.
    pub open spec fn text(&self) -> Seq<char> {
        match self {
            AltsConnectError::InvalidUri(msg) => "invalid URI for ALTS connection: "@ + msg@,
            AltsConnectError::TcpConnect(e) => "TCP connection failed: "@ + e@,
            AltsConnectError::Handshake(e) => "ALTS handshake failed: "@ + e.text(),
            AltsConnectError::KeyDerivation(e) => "ALTS key derivation failed: "@ + e.text(),
        }
    }

    /// The text of the error that caused this one, if any.
    pub open spec fn cause(&self) -> Option<Seq<char>> {
        match self {
            AltsConnectError::TcpConnect(e) => Some(e@),
            AltsConnectError::Handshake(e) => Some(e.text()),
            AltsConnectError::KeyDerivation(e) => Some(e.text()),
            _ => None,
        }
    }

    /// Returns the text of the error.
    pub fn message(&self) -> (message: String)
        ensures
            message@ == self.text(),
            message@ == match self {
                AltsConnectError::InvalidUri(msg) => "invalid URI for ALTS connection: "@ + msg@,
                AltsConnectError::TcpConnect(e) => "TCP connection failed: "@ + e@,
                AltsConnectError::Handshake(e) => "ALTS handshake failed: "@ + e.text(),
                AltsConnectError::KeyDerivation(e) => "ALTS key derivation failed: "@ + e.text(),
            },
    {
        match self {
            AltsConnectError::InvalidUri(msg) => {
                "invalid URI for ALTS connection: ".to_owned().concat(msg.as_str())
            },
            AltsConnectError::TcpConnect(e) => {
                "TCP connection failed: ".to_owned().concat(e.as_str())
            },
            AltsConnectError::Handshake(e) => {
                "ALTS handshake failed: ".to_owned().concat(e.message().as_str())
            },
            AltsConnectError::KeyDerivation(e) => {
                "ALTS key derivation failed: ".to_owned().concat(e.message().as_str())
            },
        }
    }

    /// Returns the text of the error that caused this one, if any.
    pub fn source(&self) -> (source: Option<String>)
        ensures
            match source {
                Some(s) => self.cause() == Some(s@),
                None => self.cause() is None,
            },
            (match source {
                Some(s) => Some(s@),
                None => None,
            }) == match self {
                AltsConnectError::TcpConnect(e) => Some(e@),
                AltsConnectError::Handshake(e) => Some(e.text()),
                AltsConnectError::KeyDerivation(e) => Some(e.text()),
                _ => None,
            },
    {
        match self {
            AltsConnectError::TcpConnect(e) => Some(e.clone()),
            AltsConnectError::Handshake(e) => Some(e.message()),
            AltsConnectError::KeyDerivation(e) => Some(e.message()),
            _ => None,
        }
    }
}

impl AltsConnector {
    /// The name of the service that the connector connects to.
    pub closed spec fn target(&self) -> Seq<char> {
        self.target_name@
    }

    /// Creates a connector for the service of the given name.
    pub fn new(target_name: &str) -> (connector: Self)
        ensures
            connector.target() == target_name@,
    {
        AltsConnector { target_name: target_name.to_owned() }
    }

    /// Returns the name of the service that the connector connects to.
    pub fn target_name(&self) -> (name: &str)
        ensures
            name@ == self.target(),
    {
        self.target_name.as_str()
    }

    /// The address to connect to, from the host and port of a URI.
    pub fn address(host: Option<&str>, port: Option<u16>) -> (r: Result<String, AltsConnectError>)
        ensures
            match host {
                Some(host) => r matches Ok(address) && address@ == host@ + ":"@ + decimal(
                    (match port {
                        Some(port) => port,
                        None => 443,
                    }) as nat,
                ),
                None => r matches Err(AltsConnectError::InvalidUri(msg)) && msg@
                    == "missing host in URI"@,
            },
    {
        let host = match host {
            Some(host) => host,
            None => return Err(AltsConnectError::InvalidUri("missing host in URI".to_owned())),
        };
        let port = match port {
            Some(port) => port,
            None => DEFAULT_PORT,
        };
        let mut address = host.to_owned();
        address.append(":");
        append_decimal(&mut address, port as u64);
        Ok(address)
    }

    /// Secures a connection with the key material of a handshake. The bytes that
    /// came in behind the handshake are the first that the stream has received.
    pub fn secure<S>(connection: S, handshake: &HandshakeResult) -> (r: Result<
        AltsStream<S>,
        AltsConnectError,
    >)
        ensures
            r is Ok <==> handshake.key_data@.len() >= 2 * KEY_SIZE,
            r matches Ok(stream) ==> {
                &&& stream.wf()
                &&& stream.connection() == connection
                &&& stream@ == (StreamState {
                    received: handshake.unconsumed_bytes@,
                    ..StreamState::fresh(
                        handshake.key_data@.subrange(0, KEY_SIZE as int),
                        handshake.key_data@.subrange(KEY_SIZE as int, 2 * KEY_SIZE as int),
                    )
                })
            },
            r matches Ok(stream) ==> {
                &&& stream@.encrypt_key == handshake.key_data@.take(16)
                &&& stream@.decrypt_key == handshake.key_data@.subrange(16, 32)
                &&& stream@.write_counter == 0
                &&& stream@.read_counter == 0
                &&& stream@.received == handshake.unconsumed_bytes@
                &&& stream@.unread.len() == 0
                &&& !stream@.refused
            },
            r matches Err(e) ==> e == AltsConnectError::KeyDerivation(
                FrameError::KeyDataTooShort(handshake.key_data@.len() as usize),
            ),
    {
        match derive_keys(handshake.key_data.as_slice()) {
            Ok((client_key, server_key)) => {
                let received = slice_to_vec(handshake.unconsumed_bytes.as_slice());
                Ok(AltsStream::with_received(connection, client_key, server_key, received))
            },
            Err(e) => Err(AltsConnectError::KeyDerivation(e)),
        }
    }
}

} // verus!
