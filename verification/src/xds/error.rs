//! The errors of discovery.

use vstd::prelude::*;
use vstd::string::StringExecFns;

verus! {

/// The errors of discovery. Those of the network come with their text.
#[derive(Debug)]
pub enum XdsError {
    /// No connection to Traffic Director.
    Transport(String),
    /// No credentials.
    Auth(String),
    /// The call to Traffic Director failed.
    Rpc(String),
    /// A response does not hold what was asked for.
    Decode(String),
    /// The metadata server did not tell where the process runs.
    Metadata(String),
    /// The stream of responses ended.
    StreamEnded,
    /// No response of this type came.
    NoResponse(String),
    /// Requests can no longer be sent.
    ChannelClosed,
}

/// An error of discovery as contracts see it.
#[verifier::ext_equal]
pub enum XdsErrorView {
    /// No connection to Traffic Director.
    Transport(Seq<char>),
    /// No credentials.
    Auth(Seq<char>),
    /// The call to Traffic Director failed.
    Rpc(Seq<char>),
    /// A response does not hold what was asked for.
    Decode(Seq<char>),
    /// The metadata server did not tell where the process runs.
    Metadata(Seq<char>),
    /// The stream of responses ended.
    StreamEnded,
    /// No response of this type came.
    NoResponse(Seq<char>),
    /// Requests can no longer be sent.
    ChannelClosed,
}

impl View for XdsError {
    type V = XdsErrorView;

    open spec fn view(&self) -> XdsErrorView {
        match self {
            XdsError::Transport(e) => XdsErrorView::Transport(e@),
            XdsError::Auth(e) => XdsErrorView::Auth(e@),
            XdsError::Rpc(e) => XdsErrorView::Rpc(e@),
            XdsError::Decode(e) => XdsErrorView::Decode(e@),
            XdsError::Metadata(e) => XdsErrorView::Metadata(e@),
            XdsError::StreamEnded => XdsErrorView::StreamEnded,
            XdsError::NoResponse(t) => XdsErrorView::NoResponse(t@),
            XdsError::ChannelClosed => XdsErrorView::ChannelClosed,
        }
    }
}

impl XdsError {
    /// The text of the error.
    pub open spec fn text(&self) -> Seq<char> {
        match self {
            XdsError::Transport(e) => "xDS transport error: "@ + e@,
            XdsError::Auth(e) => "xDS auth error: "@ + e@,
            XdsError::Rpc(e) => "xDS RPC error: "@ + e@,
            XdsError::Decode(e) => "xDS decode error: "@ + e@,
            XdsError::Metadata(e) => "xDS metadata error: "@ + e@,
            XdsError::StreamEnded => "xDS ADS stream ended unexpectedly"@,
            XdsError::NoResponse(t) => "no xDS response received for "@ + t@,
            XdsError::ChannelClosed => "xDS request channel closed"@,
        }
    }

    /// Returns the text of the error.
    pub fn message(&self) -> (message: String)
        ensures
            message@ == self.text(),
            message@ == match self {
                XdsError::Transport(e) => "xDS transport error: "@ + e@,
                XdsError::Auth(e) => "xDS auth error: "@ + e@,
                XdsError::Rpc(e) => "xDS RPC error: "@ + e@,
                XdsError::Decode(e) => "xDS decode error: "@ + e@,
                XdsError::Metadata(e) => "xDS metadata error: "@ + e@,
                XdsError::StreamEnded => "xDS ADS stream ended unexpectedly"@,
                XdsError::NoResponse(t) => "no xDS response received for "@ + t@,
                XdsError::ChannelClosed => "xDS request channel closed"@,
            },
    {
        match self {
            XdsError::Transport(e) => "xDS transport error: ".to_owned().concat(e.as_str()),
            XdsError::Auth(e) => "xDS auth error: ".to_owned().concat(e.as_str()),
            XdsError::Rpc(e) => "xDS RPC error: ".to_owned().concat(e.as_str()),
            XdsError::Decode(e) => "xDS decode error: ".to_owned().concat(e.as_str()),
            XdsError::Metadata(e) => "xDS metadata error: ".to_owned().concat(e.as_str()),
            XdsError::StreamEnded => "xDS ADS stream ended unexpectedly".to_owned(),
            XdsError::NoResponse(t) => {
                "no xDS response received for ".to_owned().concat(t.as_str())
            },
            XdsError::ChannelClosed => "xDS request channel closed".to_owned(),
        }
    }
}

} // verus!
