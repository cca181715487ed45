//! What can go wrong.

use vstd::prelude::*;

verus! {

/// Why an operation of the bridge failed.
#[derive(Debug)]
pub enum BridgeError<S = String> {
    /// No connection has spoken for the sender.
    NoConnection,
    /// The connection of a sender took no more, and was dropped.
    ConnectionClosed { sender_id: S },
    /// The connection that last spoke for the sender is gone.
    ConnectionNotFound { conn_id: S },
    /// Listening on the host would expose the port to the network.
    PublicBind { host: S },
    /// The stream ended before the handshake was over.
    ClosedBeforeAuth,
    /// The socket failed before the handshake was over.
    ReadDuringAuth,
    /// The client closed the connection before the handshake was over.
    ClientClosedDuringAuth,
    /// The client sent something that is no frame before the handshake was over.
    InvalidJsonDuringAuth,
    /// The client sent another frame than the handshake first.
    NotAuthenticated,
    /// The handshake took too long.
    AuthTimeout,
    /// The token was wrong.
    AuthFailed { conn_id: S },
    /// The socket failed while a reply of the handshake was being written.
    WriteDuringAuth,
}

impl View for BridgeError<String> {
    type V = BridgeError<Seq<char>>;

    open spec fn view(&self) -> BridgeError<Seq<char>> {
        match *self {
            BridgeError::NoConnection => BridgeError::NoConnection,
            BridgeError::ConnectionClosed { sender_id } => BridgeError::ConnectionClosed {
                sender_id: sender_id@,
            },
            BridgeError::ConnectionNotFound { conn_id } => BridgeError::ConnectionNotFound {
                conn_id: conn_id@,
            },
            BridgeError::PublicBind { host } => BridgeError::PublicBind { host: host@ },
            BridgeError::ClosedBeforeAuth => BridgeError::ClosedBeforeAuth,
            BridgeError::ReadDuringAuth => BridgeError::ReadDuringAuth,
            BridgeError::ClientClosedDuringAuth => BridgeError::ClientClosedDuringAuth,
            BridgeError::InvalidJsonDuringAuth => BridgeError::InvalidJsonDuringAuth,
            BridgeError::NotAuthenticated => BridgeError::NotAuthenticated,
            BridgeError::AuthTimeout => BridgeError::AuthTimeout,
            BridgeError::AuthFailed { conn_id } => BridgeError::AuthFailed { conn_id: conn_id@ },
            BridgeError::WriteDuringAuth => BridgeError::WriteDuringAuth,
        }
    }
}

impl BridgeError<Seq<char>> {
    /// The error in words.
    pub open spec fn words(self) -> Seq<char> {
        match self {
            BridgeError::NoConnection => "No connection for sender"@,
            BridgeError::ConnectionClosed { sender_id } => {
                "Bridge connection closed for sender "@ + sender_id
            },
            BridgeError::ConnectionNotFound { conn_id } => {
                "Bridge connection "@ + conn_id + " not found"@
            },
            BridgeError::PublicBind { host } => {
                "Bridge: refusing to bind to "@ + host
                    + " — would be exposed to the network.\nFix: use host = \"127.0.0.1\" (default) or set allow_public_bind = true in [channels.bridge] (NOT recommended)."@
            },
            BridgeError::ClosedBeforeAuth => "Bridge: connection closed before auth"@,
            BridgeError::ReadDuringAuth => "Bridge: WS read error during auth"@,
            BridgeError::ClientClosedDuringAuth => "Bridge: client closed during auth"@,
            BridgeError::InvalidJsonDuringAuth => "Bridge: invalid JSON during auth"@,
            BridgeError::NotAuthenticated => {
                "Bridge: non-auth message received before authentication"@
            },
            BridgeError::AuthTimeout => "Bridge: auth handshake timed out"@,
            BridgeError::AuthFailed { conn_id } => "Bridge: auth failed for connection "@ + conn_id,
            BridgeError::WriteDuringAuth => "Bridge: WS write error during auth"@,
        }
    }
}

impl BridgeError<String> {
    /// The error in words.
    pub fn message(&self) -> (text: String)
        ensures
            text@ == self@.words(),
    {
        let mut text = String::new();
        match self {
            BridgeError::NoConnection => text.append("No connection for sender"),
            BridgeError::ConnectionClosed { sender_id } => {
                text.append("Bridge connection closed for sender ");
                text.append(sender_id.as_str());
            },
            BridgeError::ConnectionNotFound { conn_id } => {
                text.append("Bridge connection ");
                text.append(conn_id.as_str());
                text.append(" not found");
            },
            BridgeError::PublicBind { host } => {
                text.append("Bridge: refusing to bind to ");
                text.append(host.as_str());
                text.append(
                    " — would be exposed to the network.\nFix: use host = \"127.0.0.1\" (default) or set allow_public_bind = true in [channels.bridge] (NOT recommended).",
                );
            },
            BridgeError::ClosedBeforeAuth => text.append("Bridge: connection closed before auth"),
            BridgeError::ReadDuringAuth => text.append("Bridge: WS read error during auth"),
            BridgeError::ClientClosedDuringAuth => text.append("Bridge: client closed during auth"),
            BridgeError::InvalidJsonDuringAuth => text.append("Bridge: invalid JSON during auth"),
            BridgeError::NotAuthenticated => {
                text.append("Bridge: non-auth message received before authentication");
            },
            BridgeError::AuthTimeout => text.append("Bridge: auth handshake timed out"),
            BridgeError::AuthFailed { conn_id } => {
                text.append("Bridge: auth failed for connection ");
                text.append(conn_id.as_str());
            },
            BridgeError::WriteDuringAuth => text.append("Bridge: WS write error during auth"),
        }
        assert(text@ =~= self@.words());
        text
    }
}

} // verus!
