//! What comes out of the operations that only look.

use crate::allow_list::AllowList;
use crate::channel::BridgeChannel;
use crate::error::BridgeError;
use crate::message::StreamMode;
use crate::security::constant_time_eq;
use crate::security::is_public_bind;
use crate::session::Phase;
use crate::session::Rejection;
use crate::session::Session;
use crate::text::decimal;
use vstd::prelude::*;

verus! {

/// Two tokens compare as equal if, and only if, they are.
pub proof fn law_comparison_is_exact(a: &str, b: &str, equal: bool)
    requires
        call_ensures(constant_time_eq, (a, b), equal),
    ensures
        equal <==> a@ == b@,
{
}

/// A host is public unless it is one of the five names of the loopback interface.
pub proof fn law_other_hosts_are_public(host: &str, public: bool)
    requires
        call_ensures(is_public_bind, (host,), public),
    ensures
        public <==> {
            &&& host@ != "127.0.0.1"@
            &&& host@ != "localhost"@
            &&& host@ != "::1"@
            &&& host@ != "[::1]"@
            &&& host@ != "0:0:0:0:0:0:0:1"@
        },
{
}

/// The bridge listens where it was told to, at the host and the port joined by a
/// colon, unless that would expose it to the network and nobody asked for it.
pub proof fn law_bridge_listens_where_told(
    bridge: &BridgeChannel,
    address: Result<String, BridgeError>,
)
    requires
        call_ensures(BridgeChannel::bind_address, (bridge,), address),
    ensures
        ({
            let host = bridge@.host;
            let local = host == "127.0.0.1"@ || host == "localhost"@ || host == "::1"@ || host
                == "[::1]"@ || host == "0:0:0:0:0:0:0:1"@;
            &&& address is Ok <==> local || bridge@.allow_public_bind
            &&& address matches Ok(text) ==> text@ == host + ":"@ + decimal(bridge@.port as nat)
            &&& address matches Err(error) ==> (error matches BridgeError::PublicBind { host: named }
                && named@ == host)
        }),
{
}

/// The bridge is healthy if, and only if, some connection is known.
pub proof fn law_health_follows_the_connections(bridge: &BridgeChannel, healthy: bool)
    requires
        bridge.wf(),
        call_ensures(BridgeChannel::health_check, (bridge,), healthy),
    ensures
        healthy <==> exists|conn_id: Seq<char>| #[trigger] bridge@.connections.contains_key(conn_id),
{
}

/// Drafts are shown if, and only if, the bridge was set up to stream.
pub proof fn law_drafts_follow_the_stream_mode(bridge: &BridgeChannel, supported: bool)
    requires
        call_ensures(BridgeChannel::supports_draft_updates, (bridge,), supported),
    ensures
        supported <==> bridge@.stream_mode == StreamMode::Partial,
{
}

/// A sender finds the connection that last spoke for it, or the reason why there
/// is none.
pub proof fn law_senders_find_their_connection(
    bridge: &BridgeChannel,
    sender_id: &str,
    route: Result<String, BridgeError>,
)
    requires
        bridge.wf(),
        call_ensures(BridgeChannel::resolve, (bridge, sender_id), route),
    ensures
        ({
            let conn_id = bridge@.routing[sender_id@];
            if !bridge@.routing.contains_key(sender_id@) {
                route == Err::<String, BridgeError>(BridgeError::NoConnection)
            } else if bridge@.connections.contains_key(conn_id) {
                route matches Ok(found) && found@ == conn_id
            } else {
                route matches Err(BridgeError::ConnectionNotFound { conn_id: named }) && named@
                    == conn_id
            }
        }),
{
}

/// A list lets in everybody where it holds `*`, and otherwise exactly those that
/// it names.
pub proof fn law_list_is_read_as_written(raw: &[String], list: AllowList, id: &str, allowed: bool)
    requires
        call_ensures(AllowList::parse, (raw,), list),
        call_ensures(AllowList::is_allowed, (&list, id), allowed),
    ensures
        allowed <==> exists|i: int|
            0 <= i < raw@.len() && ((#[trigger] raw@[i])@ == "*"@ || raw@[i]@ == id@),
{
}

/// The time for the handshake runs until the token was judged.
pub proof fn law_handshake_is_timed(session: &Session, timed: bool)
    requires
        call_ensures(Session::is_timed, (session,), timed),
    ensures
        timed <==> {
            ||| session.at() == Phase::Handshake
            ||| session.at() == Phase::PongPending
            ||| session.at() == Phase::RejectPending(Rejection::NotAuth)
        },
{
}

/// A new bridge is as it was set up, lets in whom its list lets in, and knows
/// nobody yet.
pub proof fn law_new_bridge_is_as_set_up(
    host: String,
    port: u16,
    token: String,
    allowed_senders: &[String],
    stream_mode: StreamMode,
    max_connections: u16,
    allow_public_bind: bool,
    bridge: BridgeChannel,
    id: Seq<char>,
)
    requires
        call_ensures(
            BridgeChannel::new,
            (
                host,
                port,
                token,
                allowed_senders,
                stream_mode,
                max_connections,
                allow_public_bind,
            ),
            bridge,
        ),
    ensures
        bridge.wf(),
        bridge@.host == host@,
        bridge@.port == port,
        bridge@.token == token@,
        bridge@.stream_mode == stream_mode,
        bridge@.max_connections == max_connections,
        bridge@.allow_public_bind == allow_public_bind,
        bridge@.allowed.contains(id) <==> exists|i: int|
            0 <= i < allowed_senders@.len() && ((#[trigger] allowed_senders@[i])@ == "*"@
                || allowed_senders@[i]@ == id),
        !bridge@.connections.contains_key(id),
        !bridge@.routing.contains_key(id),
        !bridge@.departed.contains_key(id),
        bridge@.listeners.len() == 0,
{
}

} // verus!
