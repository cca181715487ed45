# bridge_channel

A WebSocket server channel that bridges third-party systems to an agent. One
connection stands for one external system; every inbound message names its
end-user in `sender_id`, so a connection carries traffic for many users.

The library in `src/` is verified with Verus. It decides everything:

- `allow_list`: which senders are let in; nobody by default
- `security`: comparing tokens, and telling loopback hosts from reachable ones
- `json`, `frames`: the frames of the protocol and their text on the wire
- `session`: the life of one connection, from the handshake to its end
- `queue`: the bounded outbound queue of a connection
- `table`, `state`, `channel`: the listeners, the connections, the routes, and
  every operation of the bridge
- `laws`: what holds across operations
- `service`: what holds over the whole life of the bridge, with all its
  connections
- `message`, `error`, `ids`, `text`: messages, errors, identifiers and text

`app/` is the ordinary Rust around it: sockets, timers, tasks, and reading
inbound frames.

A client connects, sends `{"type":"auth","token":"<token>"}`, and is answered
`{"type":"auth_result","success":true}` or turned away. From then on both sides
exchange JSON text frames whose `type` member tells their kind.
