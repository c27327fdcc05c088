# UAP

A datagram protocol between clients and a server: numbered messages within sessions, stamped with
Lamport logical time, over UDP. The library in `src/` is verified with Verus; `app/` holds the two
programs around it.

    uap server <portnum>
    uap client <hostname> <portnum>

## Layout

- `src/uap.rs`: the messages and their encoding
- `src/clock.rs`, `src/util.rs`, `src/endpoint.rs`: logical time, sequence numbers, outgoing messages
- `src/server.rs`, `src/report.rs`: the server's decisions and the lines that it prints
- `src/client.rs`, `src/timer.rs`, `src/latency.rs`: the client's decisions, its timer, its statistics
- `src/conversation.rs`: both sides together
- `src/wire.rs`, `src/text.rs`: numbers as bytes and as text
- `tests/`: tests on concrete values

Server and client decide and perform nothing: each event gives back a list of actions, which `app/`
performs in order. The public functions named `law_...` state what holds of the library as a whole.

What is not proved is marked `external_body` or `assume_specification`: the system time, the random
session identifier, and three functions of the standard library on text.
