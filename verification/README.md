# quic_actor

A small QUIC file server and its client. The server answers HTTP/0.9
`GET` requests with the named file; the client asks for `LONG_README.md`
and appends the answer to `output.txt`.

`src/` is the verified library (Verus): the decisions of the two programs,
including when their send loops stop, when a response ends its stream, and
which clients the server keeps.

- `token`: stateless retry tokens (`mint_token`, `validate_token`) and the
  laws that tie them together.
- `conn_id`: connection IDs derived with HMAC-SHA256 (*ring*) from a random seed.
- `packet`: admission of incoming packets (`classify_packet`): known client,
  version negotiation, stateless retry, invalid token or ID, or a new connection.
- `request`: parsing of `GET` requests down to the served file name.
- `table`: the server's clients by connection ID, and how a packet is routed
  to one of them or admits a new one (`route_packet`).
- `server`: per-client state, the responses that wait for a writable stream,
  and the server's flush loop rule (`flush_step`).
- `client`: the client's request and when it is sent, when the answer is
  complete, and its main loop rule (`client_step`).
- `address`, `random`, `buf`: IP addresses, operating-system randomness, byte helpers.

`app/` is the program around it: sockets, the actix runtime and the quiche
connections, which it drives with the library's decisions
(`app server` or `app client`). `tests/` exercises the library.
