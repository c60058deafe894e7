# tunneload

The routing core of the tunneload load balancer as a Verus library: rule
matching and its parser, the request and response actions (prefix removal,
headers, gzip compression, CORS, Basic authentication), the WebSocket
handshake and frame decoding, the replicated state of automatic TLS (ACME
challenges, the state machine and the consensus log) and the decisions
around plugins, with contracts that Verus proves.

* `src/` is the verified library. Calls into `stream-httparse`, `base64`
  and `flate2` stand behind small trusted wrappers whose contracts say what
  the outside code does on the inputs their `requires` admit; bytes are
  handed to the HTTP parsers only after a verified check of their head
  (`http_head`).
* `tests/` runs the library on concrete values.
* `app/` is the program around it: sockets, files, the concurrent rule list
  (`left-right`) and the web server.
