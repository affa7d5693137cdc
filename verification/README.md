# cwl_pingora_gateway

A small, explicit reverse-proxy edge runtime whose policy is verified with Verus.

- `src/` is the verified library: the versioned edge configuration contract and its fail-closed
  validation, host/path routing, the characterized multi-route migration plan and its transport
  bindings, request admission and body budgets, forwarding-identity and response-header policy,
  `Max-Forwards` and HTTP/1 upgrade handling, health-probe classification, downstream ALPN
  selection, startup argument handling and the plain-text metrics exposition. Every public
  function states what it returns or changes; laws that relate several functions are public
  proof functions (`lemma_*`).
- `tests/` runs the library on concrete values.
- `app/` is the process around it: configuration files and YAML decoding, trust-bundle and
  name-resolution I/O, logging, and the Pingora callbacks that carry out the library's
  decisions.
