# oasis_rofl_client

A verified client library for the ROFL application daemon, and the
decision logic of the ROFL scheduler, written in Verus.

- `src/url.rs`: parsing of `http://` daemon URLs (connect target, `Host`
  header, base path) and endpoint request paths.
- `src/client.rs`: the client, its transport (Unix socket or HTTP), and the
  request prepared for each call.
- `src/http.rs`: HTTP/1.1 request framing and response checking.
- `src/api.rs`: the daemon's endpoints, their request bodies and how their
  responses are read.
- `src/text.rs`, `src/error.rs`: character helpers and errors.
- `src/scheduler/`: what the scheduler decides in a pass (desired
  deployments, starts and stops, acceptance, billing, removal), the checks on
  pulled bundles and on their components against the instance (TEE kind,
  resources, artifacts, digests, volumes), instance metadata updates, and the
  per-instance retry state.
- `app/`: the asynchronous client over the library: sockets, JSON, and
  running blocking I/O off the executor.
