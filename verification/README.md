# auspex

Lean OpenTelemetry tracing for HTTP services, verified with Verus.

`src/` is the library. It decides and computes: the configuration from the
environment, the W3C trace context headers, what is recorded on a span, which
trace a span belongs to, batching, retries, and the OTLP and Zipkin payloads.
Every public function there carries a contract that Verus proves. Calls into other
crates (`url`, `http`, `smallvec`, `tokio`, `getrandom`) stand behind small
functions and declarations whose contracts are trusted; each says above it what
is trusted of which outside function.

`app/` is what runs: the Tower layer and service, the `tracing` layer, the
posting of batches and the background worker. It holds the copies of payload
types that carry protobuf and JSON encodings, and everything that touches
floating point.

`tests/` runs the library with the real outside crates.
