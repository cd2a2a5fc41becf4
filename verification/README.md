# DataBlind policy

A gateway policy that protects the bodies of upstream responses. It takes the JSON data out of a
response body, has the DataCrypt service filter it and encrypt or redact its sensitive fields, and
puts the resulting token in place of the body, or into `content[0].text` of an MCP-style envelope.

The decisions are verified with [Verus](https://github.com/verus-lang/verus).

- `src/policy.rs`: which responses are eligible, which calls of the service a response takes, and
  what becomes of its body, as a function from state and reply to next state and action.
- `src/payload.rs`: what a body, a configured line and a token hold as JSON, the data that stands
  for it, and what the log says of how it was read.
- `src/mcp.rs`: the data in an MCP envelope, and the envelope with a token in it.
- `src/service.rs`, `src/config.rs`: the calls of the service and its replies; the settings.
- `src/describe.rs`: short descriptions of data for the log.
- `src/json.rs`, `src/text.rs`: JSON values and texts.
- `src/codec.rs`: the calls of `serde_json` and `flate2`, with what is trusted of them.
- `src/laws.rs`: what holds of the policy as a whole.
- `app/`: the filter of the gateway around the library.
- `tests/`: the library on concrete values.
