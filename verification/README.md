# kiota

Runtime support for generated API clients: the description of a request
(method, URI template and parameters, case-insensitive headers, body), the
`DateOnly` and `TimeOnly` values, the API error, and three payload formats
(plain text, `application/x-www-form-urlencoded` and JSON), each with a reader
over a payload and a writer that builds one.

## Layout

- `src/` is the library, verified with Verus. Each public function states
  what it returns or changes over mathematical models (`Seq`, `Map`, spec
  functions), and the laws that tie functions together (reading back what
  was written, header maps, URI resolution) are proved there as public proof
  functions. Calls into `url`, `uuid`, `chrono` and `serde_json` go through
  small trusted wrappers whose contracts say what those crates document.
- `tests/` runs the library on concrete values.
- `app/` holds what Verus does not take: the `ParseNode`,
  `SerializationWriter`, factory and `Parsable` traits (their float methods
  in particular), the asynchronous authentication and request-adapter traits,
  and the `reqwest` adapter, all calling into the library for their
  decisions.
