# rfidlibrs

Host-side implementation of the Silion RFID reader communication protocol,
written in Verus: every function of the library carries a `requires` /
`ensures` contract that Verus proves.

## Layout

- `src/` — the verified library.
  - `frame.rs`, `async_proto.rs`, `bytes.rs`: wire packets (header, length,
    command, status, data, CRC-16) and the `Moduletech` asynchronous payloads,
    with their encodings as specification functions and round-trip lemmas.
  - `codes.rs`, `command.rs`, `antenna.rs`, `host_command.rs`: protocol codes,
    option and flag words, command data and every host packet builder.
  - `parsers.rs`, `tag.rs`: response parsers, each stated as a function of the
    data bytes.
  - `transport.rs`, `client.rs`, `host.rs`, `reader.rs`, `select.rs`,
    `session.rs`: command exchanges over a `ReaderTransport`, whose contracts
    speak of the bytes written to and read from the transport and of every
    call made on it, with its outcome.
  - `epc.rs`, `epc_uri.rs`, `text.rs`: SGTIN-96 / GIAI-96 EPC encoding and
    decoding, EPC Tag and Pure Identity URIs, with round-trip lemmas.
  - `test_support.rs`: a scripted in-memory transport, whose recorded calls
    replay from its script, with laws for one exchange and one frame read.
- `tests/`: tests run against the compiled library.
- `app/`: the serial-port transport and the read loop that ends an
  asynchronous inventory session.
