# szse_binary_rs

A verified parser for the Shenzhen Stock Exchange (SZSE) Binary market-data
protocol: the 8-byte message header, the session messages (logon, logout,
heartbeats, resend, business reject) and the real-time feed (tick-by-tick
trades and orders, auction / after-hours / index / volume-statistic
snapshots), plus the mod-256 checksum of a frame.

Every parser states, as a Verus contract, exactly which bytes it reads for
each field (big-endian integers, two's complement for signed fields, raw
byte arrays for text fields) and exactly which `ParseError` it returns on
which input.

Layout:

- `src/` — the library, verified with Verus.
  - `lib.rs`: `Message`, `parse_frame`, `verify_checksum`, and the laws on
    checksums and trailing bytes.
  - `header.rs`, `error.rs`, `utils.rs`: header, errors (with their
    human-readable text), big-endian readers, text fields, checksum.
  - `types/`: the single-byte enums `Side`, `ExecType`, `OrdType`.
  - `messages/`: one module per message family.
- `tests/` — ordinary Rust tests run against the compiled library.
- `app/` — unverified conveniences: the floating-point scale helpers and an
  error type implementing `Display` / `std::error::Error`.
