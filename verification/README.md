# datazero

The verified core of a secure-wipe tool: it reads what the device listing tools report
(`lsblk -J`, `wmic diskdrive ... /format:csv`, `adb devices -l`), classifies each block device,
decides how a device is sampled after a wipe, and produces the pieces of a signed certificate
of erasure.

- `src/text.rs` — character-level text handling (trimming, lines, splitting, searching,
  decimal and hexadecimal numbers), each function proved against a specification of the
  standard-library operation it stands for.
- `src/media.rs` — medium classification (`MediaType`, `detect_media_unix`).
- `src/json.rs` — reading string fields out of JSON with `serde_json`.
- `src/device.rs` — `Device`, the `lsblk`, `wmic` and `adb` listings, and the merged listing.
- `src/listing.rs` — the device listing lines shown to the operator.
- `src/select.rs` — target selection and the typed confirmation.
- `src/sample.rs` — device paths, sample size, the `dd` command and the SHA-256 digest.
- `src/ossl.rs` — the OpenSSL calls, each behind a trusted wrapper; the key and signing
  context types record the PEM text and the bytes fed, and only these wrappers make them.
- `src/cert.rs` — P-256 key generation, signing and certificate file names.
- `app/` — the command-line program: runs the tools, reads devices, writes files.
- `tests/` — tests of the library on concrete values.
