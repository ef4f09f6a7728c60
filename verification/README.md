# rdp-client-core

The part of a Remote Desktop client that decides: which capability sets to confirm, how to
answer a request for a license, what the graphics output looks like after a command, and
how two 4:2:0 video streams become one 4:4:4 picture. It is written in Verus, and every
function is proved to meet its contract.

- `src/` is the library. Contracts are stated over models: `Activation` and `Exchange` for
  the two connection sequences, `Composition` for the compositor, `Picture` for planes.
  Modules named `laws` state what holds over several calls.
- `src/connector/wire.rs` and the files in `src/connector/wire/` hold everything that is
  trusted of the protocol crates, and `src/decode/open_h264.rs` what is trusted of the
  video library. A function marked `external_body` calls one of theirs, and its doc comment
  says what is claimed of it. A specification without a body is a name for what such a
  function returns.
- `tests/` runs the library with the real crates.
- `app/` is ordinary Rust around the library: logging, the buffers of the protocol crates,
  the error traits, and loading the video library from disk.

## How the pieces fit

A connection sequence takes one PDU at a time, appends what it answers to the output, and
returns what it wrote. `ConnectionActivationSequence::step` returns `StepOutcome::Finalize`
for a PDU that belongs to the finalization of the connection; the caller runs that step and
reports it with `finalization_stepped`.

A license that the server grants is deciphered in `src/connector/cipher.rs` first. The
protocol crate's decoder reads the lengths of the later fields unchecked, so a license in
which it would come to one past the end is refused before.

Where an outside function fails, its error comes back inside the connector's. A contract
says so by naming the call: an error is one that decoding these very bytes may give.

Virtual-channel PDUs that arrive during an activation are set aside up to a budget. The
first one that does not fit is dropped together with everything after it, so what is handed
back is always a prefix of what arrived.
