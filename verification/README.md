# starmine_ad

Inspection of E-AC-3 (Dolby Digital Plus) access units, splitting of raw E-AC-3 and TrueHD
elementary streams, and the integer bookkeeping around object-audio decoding and the 7.1.4
renderer, written in Verus with machine-checked contracts.

## Layout

- `src/bitreader.rs`: MSB-first bit reader over a byte slice, specified by `bits_value`.
- `src/syncframe/`: the E-AC-3 syncframe: header and bitstream information, the frame-level
  audio syntax, audio-block syntax (coupling, spectral extension, exponents, bit-allocation
  parameters, SNR offsets, delta bit allocation), skip fields, EMDF containers and payloads,
  the access-unit inspection that ties them together, its text summary, and the core decoding
  state kept between frames.
- `src/raw_stream.rs`: walks over raw E-AC-3 and TrueHD streams, with progress laws.
- `src/renderer.rs`: bed channels, the fixed 7.1.4 layout, bed routing and input checks.
- `src/truehd.rs`: TrueHD channel labels, layout resolution from OAMD and labels, errors and
  the object decoder's counters.
- `src/lossless.rs`: integer primitives of TrueHD lossless decoding.
- `src/ffi.rs`: the C status codes and plain info structs.
- `src/cli.rs`: the command-line option grammar.
- `app/main.rs`: the command-line tool (file I/O and printing).
- `tests/`: tests run against the compiled library.

Audio blocks whose coarse or fine SNR offsets are nonzero are refused with
`UnsupportedFeature("bit-allocation")`: sizing their mantissas needs the AC-3 bit-allocation
model, which this crate does not carry. EMDF payload bodies are kept as bytes and not parsed.

Verify with Verus; every public function states its result in `ensures`, and the laws that
span several calls are public proof functions.
