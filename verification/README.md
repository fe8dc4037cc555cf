# eqforbeginner

The verified core of a conservative loudspeaker room-correction workflow for
beginners: capture a measurement sweep at 48 kHz, read the microphone's
calibration file, and keep every step auditable.

- `src/` is the library, written in Verus. Public functions state in their
  contracts what they return, with two exceptions: the cancellation tokens,
  whose shared flag is a std atomic with no value model, and path safety,
  which is stated exactly only for paths every platform reads alike. The
  laws of the library (for example that the default device is listed first,
  that a validated capture bound holds the whole requested duration, or that
  consecutive playback buffers continue one another) are proof functions next
  to the code they describe.
  - `audio`, `stream`, `devices`, `scan`: capture and playback bookkeeping,
    configuration selection, buffer plans and device inventories.
  - `calibration`: the line grammar of UMIK-style calibration files.
  - `secs`, `phase`: integer FFT sizing and resampling ratios.
  - `cli`, `sources`, `harness`: the developer harness's command line and the
    integrity checks on declared measurement files.
  - `text`, `error`: character-level helpers and the DSP error type.
- `tests/` exercises the library on concrete values.
- `app/` is the host side: CPAL device I/O, the floating-point reading of
  calibration values, file access, and the serialized forms of the records.
