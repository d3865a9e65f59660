# sdrr

A verified core for the SDRR / One ROM tools, written in Verus.

`src/` is the library.  Its functions are proved against their contracts,
except the few marked `#[verifier::external_body]`, which only call std or
the zip crate and whose contracts are trusted (their doc comments say what
is claimed):

- `sdrr_types` — ROM types, MCU families, processors and variants; the PLL
  settings for a target clock and the `#define`s generated from them.
- `hardware` — board hardware configurations: validation of pins and ports,
  the physical-pin maps, and the checks on the set of configuration files.
- `config` — the generator configuration: chip select checks, the whole
  configuration's validation, and the grouping of ROMs into sets.
- `preprocessor` — sizing ROM files for their ROM type, rearranging address
  and data lines to the board's wiring, and the byte a ROM set serves.
- `meta` — fixed-layout metadata structures (header, firmware overrides,
  serving parameters).
- `net` — locating release firmware in the release manifest, and taking a
  ROM file out of a downloaded zip archive (the zip crate does the reading;
  its outcome is named by `spec_zip_entry`).
- `studio` — configuration manifest names, the layout of the flashed image,
  the analysis tab's states, and the device handler's step from event to
  action, with the reselection of attached probes and USB devices.
- `builder`, `utils`, `text` — shared constants and string helpers.

Laws that span functions are public proof functions whose names begin with
`law_`.

`app/` holds the I/O around the library: reading configuration and ROM
files, downloads, and the messages shown for the library's errors.
