# build198x

Tools for building retro-machine assets: the `build198x` command line
(`image`, `beeper`, `adf`, `basic`) and the machine graphics specifications
it works from.

## Layout

- `src/` is the library. Every function in it carries a contract that
  Verus proves:
  - `mediaspec`: the machine graphics specifications (ZX Spectrum, C64,
    Amiga OCS) and the laws they keep (`mediaspec::consistency`).
  - `basic`: tokenising BASIC listings into programs and tape images, and
    the listing lint (`check`, `fix`).
  - `beeper`: phrase notation, WAV rendering, Z80 assembly and the one
    timing model that the last two share.
  - `convert`: the integer stages of image conversion (normalisation,
    placement on the paper, gamut rounding, cell pre-passes, bridges to
    the native formats).
  - `cli`: argument parsing, reports, JSON, and the calls into the ADF
    and image codecs.
- `app/` is the program: `main`, file I/O, and the floating-point colour
  search, dithering and resampling.
- `tests/` runs the library on concrete values.

The outside format codecs and the `image` crate are called through small
trusted wrappers. Each wrapper's doc comment says what its contract claims.
