//! The usage texts the commands print with `--help` and after an
//! argument error.
use vstd::prelude::*;

use crate::text::str_eq;

verus! {

/// The top-level usage.
pub const TOP_USAGE: &'static str = "build198x — the 198x build-tools pipeline\n\n\
         usage:\n\
         \x20 build198x image <input.png> [more inputs...] --machine <id> --format <f> [options]\n\
         \x20 build198x beeper <input.bpr> [--out-dir <dir>] [--wav] [--asm] [--force]\n\
         \x20 build198x adf <exe> -o <out.adf> [--volume <label>] [--name <file>]\n\
         \x20 build198x basic <in.bas> --machine <id> -o <out>\n\
         \x20 build198x basic lint <in.bas>... --machine <id> [--fix]\n\
         \x20 build198x --version\n\
         \x20 build198x --help\n\n\
         run `build198x image --help` or `build198x beeper --help` for each converter's flags.";

/// The `image` command's usage.
pub const IMAGE_USAGE: &'static str = "build198x image — convert images to retro native screen formats\n\
     \n\
     usage:\n\
     \x20 build198x image <input.png> [more inputs...] --machine <id> --format <f> [options]\n\
     \n\
     machine / format pairings:\n\
     \x20 sinclair-zx-spectrum   scr          (mode: standard)\n\
     \x20 commodore-c64          koala        (mode: multicolour-bitmap)\n\
     \x20 commodore-c64          art-studio   (mode: hires-bitmap)\n\
     \x20 commodore-amiga-ocs    ilbm         (--mode lores-pal|lores-ntsc|hires-pal|hires-ntsc,\n\
     \x20                                      default lores-pal)\n\
     \n\
     options:\n\
     \x20 --machine <id>             target machine (required)\n\
     \x20 --format <f>               scr | koala | art-studio | ilbm (required)\n\
     \x20 --mode <m>                 ilbm only: Amiga screen mode (default lores-pal)\n\
     \x20 --palette <name>           palette interpretation (fixed-palette machines only;\n\
     \x20                            default: the spec's pinned default, emu198x-v1)\n\
     \x20 --metric <m>               oklab | weighted-rgb | yuv (default oklab)\n\
     \x20 --dither <d>               ordered4 | ordered8 | fs | atkinson | none\n\
     \x20                            (default per target: ordered8 for the cell-constrained\n\
     \x20                            formats scr/koala/art-studio, fs for ilbm;\n\
     \x20                            fs/atkinson are ilbm-only)\n\
     \x20 --dither-strength <0..64>  dither strength (default 32; 0 disables dithering\n\
     \x20                            and reports as `none`)\n\
     \x20 --matte <rrggbb>           matte under alpha + letterbox colour (default 000000)\n\
     \x20 --exhaustive-background    koala only: try every background colour (16x cost)\n\
     \x20 -o, --output <path>        output path (single input only;\n\
     \x20                            default: <input stem>.<ext> in the cwd)\n\
     \x20 --preview <path.png>       also render the converted result to a PNG preview\n\
     \x20                            at display proportions (mode pixels duplicated by\n\
     \x20                            the mode's pixel aspect; single input only)\n\
     \x20 --force                    overwrite existing outputs\n\
     \x20 --report <path>            write the JSON report to a file instead of stdout\n\
     \n\
     Outputs are written atomically (temp file + rename) and never overwrite\n\
     an existing file without --force. Animated GIFs convert their first\n\
     frame (the image crate's default) with a warning in the report. Batch\n\
     runs continue past per-file errors and report per-file status.\n\
     The JSON report's schema (always-present vs conditional keys) is\n\
     documented with the report's renderer.\n\
     \n\
     exit codes:\n\
     \x20 0  success\n\
     \x20 2  usage / argument error\n\
     \x20 3  input decode failure (all inputs failed to read or decode)\n\
     \x20 4  conversion / constraint failure\n\
     \x20 5  output IO failure (including refusing to overwrite without --force)\n\
     \x20 6  partial batch failure (some inputs succeeded, some failed)";

/// The `beeper` command's usage.
pub const BEEPER_USAGE: &'static str = "build198x beeper — Spectrum beeper phrases: notation in, audition WAV + phrase asm out\n\
     \n\
     usage:\n\
     \x20 build198x beeper <input.bpr> [--out-dir <dir>] [--wav] [--asm] [--force]\n\
     \n\
     flags:\n\
     \x20 --out-dir <dir>  where outputs go (default: beside the input)\n\
     \x20 --wav            write <phrase>.wav previews only\n\
     \x20 --asm            write <input-stem>.asm phrase blocks only\n\
     \x20 --force          overwrite existing outputs\n\
     \x20 --repeat <n>     play each phrase n times in its WAV (loop-point\n\
     \x20                  audition; the emitted assembly stays one pass)\n\
     \n\
     with neither --wav nor --asm, both are written. The emitted blocks\n\
     target the Gloaming-style beep/rest routines (B cycles, C delay), which\n\
     stay hand-written in the curriculum — this tool emits phrases only.";

/// The `adf` command's usage.
pub const ADF_USAGE: &'static str = "build198x adf — master, create, verify, and inspect bootable Amiga ADF floppies\n\n\
         usage:\n\
         \x20 build198x adf <exe> -o <out.adf> [flags]         master (shorthand)\n\
         \x20 build198x adf master <exe> -o <out.adf> [flags]  master a hunk exe into a bootable disk\n\
         \x20 build198x adf create <out.adf> [flags]           build a volume from files and dirs\n\
         \x20 build198x adf verify <disk.adf>                  check an ADF's integrity\n\
         \x20 build198x adf info <disk.adf>                     show label, filesystem, and contents\n\n\
         Every verb takes --format text|json (default text). Run\n\
         `build198x adf <verb> --help` for a verb's own options.";

/// The `adf master` verb's usage.
pub const ADF_MASTER_USAGE: &'static str = "build198x adf master — master a hunk executable into a bootable Amiga floppy\n\n\
         usage:\n\
         \x20 build198x adf [master] <exe> -o <out.adf> [--volume <label>] [--name <file>] [--ffs]\n\n\
         Writes an 880K DD `.adf` that boots straight into the program. OFS is\n\
         the default (boots on a bare A500/KS1.3); --ffs is denser but needs\n\
         KS2.0+. Deterministic (zeroed dates) — byte-stable output.\n\n\
         options:\n\
         \x20 -o, --output <path>   the .adf to write (required)\n\
         \x20 --volume <label>      disk label (default: capitalised file name)\n\
         \x20 --name <file>         on-disk file + startup-sequence command\n\
         \x20                       (default: the executable's basename)\n\
         \x20 --ofs | --ffs         filesystem (default: --ofs; --ffs needs KS2.0+)\n\
         \x20 --format <fmt>        output format: text (default) or json";

/// The `adf create` verb's usage.
pub const ADF_CREATE_USAGE: &'static str = "build198x adf create — build an ADF volume from files and directories\n\n\
             usage:\n\
             \x20 build198x adf create <out.adf> [options]\n\n\
             options:\n\
             \x20 --label <name>        volume label (default: capitalised output stem)\n\
             \x20 --add <host>[=<dest>] add a host file at <dest> (repeatable; dest\n\
             \x20                       defaults to the basename; a trailing / keeps it)\n\
             \x20 --mkdir <dest>        create an empty directory (repeatable)\n\
             \x20 --bootable           write a boot block (default: not bootable)\n\
             \x20 --startup <cmd>      write s/startup-sequence running <cmd> (implies --bootable)\n\
             \x20 --ofs | --ffs        filesystem (default: --ofs; --ffs needs KS2.0+)\n\
             \x20 --format <fmt>       output format: text (default) or json";

/// The `adf verify` verb's usage.
pub const ADF_VERIFY_USAGE: &'static str = "build198x adf verify — check an ADF's integrity (checksums + structure)\n\n\
             usage:\n\
             \x20 build198x adf verify <disk.adf> [--format text|json]\n\n\
             Exits 0 if the disk is sound, 1 if it is corrupt or not an ADF.";

/// The `adf info` verb's usage.
pub const ADF_INFO_USAGE: &'static str = "build198x adf info — show an ADF's label, filesystem, and root listing\n\n\
             usage:\n\
             \x20 build198x adf info <disk.adf> [--format text|json]";

/// The `basic` command's usage.
pub const BASIC_USAGE: &'static str = "build198x basic — a numbered BASIC listing to the file its machine loads\n\n\
             usage:\n\
             \x20 build198x basic <in.bas> --machine <id> -o <out> [options]\n\
             \x20 build198x basic lint <in.bas>... --machine <id> [--fix]\n\n\
             machines: sinclair-zx-spectrum (a self-starting .tap) or\n\
             commodore-c64 (a .prg at $0801).\n\n\
             options:\n\
             \x20 -o, --output <path>  the file to write (.tap or .prg, by machine)\n\
             \x20 --name <name>        tape header name (default: the output's stem,\n\
             \x20                      first ten characters)\n\
             \x20 --no-autorun         a Spectrum tape that does not run once loaded\n\
             \x20 --format <fmt>       report format: text (default) or json\n\
             \x20 --fix                (lint) rewrite each listing to its listed form\n\n\
             Every lint rule runs before a build; a listing that fails lint is\n\
             not built. Findings print as file:line:column: rule: message.";

/// The standalone mastering tool's usage.
pub const STANDALONE_USAGE: &'static str = "build198x-adf — master a hunk executable into a bootable OFS floppy\n\n\
     Usage:\n\
     \x20 build198x-adf <exe> -o <out.adf> [--volume <label>] [--name <file>]\n\n\
     Writes an 880K OFS DD `.adf` that boots on a bare A500/KS1.3 straight\n\
     into the program.\n\n\
     Options:\n\
     \x20 -o, --output <path>   the .adf to write (required)\n\
     \x20     --volume <label>  disk volume label (default: capitalised name)\n\
     \x20     --name <file>     on-disk file + startup-sequence command\n\
     \x20                       (default: the executable's basename)\n\
     \x20 -h, --help            show this help";

/// The top-level usage.
pub fn top_usage() -> (r: String)
    ensures
        r@ == TOP_USAGE@,
{
    TOP_USAGE.to_owned()
}

/// The `image` command's usage.
pub fn image_usage() -> (r: &'static str)
    ensures
        r@ == IMAGE_USAGE@,
{
    IMAGE_USAGE
}

/// The `beeper` command's usage.
pub fn beeper_usage() -> (r: &'static str)
    ensures
        r@ == BEEPER_USAGE@,
{
    BEEPER_USAGE
}

/// The `adf` command's usage.
pub fn adf_usage() -> (r: String)
    ensures
        r@ == ADF_USAGE@,
{
    ADF_USAGE.to_owned()
}

/// The `adf master` verb's usage.
pub fn adf_master_usage() -> (r: String)
    ensures
        r@ == ADF_MASTER_USAGE@,
{
    ADF_MASTER_USAGE.to_owned()
}

/// A verb's usage; the master verb's for any other word.
pub open spec fn verb_usage_of(verb: Seq<char>) -> Seq<char> {
    if verb == "create"@ {
        ADF_CREATE_USAGE@
    } else if verb == "verify"@ {
        ADF_VERIFY_USAGE@
    } else if verb == "info"@ {
        ADF_INFO_USAGE@
    } else {
        ADF_MASTER_USAGE@
    }
}

/// A verb's usage; the master verb's for any other word.
pub fn adf_verb_usage(verb: &str) -> (r: String)
    ensures
        r@ == verb_usage_of(verb@),
{
    if str_eq(verb, "create") {
        ADF_CREATE_USAGE.to_owned()
    } else if str_eq(verb, "verify") {
        ADF_VERIFY_USAGE.to_owned()
    } else if str_eq(verb, "info") {
        ADF_INFO_USAGE.to_owned()
    } else {
        adf_master_usage()
    }
}

/// The `basic` command's usage.
pub fn basic_usage() -> (r: &'static str)
    ensures
        r@ == BASIC_USAGE@,
{
    BASIC_USAGE
}

/// The standalone mastering tool's usage.
pub fn usage() -> (r: String)
    ensures
        r@ == STANDALONE_USAGE@,
{
    STANDALONE_USAGE.to_owned()
}

} // verus!
