//! A numbered BASIC listing to the file its machine loads.
//!
//! - **ZX Spectrum:** a ROM header and data block pair (TAP), auto-running
//!   from the program's first line unless asked not to.
//! - **Commodore 64:** a PRG at `$0801`, which the tokeniser already emits.
//!
//! The tokenisers are the Format198x dialect crates; this module only picks
//! the dialect and the container for a machine.
use vstd::prelude::*;

use crate::text::{all_ws, chars_of, is_blank, lines, lines_of, str_eq, string_of};

pub mod lint;



verus! {

/// The auto-start line the Spectrum ROM reads as "do not run": any value of
/// 32768 or more.
pub const NO_AUTORUN: u16 = 32768;

/// A machine the verb builds for. Each has one BASIC and one container.
#[derive(Debug, Clone, Copy, PartialEq, Eq, Structural)]
pub enum Machine {
    /// 48K Spectrum BASIC, written as a `.tap`.
    SinclairZxSpectrum,
    /// Commodore BASIC V2, written as a `.prg`.
    CommodoreC64,
}

/// The machine's mediaspec id.
pub open spec fn machine_id(m: Machine) -> Seq<char> {
    match m {
        Machine::SinclairZxSpectrum => "sinclair-zx-spectrum"@,
        Machine::CommodoreC64 => "commodore-c64"@,
    }
}

impl Machine {
    /// The machine a mediaspec id names, or `None` for an id this verb does
    /// not build for.
    pub fn from_id(id: &str) -> (r: Option<Machine>)
        ensures
            match r {
                Some(m) => machine_id(m) == id@,
                None => id@ != machine_id(Machine::SinclairZxSpectrum) && id@ != machine_id(
                    Machine::CommodoreC64,
                ),
            },
    {
        if str_eq(id, "sinclair-zx-spectrum") {
            Some(Machine::SinclairZxSpectrum)
        } else if str_eq(id, "commodore-c64") {
            Some(Machine::CommodoreC64)
        } else {
            None
        }
    }

    /// The machine's mediaspec id.
    pub fn id(self) -> (s: &'static str)
        ensures
            s@ == machine_id(self),
    {
        match self {
            Machine::SinclairZxSpectrum => "sinclair-zx-spectrum",
            Machine::CommodoreC64 => "commodore-c64",
        }
    }

    /// The extension of the file the machine loads, without the dot.
    pub fn extension(self) -> (s: &'static str)
        ensures
            s@ == (match self {
                Machine::SinclairZxSpectrum => "tap"@,
                Machine::CommodoreC64 => "prg"@,
            }),
    {
        match self {
            Machine::SinclairZxSpectrum => "tap",
            Machine::CommodoreC64 => "prg",
        }
    }
}

/// The two machine ids differ, so an id names at most one machine.
pub proof fn lemma_machine_ids_distinct()
    ensures
        machine_id(Machine::SinclairZxSpectrum) != machine_id(Machine::CommodoreC64),
{
    reveal_strlit("sinclair-zx-spectrum");
    reveal_strlit("commodore-c64");
    assert(machine_id(Machine::SinclairZxSpectrum).len() != machine_id(
        Machine::CommodoreC64,
    ).len());
}

/// A machine's id names that machine and no other: `from_id(id(m)) == m`.
pub proof fn lemma_machine_id_round_trip(m: Machine, n: Machine)
    ensures
        machine_id(m) == machine_id(n) <==> m == n,
{
    lemma_machine_ids_distinct();
}

/// A built program, ready to write.
#[derive(Debug, Clone, PartialEq, Eq)]
pub struct Built {
    /// The output file's bytes.
    pub bytes: Vec<u8>,
    /// Numbered lines in the listing (blank lines are not counted).
    pub lines: usize,
    /// The tokenised program's length, without any container framing.
    pub program_length: usize,
    /// The line the program runs from when loaded, or `None` when it does
    /// not run by itself.
    pub autorun: Option<u16>,
}

/// Why a listing could not be built.
#[derive(Debug, Clone, PartialEq, Eq)]
pub struct Error {
    /// 1-based source line, or 0 when the error is not about one line.
    pub line: usize,
    /// What is wrong, without the line number.
    pub message: String,
}

/// The text an error reads as: `line N: message`, or the message alone
/// when it is not about one line.
pub open spec fn error_text(line: usize, message: Seq<char>) -> Seq<char> {
    if line == 0 {
        message
    } else {
        "line "@ + crate::text::decimal(line as nat) + ": "@ + message
    }
}

impl Error {
    /// The error as a line of text (what `Display` would print).
    pub fn describe(&self) -> (s: String)
        ensures
            s@ == error_text(self.line, self.message@),
    {
        if self.line == 0 {
            self.message.clone()
        } else {
            let mut out: Vec<char> = Vec::new();
            crate::text::push_str(&mut out, "line ");
            crate::text::push_decimal(&mut out, self.line as u64);
            crate::text::push_str(&mut out, ": ");
            crate::text::push_str(&mut out, self.message.as_str());
            string_of(out.as_slice())
        }
    }
}

// --- The tokenisers and the tape container --------------------------------

/// What the Spectrum tokeniser returns for a listing: the stored program, or
/// the source line (0 when not about one line) and message of its error.
pub uninterp spec fn spec_zx_tokenise_listing(source: Seq<char>) -> Result<
    Seq<u8>,
    (usize, Seq<char>),
>;

/// What the C64 tokeniser returns for a listing: the PRG bytes (load
/// address first), or the source line and message of its error.
pub uninterp spec fn spec_c64_tokenise(source: Seq<char>) -> Result<Seq<u8>, (usize, Seq<char>)>;

/// `format198x_sinclair_zx_spectrum_bas::tokenise_listing`: the listing
/// as the bytes the Spectrum stores. The contract names the result; nothing
/// more of it is claimed.
#[verifier::external_body]
fn zx_tokenise_listing(source: &str) -> (r: Result<Vec<u8>, Error>)
    ensures
        match r {
            Ok(b) => spec_zx_tokenise_listing(source@) == Ok::<Seq<u8>, (usize, Seq<char>)>(b@),
            Err(e) => spec_zx_tokenise_listing(source@) == Err::<Seq<u8>, (usize, Seq<char>)>(
                (e.line, e.message@),
            ),
        },
{
    match format198x_sinclair_zx_spectrum_bas::tokenise_listing(source) {
        Ok(p) => Ok(p.bytes),
        Err(e) => Err(Error { line: e.line, message: e.message }),
    }
}

/// `format198x_commodore_c64_bas::tokenise`: the listing as a PRG. The
/// contract names the result; nothing more of it is claimed.
#[verifier::external_body]
fn c64_tokenise(source: &str) -> (r: Result<Vec<u8>, Error>)
    ensures
        match r {
            Ok(b) => spec_c64_tokenise(source@) == Ok::<Seq<u8>, (usize, Seq<char>)>(b@),
            Err(e) => spec_c64_tokenise(source@) == Err::<Seq<u8>, (usize, Seq<char>)>(
                (e.line, e.message@),
            ),
        },
{
    match format198x_commodore_c64_bas::tokenise(source) {
        Ok(p) => Ok(p.bytes),
        Err(e) => Err(Error { line: e.line, message: e.message }),
    }
}

/// A 16-bit value, little-endian.
pub open spec fn le16(v: int) -> Seq<u8> {
    seq![(v % 256) as u8, ((v / 256) % 256) as u8]
}

/// The XOR of `start` and every byte, left to right.
pub open spec fn xor_fold(start: u8, data: Seq<u8>) -> u8
    decreases data.len(),
{
    if data.len() == 0 {
        start
    } else {
        xor_fold(start, data.drop_last()) ^ data.last()
    }
}

/// One TAP block: its length (data plus flag and parity, modulo 2^16),
/// the flag, the data, and the parity byte.
pub open spec fn tap_block(flag: u8, data: Seq<u8>) -> Seq<u8> {
    le16(((data.len() + 2) % 65536) as int) + seq![flag] + data + seq![xor_fold(flag, data)]
}

/// A header name padded with spaces to the ten bytes the header holds.
pub open spec fn header_name(name: Seq<char>) -> Seq<u8> {
    Seq::new(10, |i: int| if i < name.len() { name[i] as u8 } else { 0x20u8 })
}

/// The seventeen payload bytes of a Program header.
pub open spec fn program_header(name: Seq<char>, length: u16, param1: u16, param2: u16) -> Seq<
    u8,
> {
    seq![0u8] + header_name(name) + le16(length as int) + le16(param1 as int) + le16(
        param2 as int,
    )
}

/// A TAP file holding one BASIC program: the Program header block (flag
/// 0x00; the program length, the auto-start line and the length again as
/// parameters) and the data block (flag 0xFF).
pub open spec fn tap_program(name: Seq<char>, length: u16, autostart: u16, program: Seq<u8>) -> Seq<
    u8,
> {
    tap_block(0x00, program_header(name, length, autostart, length)) + tap_block(0xFF, program)
}

/// Every character is printable ASCII.
pub open spec fn printable_ascii(s: Seq<char>) -> bool {
    forall|i: int| 0 <= i < s.len() ==> ' ' <= #[trigger] s[i] && s[i] <= '~'
}

/// `format198x_sinclair_zx_spectrum_tap::encode` of a Program header
/// block (`Header::new(..).block()`) and a data block
/// (`TapBlock::data`). The contract states the bytes the crate's source
/// writes: each block's little-endian length (data + 2, as a `u16`), flag,
/// data and XOR parity; the header payload is the kind byte, the name
/// padded with spaces to ten bytes, and three little-endian words.
#[verifier::external_body]
fn tap_encode_program(name: &str, length: u16, autostart: u16, program: Vec<u8>) -> (r: Vec<u8>)
    requires
        name@.len() <= 10,
        printable_ascii(name@),
    ensures
        r@ == tap_program(name@, length, autostart, program@),
{
    let header = format198x_sinclair_zx_spectrum_tap::Header::new(format198x_sinclair_zx_spectrum_tap::HeaderKind::Program, name, length, autostart, length);
    format198x_sinclair_zx_spectrum_tap::encode(&[header.block(), format198x_sinclair_zx_spectrum_tap::TapBlock::data(program)])
}

// --- Building ----------------------------------------------------------------

/// The number of lines that hold something other than whitespace.
pub open spec fn nonblank_count(ls: Seq<Seq<char>>) -> nat
    decreases ls.len(),
{
    if ls.len() == 0 {
        0
    } else {
        nonblank_count(ls.drop_last()) + if all_ws(ls.last()) {
            0nat
        } else {
            1nat
        }
    }
}

/// A character the tape header name keeps: printable ASCII, else `?`.
pub open spec fn tape_char(c: char) -> char {
    if ' ' <= c && c <= '~' {
        c
    } else {
        '?'
    }
}

/// The first ten characters, each outside printable ASCII replaced by `?`.
pub open spec fn spec_tape_name(name: Seq<char>) -> Seq<char> {
    let n = if name.len() < 10 {
        name.len()
    } else {
        10
    };
    Seq::new(n, |i: int| tape_char(name[i]))
}

/// What a build yields: the file bytes, the numbered line count, the
/// program length and the auto-start line; or the error's line and message.
pub open spec fn spec_build(machine: Machine, source: Seq<char>, name: Seq<char>, autorun: bool) -> Result<
    (Seq<u8>, nat, nat, Option<u16>),
    (usize, Seq<char>),
> {
    let count = nonblank_count(lines(source));
    match machine {
        Machine::SinclairZxSpectrum => match spec_zx_tokenise_listing(source) {
            Err(e) => Err(e),
            Ok(p) => if p.len() > 65535 {
                Err((0usize, "BASIC program too large for a tape header"@))
            } else if p.len() < 2 {
                Err((0usize, "Enter at least one numbered BASIC line"@))
            } else {
                let first = (p[0] as int * 256 + p[1] as int) as u16;
                let start = if autorun {
                    first
                } else {
                    NO_AUTORUN
                };
                Ok(
                    (
                        tap_program(spec_tape_name(name), p.len() as u16, start, p),
                        count,
                        p.len(),
                        if autorun {
                            Some(first)
                        } else {
                            None
                        },
                    ),
                )
            },
        },
        Machine::CommodoreC64 => match spec_c64_tokenise(source) {
            Err(e) => Err(e),
            Ok(p) => Ok(
                (
                    p,
                    count,
                    if p.len() >= 2 {
                        (p.len() - 2) as nat
                    } else {
                        0
                    },
                    None,
                ),
            ),
        },
    }
}

/// Count the non-blank lines of a listing.
fn count_nonblank_lines(source: &str) -> (n: usize)
    ensures
        n == nonblank_count(lines(source@)),
{
    let cs = chars_of(source);
    let ls = lines_of(cs.as_slice());
    let mut n: usize = 0;
    let mut i: usize = 0;
    while i < ls.len()
        invariant
            i <= ls@.len(),
            ls@.len() == lines(source@).len(),
            forall|j: int| 0 <= j < ls@.len() ==> (#[trigger] ls@[j])@ == lines(source@)[j],
            n == nonblank_count(lines(source@).take(i as int)),
            n <= i,
        decreases ls@.len() - i,
    {
        let blank = is_blank(ls[i].as_slice());
        assert(lines(source@).take(i + 1).drop_last() =~= lines(source@).take(i as int));
        if !blank {
            n += 1;
        }
        i += 1;
    }
    assert(lines(source@).take(ls@.len() as int) =~= lines(source@));
    n
}

/// A Spectrum tape holds the tokenised program in its data block (flag
/// 0xFF, from file byte 24), and its Program header (flag 0x00) gives the
/// program's length twice (bytes 14-15 and 18-19, little-endian) and the
/// auto-start line (bytes 16-17): with autorun, the number of the first
/// stored line (the data block's first two bytes, big-endian); without it,
/// 32768, which the ROM does not run.
pub proof fn lemma_zx_tape_autostart(source: Seq<char>, name: Seq<char>, autorun: bool)
    requires
        spec_build(Machine::SinclairZxSpectrum, source, name, autorun) is Ok,
    ensures
        ({
            let (bytes, _, _, start) = spec_build(Machine::SinclairZxSpectrum, source, name, autorun)->Ok_0;
            &&& bytes.len() >= 26
            &&& bytes[2] == 0x00 && bytes[23] == 0xFF
            &&& bytes.len() == 24 + spec_zx_tokenise_listing(source)->Ok_0.len() + 1
            &&& bytes.subrange(24, bytes.len() - 1) == spec_zx_tokenise_listing(source)->Ok_0
            &&& bytes[14] as int + 256 * bytes[15] as int == spec_zx_tokenise_listing(source)->Ok_0.len()
            &&& bytes[18] as int + 256 * bytes[19] as int == spec_zx_tokenise_listing(source)->Ok_0.len()
            &&& autorun ==> bytes[16] == bytes[25] && bytes[17] == bytes[24]
                && start == Some((bytes[24] as int * 256 + bytes[25] as int) as u16)
            &&& !autorun ==> bytes[16] == 0x00 && bytes[17] == 0x80 && start is None
        }),
{
    let p = spec_zx_tokenise_listing(source)->Ok_0;
    let first = (p[0] as int * 256 + p[1] as int) as u16;
    let st: u16 = if autorun {
        first
    } else {
        NO_AUTORUN
    };
    let tn = spec_tape_name(name);
    let hdr = program_header(tn, p.len() as u16, st, p.len() as u16);
    assert(hdr.len() == 17);
    assert(hdr[13] == (st as int % 256) as u8);
    assert(hdr[14] == ((st as int / 256) % 256) as u8);
    let hb = tap_block(0x00, hdr);
    assert(hb.len() == 21);
    assert(hb[16] == hdr[13] && hb[17] == hdr[14]);
    let len = p.len() as u16;
    assert(len as int == p.len());
    assert(hdr[11] == (len as int % 256) as u8 && hdr[12] == ((len as int / 256) % 256) as u8);
    assert(hdr[15] == (len as int % 256) as u8 && hdr[16] == ((len as int / 256) % 256) as u8);
    assert(hb[14] == hdr[11] && hb[15] == hdr[12] && hb[18] == hdr[15] && hb[19] == hdr[16]);
    assert(hb[2] == 0x00);
    let db = tap_block(0xFF, p);
    assert(db[3] == p[0] && db[4] == p[1]);
    assert(db[2] == 0xFF);
    assert(db.len() == p.len() + 4);
    assert(db.subrange(3, db.len() - 1) =~= p);
    let bytes = hb + db;
    assert(bytes[16] == hb[16] && bytes[17] == hb[17]);
    assert(bytes[14] == hb[14] && bytes[15] == hb[15] && bytes[18] == hb[18] && bytes[19] == hb[19]);
    assert(bytes[2] == hb[2] && bytes[23] == db[2]);
    assert(bytes[24] == db[3] && bytes[25] == db[4]);
    assert(bytes.subrange(24, bytes.len() - 1) =~= db.subrange(3, db.len() - 1));
    let l = p.len() as int;
    assert((l % 256) + 256 * ((l / 256) % 256) == l) by (nonlinear_arith)
        requires
            0 <= l <= 65535,
    ;
    assert(0 <= p[0] as int * 256 + p[1] as int <= 65535);
}

/// Tokenise one listing and package it for `machine`. `name` is the tape
/// header name (Spectrum; passed through [`tape_name`]). `autorun` makes a
/// Spectrum tape run from the program's first line once loaded.
///
/// Errors are the tokeniser's (naming the source line when there is one),
/// or, for the Spectrum, a program too long for a tape header's length
/// field or too short to hold a line number.
pub fn build(machine: Machine, source: &str, name: &str, autorun: bool) -> (r: Result<
    Built,
    Error,
>)
    ensures
        match r {
            Ok(b) => spec_build(machine, source@, name@, autorun) == Ok::<
                (Seq<u8>, nat, nat, Option<u16>),
                (usize, Seq<char>),
            >((b.bytes@, b.lines as nat, b.program_length as nat, b.autorun)),
            Err(e) => spec_build(machine, source@, name@, autorun) == Err::<
                (Seq<u8>, nat, nat, Option<u16>),
                (usize, Seq<char>),
            >((e.line, e.message@)),
        },
{
    let lines = count_nonblank_lines(source);
    match machine {
        Machine::SinclairZxSpectrum => {
            let program = match zx_tokenise_listing(source) {
                Ok(p) => p,
                Err(e) => return Err(e),
            };
            if program.len() > 65535 {
                return Err(
                    Error { line: 0, message: "BASIC program too large for a tape header".to_owned() },
                );
            }
            if program.len() < 2 {
                return Err(
                    Error { line: 0, message: "Enter at least one numbered BASIC line".to_owned() },
                );
            }
            let length = program.len() as u16;
            let first: u16 = (program[0] as u16) * 256 + (program[1] as u16);
            let start = if autorun {
                first
            } else {
                NO_AUTORUN
            };
            let header_name = tape_name(name);
            let program_length = program.len();
            let bytes = tap_encode_program(header_name.as_str(), length, start, program);
            Ok(
                Built {
                    bytes,
                    lines,
                    program_length,
                    autorun: if autorun {
                        Some(first)
                    } else {
                        None
                    },
                },
            )
        },
        Machine::CommodoreC64 => {
            let program = match c64_tokenise(source) {
                Ok(p) => p,
                Err(e) => return Err(e),
            };
            let program_length = if program.len() >= 2 {
                program.len() - 2
            } else {
                0
            };
            Ok(Built { bytes: program, lines, program_length, autorun: None })
        },
    }
}

/// A name the Spectrum's ten-byte tape header can hold and the ROM prints as
/// written: its first ten characters, each outside printable ASCII
/// (`0x20..=0x7E`) replaced by `?`.
pub fn tape_name(name: &str) -> (r: String)
    ensures
        r@ == spec_tape_name(name@),
        r@.len() <= 10,
        printable_ascii(r@),
        name@.len() <= 10 && printable_ascii(name@) ==> r@ == name@,
{
    let cs = chars_of(name);
    let mut out: Vec<char> = Vec::new();
    let mut i: usize = 0;
    while i < cs.len() && i < 10
        invariant
            cs@ == name@,
            i <= cs@.len(),
            i <= 10,
            out@ == Seq::new(i as nat, |k: int| tape_char(name@[k])),
        decreases cs@.len() - i,
    {
        let c = cs[i];
        out.push(
            if ' ' <= c && c <= '~' {
                c
            } else {
                '?'
            },
        );
        i += 1;
        assert(out@ =~= Seq::new(i as nat, |k: int| tape_char(name@[k])));
    }
    assert(out@ =~= spec_tape_name(name@));
    proof {
        if name@.len() <= 10 && printable_ascii(name@) {
            assert(out@ =~= name@);
        }
    }
    string_of(out.as_slice())
}

} // verus!
