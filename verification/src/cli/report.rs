//! The `image` command's per-file outcomes, exit-code map and JSON report.
use vstd::prelude::*;

use crate::cli::image_command::{dither_name, dither_token, format_token, metric_name, metric_token, ImageArgs};
use crate::cli::json::{
    hex_colour, hex_rgb, json_array, json_escaped, push_json_array, push_json_escaped, string_views,
};
use crate::mediaspec::{first_palette, spec_machine, PaletteModelView, Rgb};
use crate::text::{chars_of, decimal, lemma_append_assoc, push_decimal, push_str, str_eq, string_of};

verus! {

/// One input's outcome, as it appears in the report's `files` array.
pub struct FileEntry {
    pub input: String,
    pub ok: bool,
    /// Paths actually written, in write order (native, then preview).
    pub outputs: Vec<String>,
    /// `(kind, message)`: kind is `decode`, `convert`, or `io`.
    pub error: Option<(&'static str, String)>,
    pub warnings: Vec<String>,
    /// The mean error as the report prints it (six decimals) and the count
    /// of cells over the error threshold, present once conversion ran.
    pub quality: Option<(String, usize)>,
}

impl FileEntry {
    /// A fresh entry: not yet ok, nothing written, no error, warning or
    /// quality.
    pub fn new(input: &str) -> (e: FileEntry)
        ensures
            e.input@ == input@,
            !e.ok,
            e.outputs@.len() == 0,
            e.error is None,
            e.warnings@.len() == 0,
            e.quality is None,
    {
        FileEntry {
            input: input.to_owned(),
            ok: false,
            outputs: Vec::new(),
            error: None,
            warnings: Vec::new(),
            quality: None,
        }
    }
}

// --- exit codes -----------------------------------------------------------------------

/// How many entries succeeded.
pub open spec fn count_ok(es: Seq<FileEntry>) -> nat
    decreases es.len(),
{
    if es.len() == 0 {
        0
    } else {
        count_ok(es.drop_last()) + if es.last().ok {
            1nat
        } else {
            0nat
        }
    }
}

/// The kinds of the entries' errors, in order.
pub open spec fn error_kinds(es: Seq<FileEntry>) -> Seq<Seq<char>>
    decreases es.len(),
{
    if es.len() == 0 {
        Seq::empty()
    } else {
        match es.last().error {
            Some((kind, _)) => error_kinds(es.drop_last()).push(kind@),
            None => error_kinds(es.drop_last()),
        }
    }
}

/// The documented exit code of a run: 0 when every input converted, 6
/// when some did and some did not; when all failed, 3 if every failure
/// was a decode failure, else 5 if any was an IO failure, else 4.
pub open spec fn exit_code_of(es: Seq<FileEntry>) -> u8 {
    let ok = count_ok(es);
    let kinds = error_kinds(es);
    if ok == es.len() {
        0
    } else if ok > 0 {
        6
    } else if kinds.len() > 0 && (forall|i: int| 0 <= i < kinds.len() ==> #[trigger] kinds[i] == "decode"@) {
        3
    } else if exists|i: int| 0 <= i < kinds.len() && #[trigger] kinds[i] == "io"@ {
        5
    } else {
        4
    }
}

proof fn lemma_count_ok_bound(es: Seq<FileEntry>)
    ensures
        count_ok(es) <= es.len(),
    decreases es.len(),
{
    if es.len() > 0 {
        lemma_count_ok_bound(es.drop_last());
    }
}

/// How many entries succeeded.
pub fn ok_count(entries: &[FileEntry]) -> (n: usize)
    ensures
        n == count_ok(entries@),
{
    let mut n: usize = 0;
    let mut i: usize = 0;
    while i < entries.len()
        invariant
            i <= entries@.len(),
            n == count_ok(entries@.take(i as int)),
            n <= i,
        decreases entries@.len() - i,
    {
        assert(entries@.take(i + 1).drop_last() =~= entries@.take(i as int));
        if entries[i].ok {
            n += 1;
        }
        i += 1;
    }
    assert(entries@.take(entries@.len() as int) =~= entries@);
    n
}

/// Map the per-file outcomes to the documented exit codes.
pub fn exit_code(entries: &[FileEntry]) -> (code: u8)
    ensures
        code == exit_code_of(entries@),
{
    let ok = ok_count(entries);
    proof {
        lemma_count_ok_bound(entries@);
    }
    if ok == entries.len() {
        return 0;
    }
    if ok > 0 {
        return 6;
    }
    let ghost kinds = error_kinds(entries@);
    let mut any: bool = false;
    let mut all_decode: bool = true;
    let mut any_io: bool = false;
    let mut i: usize = 0;
    while i < entries.len()
        invariant
            i <= entries@.len(),
            kinds == error_kinds(entries@),
            any == (error_kinds(entries@.take(i as int)).len() > 0),
            all_decode == (forall|k: int|
                0 <= k < error_kinds(entries@.take(i as int)).len() ==> #[trigger] error_kinds(
                    entries@.take(i as int),
                )[k] == "decode"@),
            any_io == (exists|k: int|
                0 <= k < error_kinds(entries@.take(i as int)).len() && #[trigger] error_kinds(
                    entries@.take(i as int),
                )[k] == "io"@),
        decreases entries@.len() - i,
    {
        let ghost prev = error_kinds(entries@.take(i as int));
        assert(entries@.take(i + 1).drop_last() =~= entries@.take(i as int));
        match &entries[i].error {
            Some((kind, _)) => {
                let ghost next = prev.push(kind@);
                assert(error_kinds(entries@.take(i + 1)) == next);
                any = true;
                let d = str_eq(kind, "decode");
                let o = str_eq(kind, "io");
                proof {
                    if all_decode && d {
                        assert forall|k: int| 0 <= k < next.len() implies #[trigger] next[k] == "decode"@ by {
                            if k < prev.len() {
                                assert(next[k] == prev[k]);
                            }
                        }
                    }
                    if !all_decode {
                        let w = choose|k: int| 0 <= k < prev.len() && !(#[trigger] prev[k] == "decode"@);
                        assert(next[w] == prev[w]);
                    }
                    if any_io {
                        let w = choose|k: int| 0 <= k < prev.len() && #[trigger] prev[k] == "io"@;
                        assert(next[w] == prev[w]);
                    }
                    if !any_io && !o {
                        assert forall|k: int| 0 <= k < next.len() implies !(#[trigger] next[k] == "io"@) by {
                            if k < prev.len() {
                                assert(next[k] == prev[k]);
                            }
                        }
                    }
                    assert(next[prev.len() as int] == kind@);
                }
                all_decode = all_decode && d;
                any_io = any_io || o;
            },
            None => {
                assert(error_kinds(entries@.take(i + 1)) == prev);
            },
        }
        i += 1;
    }
    assert(entries@.take(entries@.len() as int) =~= entries@);
    if any && all_decode {
        3
    } else if any_io {
        5
    } else {
        4
    }
}

// --- output collisions --------------------------------------------------------------

/// The first output that an earlier input's output repeats: the smallest
/// `i` whose path equals an earlier one, with the first such earlier `j`.
pub open spec fn first_collision(paths: Seq<Seq<char>>) -> Option<(int, int)>
    decreases paths.len(),
{
    if paths.len() == 0 {
        None
    } else {
        match first_collision(paths.drop_last()) {
            Some(c) => Some(c),
            None => {
                let i = paths.len() - 1;
                if exists|j: int| 0 <= j < i && #[trigger] paths[j] == paths[i] {
                    Some((first_index_of(paths, paths[i]), i))
                } else {
                    None
                }
            },
        }
    }
}

/// The index of the first occurrence of `x` (the length when absent).
pub open spec fn first_index_of(s: Seq<Seq<char>>, x: Seq<char>) -> int
    decreases s.len(),
{
    if s.len() == 0 {
        0
    } else if s[0] == x {
        0
    } else {
        1 + first_index_of(s.drop_first(), x)
    }
}

proof fn lemma_first_index_of(s: Seq<Seq<char>>, x: Seq<char>, k: int)
    requires
        0 <= k < s.len(),
        s[k] == x,
        forall|j: int| 0 <= j < k ==> s[j] != x,
    ensures
        first_index_of(s, x) == k,
    decreases s.len(),
{
    if k > 0 {
        lemma_first_index_of(s.drop_first(), x, k - 1);
    }
}

proof fn lemma_first_index_prefix(s: Seq<Seq<char>>, x: Seq<char>, n: int)
    requires
        0 <= n <= s.len(),
        exists|j: int| 0 <= j < n && s[j] == x,
    ensures
        first_index_of(s.take(n), x) == first_index_of(s, x),
    decreases s.len(),
{
    if s[0] != x {
        assert(s.take(n).drop_first() =~= s.drop_first().take(n - 1));
        let w = choose|j: int| 0 <= j < n && s[j] == x;
        assert(s.drop_first()[w - 1] == x);
        lemma_first_index_prefix(s.drop_first(), x, n - 1);
    }
}

proof fn lemma_first_index_found(s: Seq<Seq<char>>, x: Seq<char>, w: int)
    requires
        0 <= w < s.len(),
        s[w] == x,
    ensures
        0 <= first_index_of(s, x) <= w,
        s[first_index_of(s, x)] == x,
    decreases s.len(),
{
    if s[0] != x {
        lemma_first_index_found(s.drop_first(), x, w - 1);
    }
}

/// Outputs collide exactly when two of them are the same path, and a
/// reported collision names two such inputs, the earlier first.
pub proof fn lemma_collision_iff_repeated_path(paths: Seq<Seq<char>>)
    ensures
        first_collision(paths) is None <==> forall|j: int, i: int|
            0 <= j < i < paths.len() ==> #[trigger] paths[j] != #[trigger] paths[i],
        first_collision(paths) matches Some((j, i)) ==> 0 <= j < i < paths.len() && paths[j] == paths[i],
    decreases paths.len(),
{
    if paths.len() > 0 {
        let d = paths.drop_last();
        let i = paths.len() - 1;
        lemma_collision_iff_repeated_path(d);
        if first_collision(d) is None {
            if exists|j: int| 0 <= j < i && #[trigger] paths[j] == paths[i] {
                let w = choose|j: int| 0 <= j < i && #[trigger] paths[j] == paths[i];
                lemma_first_index_found(paths, paths[i], w);
            } else {
                assert forall|a: int, b: int| 0 <= a < b < paths.len() implies #[trigger] paths[a]
                    != #[trigger] paths[b] by {
                    if b < i {
                        assert(d[a] == paths[a] && d[b] == paths[b]);
                    }
                }
            }
        } else {
            let (j, k) = first_collision(d)->Some_0;
            assert(d[j] == paths[j] && d[k] == paths[k]);
        }
    }
}

/// Where two inputs' outputs collide: `(j, i)` with `j < i`, the first
/// such `i` and the first `j` for it, or `None` when all are distinct.
pub fn output_collision(paths: &[String]) -> (r: Option<(usize, usize)>)
    ensures
        match first_collision(string_views(paths@)) {
            Some((j, i)) => r == Some((j as usize, i as usize)),
            None => r is None,
        },
{
    let ghost pv = string_views(paths@);
    let mut i: usize = 0;
    while i < paths.len()
        invariant
            pv == string_views(paths@),
            i <= paths@.len(),
            first_collision(pv.take(i as int)) is None,
        decreases paths@.len() - i,
    {
        let mut j: usize = 0;
        while j < i
            invariant
                pv == string_views(paths@),
                j <= i < paths@.len(),
                first_collision(pv.take(i as int)) is None,
                forall|k: int| 0 <= k < j ==> pv[k] != pv[i as int],
            decreases i - j,
        {
            assert(pv[j as int] == paths@[j as int]@);
            assert(pv[i as int] == paths@[i as int]@);
            if str_eq(paths[j].as_str(), paths[i].as_str()) {
                proof {
                    let t = pv.take(i + 1);
                    assert(pv[j as int] == paths@[j as int]@);
                    assert(pv[i as int] == paths@[i as int]@);
                    assert(t.drop_last() =~= pv.take(i as int));
                    assert(t[j as int] == t[i as int]);
                    assert(t.len() - 1 == i);
                    lemma_first_index_of(pv, pv[i as int], j as int);
                    lemma_first_index_prefix(pv, pv[i as int], i + 1);
                    assert(t[i as int] == pv[i as int]);
                    assert(first_index_of(t, t[i as int]) == j as int);
                    assert(first_collision(t.drop_last()) is None);
                    assert(exists|k: int| 0 <= k < i && #[trigger] t[k] == t[i as int]);
                    assert(first_collision(pv.take(i + 1)) == Some((j as int, i as int)));
                    lemma_first_collision_extends(pv, i + 1);
                    assert(pv.take(pv.len() as int) =~= pv);
                }
                return Some((j, i));
            }
            j += 1;
        }
        proof {
            let t = pv.take(i + 1);
            assert(t.drop_last() =~= pv.take(i as int));
            assert forall|k: int| 0 <= k < i implies !(#[trigger] t[k] == t[i as int]) by {
                assert(t[k] == pv[k]);
            }
        }
        i += 1;
    }
    assert(pv.take(paths@.len() as int) =~= pv);
    None
}

proof fn lemma_first_collision_extends(s: Seq<Seq<char>>, n: int)
    requires
        0 <= n <= s.len(),
        first_collision(s.take(n)) is Some,
    ensures
        first_collision(s) == first_collision(s.take(n)),
    decreases s.len() - n,
{
    if n < s.len() {
        assert(s.take(n + 1).drop_last() =~= s.take(n));
        lemma_first_collision_extends(s, n + 1);
    } else {
        assert(s.take(n) =~= s);
    }
}

// --- the palette section ------------------------------------------------------------

/// The report's top-level `palette` object.
pub enum PaletteSection {
    Named { name: String, colours: Vec<Rgb> },
    Generated { gamut_bits: u8, colours: Vec<Rgb> },
}

/// The mathematical value of a [`PaletteSection`].
pub enum PaletteSectionView {
    Named { name: Seq<char>, colours: Seq<Rgb> },
    Generated { gamut_bits: u8, colours: Seq<Rgb> },
}

impl View for PaletteSection {
    type V = PaletteSectionView;

    open spec fn view(&self) -> PaletteSectionView {
        match self {
            PaletteSection::Named { name, colours } => PaletteSectionView::Named {
                name: name@,
                colours: colours@,
            },
            PaletteSection::Generated { gamut_bits, colours } => PaletteSectionView::Generated {
                gamut_bits: *gamut_bits,
                colours: colours@,
            },
        }
    }
}

/// The palette section: generated palettes echo the first successful
/// conversion's colours (none when none succeeded); named palettes echo the
/// first conversion's interpretation, or else the requested (or the
/// machine's pinned default) interpretation from the specification.
pub open spec fn palette_section_of(
    machine: Seq<char>,
    requested: Option<Seq<char>>,
    conv: Option<(Option<Seq<char>>, Seq<Rgb>)>,
) -> PaletteSectionView {
    match spec_machine(machine) {
        Some(m) if m.palette is Gamut => PaletteSectionView::Generated {
            gamut_bits: m.palette->bits_per_gun,
            colours: match conv {
                Some((_, c)) => c,
                None => Seq::empty(),
            },
        },
        _ => match conv {
            Some((Some(name), colours)) => PaletteSectionView::Named { name, colours },
            _ => {
                let name = match requested {
                    Some(n) => n,
                    None => match spec_machine(machine) {
                        Some(m) => match m.default_interpretation {
                            Some(d) => d,
                            None => Seq::empty(),
                        },
                        None => Seq::empty(),
                    },
                };
                let colours = match spec_machine(machine) {
                    Some(m) => match first_palette(m.palette, name) {
                        Some(p) => p.colours,
                        None => Seq::empty(),
                    },
                    None => Seq::empty(),
                };
                PaletteSectionView::Named { name, colours }
            },
        },
    }
}

/// Copies of some colours.
pub fn copy_colours(v: &[Rgb]) -> (r: Vec<Rgb>)
    ensures
        r@ == v@,
{
    let mut r: Vec<Rgb> = Vec::new();
    let mut i: usize = 0;
    while i < v.len()
        invariant
            i <= v@.len(),
            r@ =~= v@.take(i as int),
        decreases v@.len() - i,
    {
        r.push(v[i]);
        i += 1;
    }
    assert(v@.take(v@.len() as int) =~= v@);
    r
}

/// A conversion's resolved palette as the report sees it: the
/// interpretation name (`None` for generated palettes) and the colours.
pub open spec fn resolved_view(conv: Option<(Option<String>, Vec<Rgb>)>) -> Option<(Option<Seq<char>>, Seq<Rgb>)> {
    match conv {
        Some((n, c)) => Some(
            (
                match n {
                    Some(s) => Some(s@),
                    None => None,
                },
                c@,
            ),
        ),
        None => None,
    }
}

/// Resolve the report's top-level palette object from the first
/// conversion's resolved palette.
pub fn palette_section(a: &ImageArgs, conv: Option<(Option<String>, Vec<Rgb>)>) -> (p: PaletteSection)
    ensures
        p@ == palette_section_of(a.machine@, a@.palette, resolved_view(conv)),
{
    let spec = crate::mediaspec::machine(a.machine.as_str());
    match &spec {
        Some(m) => match &m.palette {
            crate::mediaspec::PaletteModel::Gamut { bits_per_gun } => {
                assert(m@.palette is Gamut);
                let colours = match conv {
                    Some((_, c)) => c,
                    None => Vec::new(),
                };
                return PaletteSection::Generated { gamut_bits: *bits_per_gun, colours };
            },
            _ => {},
        },
        None => {},
    }
    match conv {
        Some((Some(name), colours)) => {
            return PaletteSection::Named { name, colours };
        },
        _ => {},
    }
    let name: String = match &a.palette {
        Some(n) => n.clone(),
        None => match &spec {
            Some(m) => match m.default_interpretation {
                Some(d) => {
                    assert(m@.default_interpretation == Some(d@));
                    d.to_owned()
                },
                None => String::new(),
            },
            None => String::new(),
        },
    };
    let colours: Vec<Rgb> = match &spec {
        Some(m) => match m.interpretation(name.as_str()) {
            Some(p) => copy_colours(p.colours.as_slice()),
            None => Vec::new(),
        },
        None => Vec::new(),
    };
    PaletteSection::Named { name, colours }
}


// --- the JSON report ------------------------------------------------------------------

/// `true` or `false`, as `{}` prints a `bool`.
pub open spec fn bool_text(b: bool) -> Seq<char> {
    if b {
        "true"@
    } else {
        "false"@
    }
}

/// The colours as `rrggbb` strings.
pub open spec fn hex_list(cs: Seq<Rgb>) -> Seq<Seq<char>> {
    cs.map_values(|c: Rgb| hex_rgb(c))
}

/// The report's lines before the palette object.
pub open spec fn report_head(converter_version: Seq<char>, mediaspec_version: Seq<char>, a: ImageArgs) -> Seq<char> {
    "{\n"@ + "  \"converter_version\": \""@ + json_escaped(converter_version) + "\",\n"@
        + "  \"mediaspec_version\": \""@ + json_escaped(mediaspec_version) + "\",\n"@ + "  \"machine\": \""@
        + json_escaped(a.machine@) + "\",\n"@ + "  \"mode\": \""@ + json_escaped(a.mode@) + "\",\n"@
        + "  \"format\": \""@ + format_token(a.format) + "\",\n"@
}

/// The report's `palette` object.
pub open spec fn palette_block(p: PaletteSectionView) -> Seq<char> {
    "  \"palette\": {\n"@ + match p {
        PaletteSectionView::Named { name, colours } => "    \"kind\": \"named\",\n"@ + "    \"name\": \""@
            + json_escaped(name) + "\",\n"@ + "    \"colours\": "@ + json_array(hex_list(colours)) + "\n"@,
        PaletteSectionView::Generated { gamut_bits, colours } => "    \"kind\": \"generated\",\n"@
            + "    \"gamut_bits\": "@ + decimal(gamut_bits as nat) + ",\n"@ + "    \"colours\": "@ + json_array(
            hex_list(colours),
        ) + "\n"@,
    } + "  },\n"@
}

/// The report's `options` object.
pub open spec fn options_block(a: ImageArgs) -> Seq<char> {
    "  \"options\": {\n"@ + "    \"metric\": \""@ + metric_name(a.metric) + "\",\n"@ + "    \"dither\": \""@
        + dither_name(a.dither, a.strength) + "\",\n"@ + "    \"strength\": "@ + decimal(a.strength as nat)
        + ",\n"@ + "    \"matte\": \""@ + hex_rgb(Rgb { r: a.matte[0], g: a.matte[1], b: a.matte[2] })
        + "\",\n"@ + "    \"force\": "@ + bool_text(a.force) + ",\n"@ + "    \"exhaustive_background\": "@
        + bool_text(a.exhaustive_background) + "\n"@ + "  },\n"@
}

/// The `error` object of an entry, when it failed.
pub open spec fn error_lines(e: FileEntry) -> Seq<char> {
    match e.error {
        Some((kind, message)) => "      \"error\": {\n"@ + "        \"kind\": \""@ + json_escaped(kind@)
            + "\",\n"@ + "        \"message\": \""@ + json_escaped(message@) + "\"\n"@ + "      },\n"@,
        None => Seq::empty(),
    }
}

/// What follows an entry's warnings: its `quality` object once conversion
/// ran, else just the line end.
pub open spec fn quality_lines(e: FileEntry) -> Seq<char> {
    match e.quality {
        Some((mean_error, over)) => ",\n      \"quality\": {\n"@ + "        \"mean_error\": "@ + mean_error@
            + ",\n"@ + "        \"cells_over_threshold\": "@ + decimal(over as nat) + "\n"@ + "      }\n"@,
        None => "\n"@,
    }
}

/// The `status` of an entry.
pub open spec fn status_text(ok: bool) -> Seq<char> {
    if ok {
        "ok"@
    } else {
        "error"@
    }
}

/// The closing brace of an entry; `last` drops the comma after it.
pub open spec fn entry_close(last: bool) -> Seq<char> {
    if last {
        "    }\n"@
    } else {
        "    },\n"@
    }
}

/// One entry of the report's `files` array.
pub open spec fn file_block(e: FileEntry, last: bool) -> Seq<char> {
    "    {\n"@ + "      \"input\": \""@ + json_escaped(e.input@) + "\",\n"@ + "      \"status\": \""@
        + status_text(e.ok) + "\",\n"@ + "      \"outputs\": "@ + json_array(string_views(e.outputs@)) + ",\n"@
        + error_lines(e) + "      \"warnings\": "@ + json_array(string_views(e.warnings@)) + quality_lines(e)
        + entry_close(last)
}

/// The first `n` entries of the `files` array, the last of all entries
/// without a trailing comma.
pub open spec fn file_blocks(es: Seq<FileEntry>, n: nat) -> Seq<char>
    decreases n,
{
    if n == 0 {
        Seq::empty()
    } else {
        file_blocks(es, (n - 1) as nat) + file_block(es[n - 1], n == es.len())
    }
}

/// The report's `summary` object and the closing brace.
pub open spec fn summary_block(es: Seq<FileEntry>) -> Seq<char> {
    "  \"summary\": {\n"@ + "    \"ok\": "@ + decimal(count_ok(es)) + ",\n"@ + "    \"failed\": "@ + decimal(
        (es.len() - count_ok(es)) as nat,
    ) + "\n"@ + "  }\n}\n"@
}

/// The full JSON report, keys in their fixed order.
pub open spec fn report_text(
    converter_version: Seq<char>,
    mediaspec_version: Seq<char>,
    a: ImageArgs,
    p: PaletteSectionView,
    es: Seq<FileEntry>,
) -> Seq<char> {
    report_head(converter_version, mediaspec_version, a) + palette_block(p) + options_block(a)
        + "  \"files\": [\n"@ + file_blocks(es, es.len()) + "  ],\n"@ + summary_block(es)
}

fn hex_strings(cs: &[Rgb]) -> (r: Vec<String>)
    ensures
        string_views(r@) == hex_list(cs@),
{
    let mut r: Vec<String> = Vec::new();
    let mut i: usize = 0;
    while i < cs.len()
        invariant
            i <= cs@.len(),
            string_views(r@) =~= hex_list(cs@).take(i as int),
        decreases cs@.len() - i,
    {
        let ghost before = r@;
        r.push(hex_colour(cs[i]));
        proof {
            assert(string_views(r@) =~= string_views(before).push(hex_rgb(cs@[i as int])));
            assert(hex_list(cs@).take(i + 1) =~= hex_list(cs@).take(i as int).push(hex_rgb(cs@[i as int])));
        }
        i += 1;
    }
    assert(hex_list(cs@).take(cs@.len() as int) =~= hex_list(cs@));
    r
}

fn push_escaped_str(out: &mut Vec<char>, s: &str)
    ensures
        final(out)@ == old(out)@ + json_escaped(s@),
{
    let cs = chars_of(s);
    push_json_escaped(out, cs.as_slice());
}

fn push_bool(out: &mut Vec<char>, b: bool)
    ensures
        final(out)@ == old(out)@ + bool_text(b),
{
    if b {
        push_str(out, "true");
    } else {
        push_str(out, "false");
    }
}

fn push_head(out: &mut Vec<char>, converter_version: &str, mediaspec_version: &str, a: &ImageArgs)
    ensures
        final(out)@ == old(out)@ + report_head(converter_version@, mediaspec_version@, *a),
{
    let ghost start = out@;
    push_str(out, "{\n");
    push_str(out, "  \"converter_version\": \"");
    push_escaped_str(out, converter_version);
    push_str(out, "\",\n");
    push_str(out, "  \"mediaspec_version\": \"");
    push_escaped_str(out, mediaspec_version);
    push_str(out, "\",\n");
    push_str(out, "  \"machine\": \"");
    push_escaped_str(out, a.machine.as_str());
    push_str(out, "\",\n");
    push_str(out, "  \"mode\": \"");
    push_escaped_str(out, a.mode.as_str());
    push_str(out, "\",\n");
    push_str(out, "  \"format\": \"");
    push_str(out, a.format.token());
    push_str(out, "\",\n");
    assert(out@ =~= start + report_head(converter_version@, mediaspec_version@, *a));
}

fn push_palette(out: &mut Vec<char>, p: &PaletteSection)
    ensures
        final(out)@ == old(out)@ + palette_block(p@),
{
    let ghost start = out@;
    push_str(out, "  \"palette\": {\n");
    let ghost mid = out@;
    match p {
        PaletteSection::Named { name, colours } => {
            push_str(out, "    \"kind\": \"named\",\n");
            push_str(out, "    \"name\": \"");
            push_escaped_str(out, name.as_str());
            push_str(out, "\",\n");
            push_str(out, "    \"colours\": ");
            let hex = hex_strings(colours.as_slice());
            push_json_array(out, hex.as_slice());
            push_str(out, "\n");
        },
        PaletteSection::Generated { gamut_bits, colours } => {
            push_str(out, "    \"kind\": \"generated\",\n");
            push_str(out, "    \"gamut_bits\": ");
            push_decimal(out, *gamut_bits as u64);
            push_str(out, ",\n");
            push_str(out, "    \"colours\": ");
            let hex = hex_strings(colours.as_slice());
            push_json_array(out, hex.as_slice());
            push_str(out, "\n");
        },
    }
    push_str(out, "  },\n");
    assert(out@ =~= start + palette_block(p@));
}

fn push_options(out: &mut Vec<char>, a: &ImageArgs)
    ensures
        final(out)@ == old(out)@ + options_block(*a),
{
    let ghost start = out@;
    push_str(out, "  \"options\": {\n");
    let ghost mut body = "  \"options\": {\n"@;
    push_str(out, "    \"metric\": \"");
    proof { lemma_append_assoc(start, body, "    \"metric\": \""@); body = body + "    \"metric\": \""@; }
    push_str(out, metric_token(a.metric));
    proof { lemma_append_assoc(start, body, metric_name(a.metric)); body = body + metric_name(a.metric); }
    push_str(out, "\",\n");
    proof { lemma_append_assoc(start, body, "\",\n"@); body = body + "\",\n"@; }
    push_str(out, "    \"dither\": \"");
    proof { lemma_append_assoc(start, body, "    \"dither\": \""@); body = body + "    \"dither\": \""@; }
    push_str(out, dither_token(a.dither, a.strength));
    proof {
        lemma_append_assoc(start, body, dither_name(a.dither, a.strength));
        body = body + dither_name(a.dither, a.strength);
    }
    push_str(out, "\",\n");
    proof { lemma_append_assoc(start, body, "\",\n"@); body = body + "\",\n"@; }
    push_str(out, "    \"strength\": ");
    proof { lemma_append_assoc(start, body, "    \"strength\": "@); body = body + "    \"strength\": "@; }
    push_decimal(out, a.strength as u64);
    proof {
        lemma_append_assoc(start, body, decimal(a.strength as nat));
        body = body + decimal(a.strength as nat);
    }
    push_str(out, ",\n");
    proof { lemma_append_assoc(start, body, ",\n"@); body = body + ",\n"@; }
    push_str(out, "    \"matte\": \"");
    proof { lemma_append_assoc(start, body, "    \"matte\": \""@); body = body + "    \"matte\": \""@; }
    let m = hex_colour(Rgb { r: a.matte[0], g: a.matte[1], b: a.matte[2] });
    push_str(out, m.as_str());
    proof { lemma_append_assoc(start, body, m@); body = body + m@; }
    push_str(out, "\",\n");
    proof { lemma_append_assoc(start, body, "\",\n"@); body = body + "\",\n"@; }
    push_str(out, "    \"force\": ");
    proof { lemma_append_assoc(start, body, "    \"force\": "@); body = body + "    \"force\": "@; }
    push_bool(out, a.force);
    proof { lemma_append_assoc(start, body, bool_text(a.force)); body = body + bool_text(a.force); }
    push_str(out, ",\n");
    proof { lemma_append_assoc(start, body, ",\n"@); body = body + ",\n"@; }
    push_str(out, "    \"exhaustive_background\": ");
    proof {
        lemma_append_assoc(start, body, "    \"exhaustive_background\": "@);
        body = body + "    \"exhaustive_background\": "@;
    }
    push_bool(out, a.exhaustive_background);
    proof {
        lemma_append_assoc(start, body, bool_text(a.exhaustive_background));
        body = body + bool_text(a.exhaustive_background);
    }
    push_str(out, "\n");
    proof { lemma_append_assoc(start, body, "\n"@); body = body + "\n"@; }
    push_str(out, "  },\n");
    proof { lemma_append_assoc(start, body, "  },\n"@); body = body + "  },\n"@; }
    assert(body == options_block(*a));
}

fn push_error_lines(out: &mut Vec<char>, e: &FileEntry)
    ensures
        final(out)@ == old(out)@ + error_lines(*e),
{
    let ghost start = out@;
    match &e.error {
        Some((kind, message)) => {
            push_str(out, "      \"error\": {\n");
            let ghost mut body = "      \"error\": {\n"@;
            push_str(out, "        \"kind\": \"");
            proof { lemma_append_assoc(start, body, "        \"kind\": \""@); body = body + "        \"kind\": \""@; }
            push_escaped_str(out, kind);
            proof { lemma_append_assoc(start, body, json_escaped(kind@)); body = body + json_escaped(kind@); }
            push_str(out, "\",\n");
            proof { lemma_append_assoc(start, body, "\",\n"@); body = body + "\",\n"@; }
            push_str(out, "        \"message\": \"");
            proof {
                lemma_append_assoc(start, body, "        \"message\": \""@);
                body = body + "        \"message\": \""@;
            }
            push_escaped_str(out, message.as_str());
            proof { lemma_append_assoc(start, body, json_escaped(message@)); body = body + json_escaped(message@); }
            push_str(out, "\"\n");
            proof { lemma_append_assoc(start, body, "\"\n"@); body = body + "\"\n"@; }
            push_str(out, "      },\n");
            proof { lemma_append_assoc(start, body, "      },\n"@); body = body + "      },\n"@; }
            assert(body == error_lines(*e));
        },
        None => {
            assert(out@ =~= start + error_lines(*e));
        },
    }
}

fn push_quality_lines(out: &mut Vec<char>, e: &FileEntry)
    ensures
        final(out)@ == old(out)@ + quality_lines(*e),
{
    let ghost start = out@;
    match &e.quality {
        Some((mean_error, over)) => {
            push_str(out, ",\n      \"quality\": {\n");
            let ghost mut body = ",\n      \"quality\": {\n"@;
            push_str(out, "        \"mean_error\": ");
            proof {
                lemma_append_assoc(start, body, "        \"mean_error\": "@);
                body = body + "        \"mean_error\": "@;
            }
            push_str(out, mean_error.as_str());
            proof { lemma_append_assoc(start, body, mean_error@); body = body + mean_error@; }
            push_str(out, ",\n");
            proof { lemma_append_assoc(start, body, ",\n"@); body = body + ",\n"@; }
            push_str(out, "        \"cells_over_threshold\": ");
            proof {
                lemma_append_assoc(start, body, "        \"cells_over_threshold\": "@);
                body = body + "        \"cells_over_threshold\": "@;
            }
            push_decimal(out, *over as u64);
            proof { lemma_append_assoc(start, body, decimal(*over as nat)); body = body + decimal(*over as nat); }
            push_str(out, "\n");
            proof { lemma_append_assoc(start, body, "\n"@); body = body + "\n"@; }
            push_str(out, "      }\n");
            proof { lemma_append_assoc(start, body, "      }\n"@); body = body + "      }\n"@; }
            assert(body == quality_lines(*e));
        },
        None => {
            push_str(out, "\n");
        },
    }
}

fn push_file(out: &mut Vec<char>, e: &FileEntry, last: bool)
    ensures
        final(out)@ == old(out)@ + file_block(*e, last),
{
    let ghost start = out@;
    push_str(out, "    {\n");
    let ghost mut body = "    {\n"@;
    push_str(out, "      \"input\": \"");
    proof { lemma_append_assoc(start, body, "      \"input\": \""@); body = body + "      \"input\": \""@; }
    push_escaped_str(out, e.input.as_str());
    proof { lemma_append_assoc(start, body, json_escaped(e.input@)); body = body + json_escaped(e.input@); }
    push_str(out, "\",\n");
    proof { lemma_append_assoc(start, body, "\",\n"@); body = body + "\",\n"@; }
    push_str(out, "      \"status\": \"");
    proof { lemma_append_assoc(start, body, "      \"status\": \""@); body = body + "      \"status\": \""@; }
    if e.ok {
        push_str(out, "ok");
    } else {
        push_str(out, "error");
    }
    proof { lemma_append_assoc(start, body, status_text(e.ok)); body = body + status_text(e.ok); }
    push_str(out, "\",\n");
    proof { lemma_append_assoc(start, body, "\",\n"@); body = body + "\",\n"@; }
    push_str(out, "      \"outputs\": ");
    proof { lemma_append_assoc(start, body, "      \"outputs\": "@); body = body + "      \"outputs\": "@; }
    push_json_array(out, e.outputs.as_slice());
    proof {
        lemma_append_assoc(start, body, json_array(string_views(e.outputs@)));
        body = body + json_array(string_views(e.outputs@));
    }
    push_str(out, ",\n");
    proof { lemma_append_assoc(start, body, ",\n"@); body = body + ",\n"@; }
    push_error_lines(out, e);
    proof { lemma_append_assoc(start, body, error_lines(*e)); body = body + error_lines(*e); }
    push_str(out, "      \"warnings\": ");
    proof { lemma_append_assoc(start, body, "      \"warnings\": "@); body = body + "      \"warnings\": "@; }
    push_json_array(out, e.warnings.as_slice());
    proof {
        lemma_append_assoc(start, body, json_array(string_views(e.warnings@)));
        body = body + json_array(string_views(e.warnings@));
    }
    push_quality_lines(out, e);
    proof { lemma_append_assoc(start, body, quality_lines(*e)); body = body + quality_lines(*e); }
    if last {
        push_str(out, "    }\n");
    } else {
        push_str(out, "    },\n");
    }
    proof { lemma_append_assoc(start, body, entry_close(last)); body = body + entry_close(last); }
    assert(body == file_block(*e, last));
}

fn push_summary(out: &mut Vec<char>, entries: &[FileEntry])
    ensures
        final(out)@ == old(out)@ + summary_block(entries@),
{
    let ghost start = out@;
    let ok = ok_count(entries);
    proof {
        lemma_count_ok_bound(entries@);
    }
    push_str(out, "  \"summary\": {\n");
    push_str(out, "    \"ok\": ");
    push_decimal(out, ok as u64);
    push_str(out, ",\n");
    push_str(out, "    \"failed\": ");
    push_decimal(out, (entries.len() - ok) as u64);
    push_str(out, "\n");
    push_str(out, "  }\n}\n");
    assert(out@ =~= start + summary_block(entries@));
}

/// Render the full JSON report. Key order is fixed: `converter_version`,
/// `mediaspec_version`, `machine`, `mode`, `format`, `palette`, `options`,
/// `files`, `summary` — all always present. Per file, `error` appears only
/// on failure and `quality` only once conversion ran.
pub fn render_report(
    converter_version: &str,
    mediaspec_version: &str,
    a: &ImageArgs,
    palette: &PaletteSection,
    entries: &[FileEntry],
) -> (r: String)
    ensures
        r@ == report_text(converter_version@, mediaspec_version@, *a, palette@, entries@),
{
    let mut out: Vec<char> = Vec::new();
    push_head(&mut out, converter_version, mediaspec_version, a);
    push_palette(&mut out, palette);
    push_options(&mut out, a);
    push_str(&mut out, "  \"files\": [\n");
    let ghost files_start = out@;
    let mut i: usize = 0;
    while i < entries.len()
        invariant
            i <= entries@.len(),
            out@ == files_start + file_blocks(entries@, i as nat),
        decreases entries@.len() - i,
    {
        push_file(&mut out, &entries[i], i + 1 == entries.len());
        proof {
            assert(out@ =~= files_start + file_blocks(entries@, (i + 1) as nat));
        }
        i += 1;
    }
    push_str(&mut out, "  ],\n");
    push_summary(&mut out, entries);
    assert(out@ =~= report_text(converter_version@, mediaspec_version@, *a, palette@, entries@));
    string_of(out.as_slice())
}

} // verus!
