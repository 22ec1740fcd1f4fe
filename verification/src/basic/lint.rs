//! The checks a listing must pass before it is built.
//!
//! A listing is written as the machine's LIST shows it, and every rule here
//! comes from a mistake found in real listings. The rules read the dialect
//! crates' positioned pieces, so each finding names the column it is about.
//!
//! | Rule | Machine | Catches |
//! |---|---|---|
//! | `listing-form` | both | a line that differs from what LIST prints for it, or a blank line |
//! | `statement-keyword` | Spectrum | a statement whose first code is not a statement keyword |
//! | `stored-space` | Spectrum | a space the ROM stores and lists (`LET n = 1`) |
//! | `string-var-name` | Spectrum | a string variable longer than one letter |
//! | `keyword-var-name` | Spectrum | a variable named like a keyword (`ink`) |
//! | `keyword-in-name` | C64 | a keyword with name letters on both sides (`SCORE`) |
//! | `var-name-clash` | C64 | two names BASIC V2 reads as one variable |
//! | `line-order` | both | a duplicate or descending line number |
//!
//! [`fix`] mends the first three by rewriting each line to its listed form
//! and dropping blank lines; a line the ROM refuses to run is left as
//! written, since its listed form is refused too.
use vstd::prelude::*;

use format198x_commodore_c64_bas as c64;
use format198x_sinclair_zx_spectrum_bas as zx;

use crate::basic::{Error, Machine};
use crate::text::{
    all_ws, chars_of, decimal, ends_with, is_blank, lines, lines_of, push_chars, push_decimal,
    push_str, seq_eq, string_of, trim_end, trimmed_end,
};

verus! {

// --- The dialect crates' pieces --------------------------------------------------

/// What sort of text a [`Piece`] is.
#[derive(Debug, Clone, Copy, PartialEq, Eq, Structural)]
pub enum PieceKind {
    /// A keyword stored as one token byte, which this carries.
    Keyword(u8),
    /// A variable or other name.
    Name,
    /// A number.
    Number,
    /// A string literal, including its quotation marks.
    Str,
    /// The text after REM.
    Rem,
    /// One stored space.
    Space,
    /// Any other single character.
    Punct,
    /// A kind the dialect crate added after this library was written.
    Other,
}

/// One stored piece of a line body, with where it came from in the source.
#[derive(Debug, Clone, PartialEq, Eq)]
pub struct Piece {
    /// What sort of text this piece is.
    pub kind: PieceKind,
    /// The bytes this piece stores.
    pub bytes: Vec<u8>,
    /// 0-based offset of the piece within the line body.
    pub column: usize,
    /// The source text the piece came from.
    pub text: String,
}

/// The mathematical value of a [`Piece`].
pub struct PieceView {
    pub kind: PieceKind,
    pub bytes: Seq<u8>,
    pub column: usize,
    pub text: Seq<char>,
}

impl View for Piece {
    type V = PieceView;

    open spec fn view(&self) -> PieceView {
        PieceView { kind: self.kind, bytes: self.bytes@, column: self.column, text: self.text@ }
    }
}

/// A listing line split into number and pieces.
#[derive(Debug, Clone, PartialEq, Eq)]
pub struct LexLine {
    /// The line number.
    pub number: u16,
    /// 0-based offset of the body within the source line.
    pub body_column: usize,
    /// The body's pieces, in source order.
    pub pieces: Vec<Piece>,
}

/// The mathematical value of a [`LexLine`].
pub struct LexView {
    pub number: u16,
    pub body_column: usize,
    pub pieces: Seq<PieceView>,
}

pub open spec fn pieces_view(pieces: Seq<Piece>) -> Seq<PieceView> {
    pieces.map_values(|p: Piece| p@)
}

impl View for LexLine {
    type V = LexView;

    open spec fn view(&self) -> LexView {
        LexView {
            number: self.number,
            body_column: self.body_column,
            pieces: pieces_view(self.pieces@),
        }
    }
}

/// Every piece's offset within its source line is a byte offset within a
/// string, so it is below `isize::MAX`.
pub open spec fn lex_fits(l: LexView) -> bool {
    forall|k: int| 0 <= k < l.pieces.len() ==> l.body_column + (#[trigger] l.pieces[k]).column < isize::MAX
}

/// The pieces start left to right: no piece's offset is before the one
/// before it (an empty piece may share its offset with the next).
pub open spec fn lex_in_order(l: LexView) -> bool {
    forall|a: int, b: int|
        0 <= a < b < l.pieces.len() ==> (#[trigger] l.pieces[a]).column <= (#[trigger] l.pieces[b]).column
}

/// What the Spectrum dialect's `lex_line` gives for a line: its number and
/// pieces, or the line (0) and message of its error.
pub uninterp spec fn spec_zx_lex_line(line: Seq<char>) -> Result<LexView, (usize, Seq<char>)>;

/// What the C64 dialect's `lex_line` gives for a line.
pub uninterp spec fn spec_c64_lex_line(line: Seq<char>) -> Result<LexView, (usize, Seq<char>)>;

/// What the Spectrum's LIST prints for a stored line.
pub uninterp spec fn spec_zx_list_line(number: u16, body: Seq<u8>) -> Seq<char>;

/// What the C64's LIST prints for a stored line.
pub uninterp spec fn spec_c64_list_line(number: u16, body: Seq<u8>) -> Seq<char>;

/// The Spectrum's keyword texts, in ROM table order from token 0xA5.
pub uninterp spec fn spec_zx_keyword_name(index: int) -> Seq<char>;

/// `format198x_sinclair_zx_spectrum_bas::lex_line`, with its pieces
/// carried over one for one. The contract names the result and states that
/// every offset is a byte offset within the line, and that the pieces come
/// in source order (its body lexer pushes each at the current position,
/// which never moves back; an empty `BIN` number shares it with the next).
#[verifier::external_body]
fn zx_lex_line(line: &str) -> (r: Result<LexLine, Error>)
    ensures
        match r {
            Ok(l) => spec_zx_lex_line(line@) == Ok::<LexView, (usize, Seq<char>)>(l@) && lex_fits(l@) && lex_in_order(
                l@,
            ),
            Err(e) => spec_zx_lex_line(line@) == Err::<LexView, (usize, Seq<char>)>((e.line, e.message@)),
        },
{
    match zx::lex_line(line) {
        Ok(l) => Ok(LexLine { number: l.number, body_column: l.body_column, pieces: l.pieces.into_iter().map(|p| Piece { kind: match p.kind {
            zx::PieceKind::Keyword(t) => PieceKind::Keyword(t), zx::PieceKind::Name => PieceKind::Name,
            zx::PieceKind::Number => PieceKind::Number, zx::PieceKind::Str => PieceKind::Str,
            zx::PieceKind::Rem => PieceKind::Rem, zx::PieceKind::Space => PieceKind::Space,
            zx::PieceKind::Punct => PieceKind::Punct, _ => PieceKind::Other,
        }, bytes: p.bytes, column: p.column, text: p.text }).collect() }),
        Err(e) => Err(Error { line: e.line, message: e.message }),
    }
}

/// `format198x_commodore_c64_bas::lex_line`, with its pieces carried over
/// one for one. The contract names the result and states that every offset
/// is a byte offset within the line, and that the pieces come in source
/// order (its body lexer pushes each at the current position, which never
/// moves back).
#[verifier::external_body]
fn c64_lex_line(line: &str) -> (r: Result<LexLine, Error>)
    ensures
        match r {
            Ok(l) => spec_c64_lex_line(line@) == Ok::<LexView, (usize, Seq<char>)>(l@) && lex_fits(l@)
                && lex_in_order(l@),
            Err(e) => spec_c64_lex_line(line@) == Err::<LexView, (usize, Seq<char>)>((e.line, e.message@)),
        },
{
    match c64::lex_line(line) {
        Ok(l) => Ok(LexLine { number: l.number, body_column: l.body_column, pieces: l.pieces.into_iter().map(|p| Piece { kind: match p.kind {
            c64::PieceKind::Keyword(t) => PieceKind::Keyword(t), c64::PieceKind::Name => PieceKind::Name,
            c64::PieceKind::Number => PieceKind::Number, c64::PieceKind::Str => PieceKind::Str,
            c64::PieceKind::Rem => PieceKind::Rem, c64::PieceKind::Space => PieceKind::Space,
            c64::PieceKind::Punct => PieceKind::Punct, _ => PieceKind::Other,
        }, bytes: p.bytes, column: p.column, text: p.text }).collect() }),
        Err(e) => Err(Error { line: e.line, message: e.message }),
    }
}

/// `format198x_sinclair_zx_spectrum_bas::list_line`: the line as LIST
/// prints it. The contract names the result.
#[verifier::external_body]
fn zx_list_line(number: u16, body: &[u8]) -> (s: String)
    ensures
        s@ == spec_zx_list_line(number, body@),
{
    zx::list_line(number, body)
}

/// `format198x_commodore_c64_bas::list_line`: the line as LIST prints it.
/// The contract names the result.
#[verifier::external_body]
fn c64_list_line(number: u16, body: &[u8]) -> (s: String)
    ensures
        s@ == spec_c64_list_line(number, body@),
{
    c64::list_line(number, body)
}

/// An entry of `format198x_sinclair_zx_spectrum_bas::KEYWORD_NAMES` (91
/// entries). The contract names it.
#[verifier::external_body]
fn zx_keyword_name(index: usize) -> (s: &'static str)
    requires
        index < 91,
    ensures
        s@ == spec_zx_keyword_name(index as int),
{
    zx::KEYWORD_NAMES[index]
}

// --- Findings ------------------------------------------------------------------------

/// One problem in a listing.
#[derive(Debug, Clone, PartialEq, Eq)]
pub struct Finding {
    /// 1-based source line.
    pub line: usize,
    /// 1-based column within the source line.
    pub column: usize,
    /// The rule's name, such as `listing-form`.
    pub rule: &'static str,
    /// What is wrong, without the position or rule.
    pub message: String,
}

/// The mathematical value of a [`Finding`].
pub struct FindingView {
    pub line: usize,
    pub column: usize,
    pub rule: Seq<char>,
    pub message: Seq<char>,
}

impl View for Finding {
    type V = FindingView;

    open spec fn view(&self) -> FindingView {
        FindingView { line: self.line, column: self.column, rule: self.rule@, message: self.message@ }
    }
}

pub open spec fn findings_view(f: Seq<Finding>) -> Seq<FindingView> {
    f.map_values(|x: Finding| x@)
}

pub open spec fn finding(line: usize, column: int, rule: Seq<char>, message: Seq<char>) -> FindingView {
    FindingView { line, column: column as usize, rule, message }
}

fn push_finding(out: &mut Vec<Finding>, line: usize, column: usize, rule: &'static str, message: Vec<char>)
    ensures
        findings_view(final(out)@) == findings_view(old(out)@).push(
            finding(line, column as int, rule@, message@),
        ),
{
    let ghost before = out@;
    out.push(Finding { line, column, rule, message: string_of(message.as_slice()) });
    assert(findings_view(out@) =~= findings_view(before).push(
        finding(line, column as int, rule@, message@),
    ));
}

// --- Text helpers ------------------------------------------------------------------------

/// `str::to_ascii_uppercase`: `a`-`z` to `A`-`Z`, everything else kept.
pub open spec fn upper(s: Seq<char>) -> Seq<char> {
    Seq::new(s.len(), |i: int| if 'a' <= s[i] && s[i] <= 'z' {
        ((s[i] as u32) - 32) as char
    } else {
        s[i]
    })
}

fn upper_chars(s: &[char]) -> (r: Vec<char>)
    ensures
        r@ == upper(s@),
{
    let mut r: Vec<char> = Vec::new();
    let mut i: usize = 0;
    while i < s.len()
        invariant
            i <= s@.len(),
            r@ =~= upper(s@).take(i as int),
        decreases s@.len() - i,
    {
        let c = s[i];
        let u = if 'a' <= c && c <= 'z' {
            ((c as u32) - 32) as u8 as char
        } else {
            c
        };
        r.push(u);
        i += 1;
    }
    r
}

/// The characters other than spaces.
pub open spec fn no_spaces(s: Seq<char>) -> Seq<char>
    decreases s.len(),
{
    if s.len() == 0 {
        seq![]
    } else {
        no_spaces(s.drop_last()) + if s.last() == ' ' {
            Seq::<char>::empty()
        } else {
            seq![s.last()]
        }
    }
}

fn no_spaces_chars(s: &[char]) -> (r: Vec<char>)
    ensures
        r@ == no_spaces(s@),
{
    let mut r: Vec<char> = Vec::new();
    let mut i: usize = 0;
    while i < s.len()
        invariant
            i <= s@.len(),
            r@ == no_spaces(s@.take(i as int)),
        decreases s@.len() - i,
    {
        assert(s@.take(i + 1).drop_last() =~= s@.take(i as int));
        if s[i] != ' ' {
            r.push(s[i]);
        }
        assert(r@ =~= no_spaces(s@.take(i + 1)));
        i += 1;
    }
    assert(s@.take(s@.len() as int) =~= s@);
    r
}

/// Whether `s` starts with `p`.
pub open spec fn starts_with(s: Seq<char>, p: Seq<char>) -> bool {
    p.len() <= s.len() && s.take(p.len() as int) == p
}

fn starts_with_chars(s: &[char], p: &[char]) -> (r: bool)
    ensures
        r == starts_with(s@, p@),
{
    if p.len() > s.len() {
        return false;
    }
    let head = crate::text::slice_chars(s, 0, p.len());
    assert(head@ =~= s@.take(p@.len() as int));
    seq_eq(head.as_slice(), p)
}

// --- Finding one's way among the pieces ---------------------------------------------

/// The nearest piece before `j` that is not a space.
pub open spec fn prev_ns(pieces: Seq<PieceView>, j: int) -> Option<int>
    decreases j,
{
    if j <= 0 || j > pieces.len() {
        None
    } else if pieces[j - 1].kind != PieceKind::Space {
        Some(j - 1)
    } else {
        prev_ns(pieces, j - 1)
    }
}

/// The first piece at `k` or after it that is not a space.
pub open spec fn next_from(pieces: Seq<PieceView>, k: int) -> Option<int>
    decreases pieces.len() - k,
{
    if k < 0 || k >= pieces.len() {
        None
    } else if pieces[k].kind != PieceKind::Space {
        Some(k)
    } else {
        next_from(pieces, k + 1)
    }
}

pub proof fn lemma_prev_ns_range(pieces: Seq<PieceView>, j: int)
    ensures
        prev_ns(pieces, j) matches Some(x) ==> 0 <= x < j && x < pieces.len() && pieces[x].kind
            != PieceKind::Space,
    decreases j,
{
    if j > 0 && j <= pieces.len() && pieces[j - 1].kind == PieceKind::Space {
        lemma_prev_ns_range(pieces, j - 1);
    }
}

pub proof fn lemma_next_from_range(pieces: Seq<PieceView>, k: int)
    ensures
        next_from(pieces, k) matches Some(x) ==> 0 <= k <= x < pieces.len() && pieces[x].kind
            != PieceKind::Space,
    decreases pieces.len() - k,
{
    if 0 <= k < pieces.len() && pieces[k].kind == PieceKind::Space {
        lemma_next_from_range(pieces, k + 1);
    }
}

pub open spec fn is_name_at(pieces: Seq<PieceView>, o: Option<int>) -> bool {
    match o {
        Some(k) => pieces[k].kind == PieceKind::Name,
        None => false,
    }
}

fn prev_nonspace(pieces: &Vec<Piece>, j: usize) -> (r: Option<usize>)
    requires
        j <= pieces@.len(),
    ensures
        r == (match prev_ns(pieces_view(pieces@), j as int) {
            Some(k) => Some(k as usize),
            None => None::<usize>,
        }),
        r matches Some(k) ==> k < j,
{
    let ghost pv = pieces_view(pieces@);
    proof {
        lemma_prev_ns_range(pv, j as int);
    }
    let mut k = j;
    while k > 0
        invariant
            k <= j <= pieces@.len(),
            pv == pieces_view(pieces@),
            prev_ns(pv, j as int) == prev_ns(pv, k as int),
        decreases k,
    {
        if pieces[k - 1].kind != PieceKind::Space {
            assert(pv[k - 1] == pieces@[k - 1]@);
            return Some(k - 1);
        }
        assert(pv[k - 1] == pieces@[k - 1]@);
        k -= 1;
    }
    None
}

fn next_nonspace(pieces: &Vec<Piece>, k: usize) -> (r: Option<usize>)
    requires
        k <= pieces@.len(),
    ensures
        r == (match next_from(pieces_view(pieces@), k as int) {
            Some(x) => Some(x as usize),
            None => None::<usize>,
        }),
        r matches Some(x) ==> k <= x < pieces@.len(),
{
    let ghost pv = pieces_view(pieces@);
    proof {
        lemma_next_from_range(pv, k as int);
    }
    let mut i = k;
    while i < pieces.len()
        invariant
            k <= i <= pieces@.len(),
            pv == pieces_view(pieces@),
            next_from(pv, k as int) == next_from(pv, i as int),
        decreases pieces@.len() - i,
    {
        assert(pv[i as int] == pieces@[i as int]@);
        if pieces[i].kind != PieceKind::Space {
            return Some(i);
        }
        i += 1;
    }
    None
}

/// A space the ROM stores and lists: any stored space except one inside a
/// numeric variable name, that is, with name pieces as its nearest
/// non-space neighbours on both sides.
pub open spec fn stored_space(pieces: Seq<PieceView>, i: int) -> bool {
    pieces[i].kind == PieceKind::Space && !(is_name_at(pieces, prev_ns(pieces, i)) && is_name_at(
        pieces,
        next_from(pieces, i + 1),
    ))
}

fn zx_stored_space(pieces: &Vec<Piece>, i: usize) -> (r: bool)
    requires
        i < pieces@.len(),
    ensures
        r == stored_space(pieces_view(pieces@), i as int),
{
    let ghost pv = pieces_view(pieces@);
    let n = pieces.len();
    proof {
        lemma_prev_ns_range(pv, i as int);
        lemma_next_from_range(pv, i + 1);
    }
    assert(pv[i as int] == pieces@[i as int]@);
    if pieces[i].kind != PieceKind::Space {
        return false;
    }
    let before = match prev_nonspace(pieces, i) {
        Some(k) => {
            assert(pv[k as int] == pieces@[k as int]@);
            pieces[k].kind == PieceKind::Name
        },
        None => false,
    };
    assert(before == is_name_at(pv, prev_ns(pv, i as int)));
    let after = match next_nonspace(pieces, i + 1) {
        Some(k) => {
            assert(pv[k as int] == pieces@[k as int]@);
            pieces[k].kind == PieceKind::Name
        },
        None => false,
    };
    assert(after == is_name_at(pv, next_from(pv, i + 1)));
    !(before && after)
}

// --- Spectrum ---------------------------------------------------------------------------

/// LET, FOR, NEXT, INPUT, READ and DIM: the keywords after which the ROM
/// reads a variable name.
pub open spec fn zx_name_taker(t: u8) -> bool {
    t == 0xF1 || t == 0xEB || t == 0xF3 || t == 0xEE || t == 0xE3 || t == 0xE9
}

/// THEN, after which the ROM reads a new statement.
pub const ZX_THEN: u8 = 0xCB;

/// DEF FN, the lowest statement keyword: a statement whose first code is
/// below it stops with report C.
pub const ZX_FIRST_STATEMENT: u8 = 0xCE;

/// Whether the text is one of the Spectrum's keyword texts.
pub open spec fn is_zx_keyword_name(s: Seq<char>) -> bool {
    exists|k: int| 0 <= k < 91 && spec_zx_keyword_name(k) == s
}

pub open spec fn has_space(s: Seq<char>) -> bool {
    exists|i: int| 0 <= i < s.len() && s[i] == ' '
}

/// The first keyword, from index `k` on, spelt with a space (`GO TO`) whose
/// letters begin the name's (`GOTO 10`).
pub open spec fn spelt_keyword_from(name: Seq<char>, k: int) -> Option<int>
    decreases 91 - k,
{
    if k < 0 || k >= 91 {
        None
    } else if has_space(spec_zx_keyword_name(k)) && starts_with(
        no_spaces(upper(name)),
        no_spaces(spec_zx_keyword_name(k)),
    ) {
        Some(k)
    } else {
        spelt_keyword_from(name, k + 1)
    }
}

proof fn lemma_spelt_keyword_range(name: Seq<char>, k: int)
    ensures
        spelt_keyword_from(name, k) matches Some(x) ==> 0 <= x < 91,
    decreases 91 - k,
{
    if 0 <= k < 91 {
        lemma_spelt_keyword_range(name, k + 1);
    }
}

/// What `statement-keyword` says of the piece that starts a refused
/// statement.
pub open spec fn statement_message(p: PieceView) -> Seq<char> {
    if p.kind == PieceKind::Name {
        match spelt_keyword_from(p.text, 0) {
            Some(k) => "`"@ + p.text + "` is not a keyword; the Spectrum spells it `"@
                + spec_zx_keyword_name(k) + "`"@,
            None => "`"@ + p.text + "` is not a keyword; a statement that assigns needs `LET`"@,
        }
    } else {
        "a statement must start with a keyword such as `PRINT` or `LET`"@
    }
}

/// The `stored-space` message.
pub open spec fn stored_space_message() -> Seq<char> {
    "a space here is stored and listed; the Spectrum's own display spacing needs none"@
}

/// The `string-var-name` message.
pub open spec fn string_var_message(text: Seq<char>) -> Seq<char> {
    "string variables are one letter and $ (`a$`); the ROM rejects `"@ + text + "`"@
}

/// The `keyword-var-name` message.
pub open spec fn keyword_var_message(text: Seq<char>) -> Seq<char> {
    "`"@ + text + "` is also a keyword; elsewhere in the program the tokeniser may store it as one"@
}

/// A Spectrum line read so far: its findings, the keyword before the
/// current piece (ignoring spaces), whether the next piece starts a
/// statement, and whether a statement was refused.
pub struct ZxScan {
    pub findings: Seq<FindingView>,
    /// The findings other than `stored-space`, reported instead when a
    /// statement is refused (the line is kept as written).
    pub kept: Seq<FindingView>,
    pub last_keyword: Option<u8>,
    pub at_start: bool,
    pub refused: bool,
}

/// The 1-based source column of piece `i`.
pub open spec fn piece_column(l: LexView, i: int) -> int {
    l.body_column + l.pieces[i].column + 1
}

/// Whether piece `i` starts a statement the ROM refuses: the first piece
/// of a statement (not a space, not a `:`) that is not a statement keyword.
pub open spec fn zx_refuses(s: ZxScan, p: PieceView) -> bool {
    &&& s.at_start
    &&& p.kind != PieceKind::Space
    &&& !(p.kind == PieceKind::Punct && p.text == ":"@)
    &&& !(p.kind matches PieceKind::Keyword(t) && t >= ZX_FIRST_STATEMENT)
}

/// The Spectrum rules on piece `i`.
pub open spec fn zx_step(line: usize, l: LexView, s: ZxScan, i: int) -> ZxScan {
    let p = l.pieces[i];
    let col = piece_column(l, i);
    let f1 = if stored_space(l.pieces, i) {
        seq![finding(line, col, "stored-space"@, stored_space_message())]
    } else {
        seq![]
    };
    let refused = zx_refuses(s, p);
    let f2 = if refused {
        seq![finding(line, col, "statement-keyword"@, statement_message(p))]
    } else {
        seq![]
    };
    let f3 = if p.kind == PieceKind::Name && ends_with(p.text, "$"@) && p.text.len() > 2 {
        seq![finding(line, col, "string-var-name"@, string_var_message(p.text))]
    } else {
        seq![]
    };
    let f4 = if p.kind == PieceKind::Name && (s.last_keyword matches Some(k) && zx_name_taker(k))
        && is_zx_keyword_name(upper(p.text)) {
        seq![finding(line, col, "keyword-var-name"@, keyword_var_message(p.text))]
    } else {
        seq![]
    };
    ZxScan {
        findings: s.findings + f1 + f2 + f3 + f4,
        kept: s.kept + f2 + f3 + f4,
        last_keyword: match p.kind {
            PieceKind::Space => s.last_keyword,
            PieceKind::Keyword(t) => Some(t),
            _ => None,
        },
        at_start: if p.kind == PieceKind::Punct && p.text == ":"@ {
            true
        } else if p.kind == PieceKind::Keyword(ZX_THEN) {
            true
        } else if p.kind == PieceKind::Space {
            s.at_start
        } else {
            false
        },
        refused: s.refused || refused,
    }
}

/// The Spectrum rules on the first `n` pieces of a line.
pub open spec fn zx_scan(line: usize, l: LexView, n: nat) -> ZxScan
    decreases n,
{
    if n == 0 {
        ZxScan { findings: seq![], kept: seq![], last_keyword: None, at_start: true, refused: false }
    } else {
        zx_step(line, l, zx_scan(line, l, (n - 1) as nat), n - 1)
    }
}

fn is_zx_keyword(s: &[char]) -> (r: bool)
    ensures
        r == is_zx_keyword_name(s@),
{
    let mut k: usize = 0;
    while k < 91
        invariant
            k <= 91,
            forall|j: int| 0 <= j < k ==> spec_zx_keyword_name(j) != s@,
        decreases 91 - k,
    {
        let kw = chars_of(zx_keyword_name(k));
        if seq_eq(kw.as_slice(), s) {
            return true;
        }
        k += 1;
    }
    false
}

fn has_space_chars(s: &[char]) -> (r: bool)
    ensures
        r == has_space(s@),
{
    let mut i: usize = 0;
    while i < s.len()
        invariant
            i <= s@.len(),
            forall|j: int| 0 <= j < i ==> s@[j] != ' ',
        decreases s@.len() - i,
    {
        if s[i] == ' ' {
            return true;
        }
        i += 1;
    }
    false
}

fn spelt_keyword(name: &[char]) -> (r: Option<usize>)
    ensures
        r == (match spelt_keyword_from(name@, 0) {
            Some(k) => Some(k as usize),
            None => None::<usize>,
        }),
        r matches Some(k) ==> k < 91,
        spelt_keyword_from(name@, 0) matches Some(x) ==> 0 <= x < 91,
{
    proof {
        lemma_spelt_keyword_range(name@, 0);
    }
    let up = upper_chars(name);
    let squeezed = no_spaces_chars(up.as_slice());
    let mut k: usize = 0;
    while k < 91
        invariant
            k <= 91,
            squeezed@ == no_spaces(upper(name@)),
            spelt_keyword_from(name@, 0) == spelt_keyword_from(name@, k as int),
        decreases 91 - k,
    {
        let kw = chars_of(zx_keyword_name(k));
        let kw_squeezed = no_spaces_chars(kw.as_slice());
        if has_space_chars(kw.as_slice()) && starts_with_chars(squeezed.as_slice(), kw_squeezed.as_slice()) {
            return Some(k);
        }
        k += 1;
    }
    None
}

fn quote_then(text: &[char], tail: &str) -> (m: Vec<char>)
    ensures
        m@ == "`"@ + text@ + tail@,
{
    let mut m: Vec<char> = Vec::new();
    push_str(&mut m, "`");
    push_chars(&mut m, text);
    push_str(&mut m, tail);
    m
}

fn statement_message_chars(p: &Piece) -> (m: Vec<char>)
    ensures
        m@ == statement_message(p@),
{
    if p.kind == PieceKind::Name {
        let text = chars_of(p.text.as_str());
        match spelt_keyword(text.as_slice()) {
            Some(k) => {
                let mut m = quote_then(text.as_slice(), "` is not a keyword; the Spectrum spells it `");
                push_str(&mut m, zx_keyword_name(k));
                push_str(&mut m, "`");
                m
            },
            None => quote_then(text.as_slice(), "` is not a keyword; a statement that assigns needs `LET`"),
        }
    } else {
        chars_of("a statement must start with a keyword such as `PRINT` or `LET`")
    }
}

/// The Spectrum rules on one lexed line: appends its findings, and those
/// other than `stored-space` to `kept`, and says whether a statement was
/// refused.
fn zx_line(line: usize, l: &LexLine, findings: &mut Vec<Finding>, kept: &mut Vec<Finding>) -> (refused: bool)
    requires
        lex_fits(l@),
    ensures
        findings_view(final(findings)@) == findings_view(old(findings)@) + zx_scan(
            line,
            l@,
            l@.pieces.len(),
        ).findings,
        findings_view(final(kept)@) == findings_view(old(kept)@) + zx_scan(line, l@, l@.pieces.len()).kept,
        refused == zx_scan(line, l@, l@.pieces.len()).refused,
{
    let ghost lv = l@;
    let ghost start = findings_view(findings@);
    let ghost kstart = findings_view(kept@);
    let mut last_keyword: Option<u8> = None;
    let mut at_start = true;
    let mut refused = false;
    let mut i: usize = 0;
    assert(start + zx_scan(line, lv, 0).findings =~= start);
    assert(kstart + zx_scan(line, lv, 0).kept =~= kstart);
    while i < l.pieces.len()
        invariant
            lv == l@,
            lex_fits(lv),
            i <= l.pieces@.len(),
            findings_view(findings@) == start + zx_scan(line, lv, i as nat).findings,
            findings_view(kept@) == kstart + zx_scan(line, lv, i as nat).kept,
            last_keyword == zx_scan(line, lv, i as nat).last_keyword,
            at_start == zx_scan(line, lv, i as nat).at_start,
            refused == zx_scan(line, lv, i as nat).refused,
        decreases l.pieces@.len() - i,
    {
        let ghost s = zx_scan(line, lv, i as nat);
        let ghost before = findings_view(findings@);
        let p = &l.pieces[i];
        assert(lv.pieces[i as int] == p@);
        assert(lv.body_column + p.column < isize::MAX);
        let col = l.body_column + p.column + 1;
        if zx_stored_space(&l.pieces, i) {
            push_finding(findings, line, col, "stored-space", chars_of("a space here is stored and listed; the Spectrum's own display spacing needs none"));
        }
        let is_colon = p.kind == PieceKind::Punct && str_is(p.text.as_str(), ":");
        let statement_kw = match p.kind {
            PieceKind::Keyword(t) => t >= ZX_FIRST_STATEMENT,
            _ => false,
        };
        let refuses = at_start && p.kind != PieceKind::Space && !is_colon && !statement_kw;
        if refuses {
            push_finding(findings, line, col, "statement-keyword", statement_message_chars(p));
            push_finding(kept, line, col, "statement-keyword", statement_message_chars(p));
        }
        if p.kind == PieceKind::Name {
            let text = chars_of(p.text.as_str());
            if crate::text::has_suffix(text.as_slice(), "$") && text.len() > 2 {
                push_finding(findings, line, col, "string-var-name", quote_then_msg(text.as_slice()));
                push_finding(kept, line, col, "string-var-name", quote_then_msg(text.as_slice()));
            }
            let takes = match last_keyword {
                Some(k) => k == 0xF1 || k == 0xEB || k == 0xF3 || k == 0xEE || k == 0xE3 || k == 0xE9,
                None => false,
            };
            if takes {
                let up = upper_chars(text.as_slice());
                if is_zx_keyword(up.as_slice()) {
                    push_finding(findings, line, col, "keyword-var-name", quote_then(text.as_slice(), "` is also a keyword; elsewhere in the program the tokeniser may store it as one"));
                    push_finding(kept, line, col, "keyword-var-name", quote_then(text.as_slice(), "` is also a keyword; elsewhere in the program the tokeniser may store it as one"));
                }
            }
        }
        match p.kind {
            PieceKind::Space => {},
            PieceKind::Keyword(t) => {
                last_keyword = Some(t);
            },
            _ => {
                last_keyword = None;
            },
        }
        at_start = if is_colon {
            true
        } else if p.kind == PieceKind::Keyword(ZX_THEN) {
            true
        } else if p.kind == PieceKind::Space {
            at_start
        } else {
            false
        };
        refused = refused || refuses;
        assert(findings_view(findings@) =~= start + zx_scan(line, lv, (i + 1) as nat).findings);
        assert(findings_view(kept@) =~= kstart + zx_scan(line, lv, (i + 1) as nat).kept);
        i += 1;
    }
    refused
}

/// Whether a string slice holds exactly the given text.
fn str_is(s: &str, t: &str) -> (r: bool)
    ensures
        r == (s@ == t@),
{
    crate::text::str_eq(s, t)
}

fn quote_then_msg(text: &[char]) -> (m: Vec<char>)
    ensures
        m@ == string_var_message(text@),
{
    let mut m: Vec<char> = Vec::new();
    push_str(&mut m, "string variables are one letter and $ (`a$`); the ROM rejects `");
    push_chars(&mut m, text);
    push_str(&mut m, "`");
    m
}

// --- Commodore 64 ---------------------------------------------------------------------

/// The C64's DATA token.
pub const C64_DATA: u8 = 0x83;

/// The C64's FN token.
pub const C64_FN: u8 = 0xA5;

/// The variables seen so far in a C64 listing: each key as BASIC V2 tells
/// variables apart, with the first name spelt that way, in the order first
/// seen; and the key-and-name pairs already reported.
pub struct C64Names {
    pub firsts: Seq<(Seq<char>, Seq<char>)>,
    pub reported: Seq<Seq<char>>,
}

/// The first name seen with a key.
pub open spec fn lookup(firsts: Seq<(Seq<char>, Seq<char>)>, key: Seq<char>) -> Option<Seq<char>>
    decreases firsts.len(),
{
    if firsts.len() == 0 {
        None
    } else if firsts[0].0 == key {
        Some(firsts[0].1)
    } else {
        lookup(firsts.drop_first(), key)
    }
}

pub open spec fn is_ascii_alpha(c: char) -> bool {
    ('A' <= c && c <= 'Z') || ('a' <= c && c <= 'z')
}

/// `keyword-in-name`: the word keyword at `i` has a name piece directly on
/// both sides, as `SCORE` lexes to `SC`, OR, `E`.
pub open spec fn keyword_in_name(pieces: Seq<PieceView>, i: int) -> bool {
    &&& pieces[i].text.len() > 0
    &&& is_ascii_alpha(pieces[i].text[0])
    &&& i >= 1
    &&& i + 1 < pieces.len()
    &&& pieces[i - 1].kind == PieceKind::Name
    &&& pieces[i + 1].kind == PieceKind::Name
}

/// The `keyword-in-name` message, with the spaced reading.
pub open spec fn keyword_in_name_message(left: Seq<char>, word: Seq<char>, right: Seq<char>) -> Seq<
    char,
> {
    "`"@ + left + word + right + "` has the keyword "@ + word
        + " inside it; BASIC V2 stores it as a token, so this is not one variable (space it if you meant "@
        + left + " "@ + word + " "@ + right + ")"@
}

/// The text without its trailing `$`s.
pub open spec fn trim_dollars(s: Seq<char>) -> Seq<char>
    decreases s.len(),
{
    if s.len() > 0 && s.last() == '$' {
        trim_dollars(s.drop_last())
    } else {
        s
    }
}

/// The first two characters (BASIC V2 keeps no more of a name).
pub open spec fn stem(name: Seq<char>) -> Seq<char> {
    let t = trim_dollars(name);
    if t.len() < 2 {
        t
    } else {
        t.take(2)
    }
}

/// The key BASIC V2 tells the name at `i` apart by (its stem, its type
/// suffix, and whether it is an array or an `FN` name), and the name as
/// spelt (upper case, with `%` for an integer).
pub open spec fn clash_key(pieces: Seq<PieceView>, i: int) -> (Seq<char>, Seq<char>) {
    let name = upper(pieces[i].text);
    let integer = i + 1 < pieces.len() && pieces[i + 1].kind == PieceKind::Punct && pieces[i
        + 1].text == "%"@;
    let suffix = if ends_with(name, "$"@) {
        "$"@
    } else if integer {
        "%"@
    } else {
        Seq::<char>::empty()
    };
    let after = if integer {
        i + 2
    } else {
        i + 1
    };
    let after_min = if after < pieces.len() {
        after
    } else {
        pieces.len() as int
    };
    let array = match next_from(pieces, after_min) {
        Some(k) => pieces[k].text == "("@,
        None => false,
    };
    let function = match prev_ns(pieces, i) {
        Some(k) => pieces[k].kind == PieceKind::Keyword(C64_FN),
        None => false,
    };
    let kind = if function {
        "fn"@
    } else if array {
        "array"@
    } else {
        Seq::<char>::empty()
    };
    (stem(name) + suffix + kind, name + if integer {
        "%"@
    } else {
        Seq::<char>::empty()
    })
}

/// The `var-name-clash` message.
pub open spec fn clash_message(spelt: Seq<char>, first: Seq<char>) -> Seq<char> {
    "`"@ + spelt + "` is the same variable as `"@ + first
        + "`; BASIC V2 reads only the first two characters"@
}

/// `var-name-clash`: the first name seen for a key stands; the first use
/// of each different name with the same key is reported.
pub open spec fn c64_clash(names: C64Names, key: Seq<char>, spelt: Seq<char>) -> (
    Option<Seq<char>>,
    C64Names,
) {
    match lookup(names.firsts, key) {
        None => (None, C64Names { firsts: names.firsts.push((key, spelt)), reported: names.reported }),
        Some(first) => if first == spelt || names.reported.contains(key + spelt) {
            (None, names)
        } else {
            (
                Some(clash_message(spelt, first)),
                C64Names { firsts: names.firsts, reported: names.reported.push(key + spelt) },
            )
        },
    }
}

/// A C64 line read so far: its findings, whether DATA values are being
/// read, and the variables seen.
pub struct C64Scan {
    pub findings: Seq<FindingView>,
    pub in_data: bool,
    pub names: C64Names,
}

/// The C64 rules on piece `i`.
pub open spec fn c64_step(line: usize, l: LexView, s: C64Scan, i: int) -> C64Scan {
    let p = l.pieces[i];
    if p.kind == PieceKind::Keyword(C64_DATA) {
        C64Scan { findings: s.findings, in_data: true, names: s.names }
    } else if p.kind == PieceKind::Punct && p.text == ":"@ {
        C64Scan { findings: s.findings, in_data: false, names: s.names }
    } else if p.kind is Keyword {
        if keyword_in_name(l.pieces, i) {
            C64Scan {
                findings: s.findings.push(
                    finding(
                        line,
                        piece_column(l, i - 1),
                        "keyword-in-name"@,
                        keyword_in_name_message(
                            upper(l.pieces[i - 1].text),
                            upper(p.text),
                            upper(l.pieces[i + 1].text),
                        ),
                    ),
                ),
                in_data: s.in_data,
                names: s.names,
            }
        } else {
            s
        }
    } else if p.kind == PieceKind::Name && !s.in_data {
        let (key, spelt) = clash_key(l.pieces, i);
        let (m, names) = c64_clash(s.names, key, spelt);
        C64Scan {
            findings: match m {
                Some(msg) => s.findings.push(
                    finding(line, piece_column(l, i), "var-name-clash"@, msg),
                ),
                None => s.findings,
            },
            in_data: s.in_data,
            names,
        }
    } else {
        s
    }
}

/// The C64 rules on the first `n` pieces of a line.
pub open spec fn c64_scan(line: usize, l: LexView, names: C64Names, n: nat) -> C64Scan
    decreases n,
{
    if n == 0 {
        C64Scan { findings: seq![], in_data: false, names }
    } else {
        c64_step(line, l, c64_scan(line, l, names, (n - 1) as nat), n - 1)
    }
}

/// The variables seen so far, as kept while a listing is checked.
struct Names {
    firsts: Vec<(Vec<char>, Vec<char>)>,
    reported: Vec<Vec<char>>,
}

impl View for Names {
    type V = C64Names;

    closed spec fn view(&self) -> C64Names {
        C64Names {
            firsts: self.firsts@.map_values(|e: (Vec<char>, Vec<char>)| (e.0@, e.1@)),
            reported: self.reported@.map_values(|r: Vec<char>| r@),
        }
    }
}

impl Names {
    fn new() -> (n: Names)
        ensures
            n@.firsts.len() == 0,
            n@.reported.len() == 0,
    {
        let n = Names { firsts: Vec::new(), reported: Vec::new() };
        assert(n@.firsts =~= Seq::<(Seq<char>, Seq<char>)>::empty());
        assert(n@.reported =~= Seq::<Seq<char>>::empty());
        n
    }

    fn lookup(&self, key: &[char]) -> (r: Option<Vec<char>>)
        ensures
            match r {
                Some(v) => lookup(self@.firsts, key@) == Some(v@),
                None => lookup(self@.firsts, key@) is None,
            },
    {
        let ghost f = self@.firsts;
        let mut i: usize = 0;
        assert(f.skip(0) =~= f);
        while i < self.firsts.len()
            invariant
                f == self@.firsts,
                i <= f.len(),
                f.len() == self.firsts@.len(),
                lookup(f, key@) == lookup(f.skip(i as int), key@),
            decreases f.len() - i,
        {
            assert(f.skip(i as int)[0] == f[i as int]);
            assert(f[i as int] == (self.firsts@[i as int].0@, self.firsts@[i as int].1@));
            if seq_eq(self.firsts[i].0.as_slice(), key) {
                let v = crate::text::slice_chars(self.firsts[i].1.as_slice(), 0, self.firsts[i].1.len());
                assert(v@ =~= self.firsts@[i as int].1@);
                return Some(v);
            }
            assert(f.skip(i as int).drop_first() =~= f.skip(i + 1));
            i += 1;
        }
        assert(f.skip(i as int).len() == 0);
        None
    }

    fn was_reported(&self, r: &[char]) -> (b: bool)
        ensures
            b == self@.reported.contains(r@),
    {
        let ghost rs = self@.reported;
        let mut i: usize = 0;
        while i < self.reported.len()
            invariant
                rs == self@.reported,
                rs.len() == self.reported@.len(),
                i <= rs.len(),
                forall|j: int| 0 <= j < i ==> rs[j] != r@,
            decreases rs.len() - i,
        {
            assert(rs[i as int] == self.reported@[i as int]@);
            if seq_eq(self.reported[i].as_slice(), r) {
                return true;
            }
            i += 1;
        }
        false
    }

    fn add_first(&mut self, key: Vec<char>, spelt: Vec<char>)
        ensures
            final(self)@ == (C64Names {
                firsts: old(self)@.firsts.push((key@, spelt@)),
                reported: old(self)@.reported,
            }),
    {
        let ghost before = self@;
        self.firsts.push((key, spelt));
        assert(self@.firsts =~= before.firsts.push((key@, spelt@)));
        assert(self@.reported =~= before.reported);
    }

    fn add_reported(&mut self, r: Vec<char>)
        ensures
            final(self)@ == (C64Names {
                firsts: old(self)@.firsts,
                reported: old(self)@.reported.push(r@),
            }),
    {
        let ghost before = self@;
        self.reported.push(r);
        assert(self@.firsts =~= before.firsts);
        assert(self@.reported =~= before.reported.push(r@));
    }
}

fn c64_keyword_in_name(pieces: &Vec<Piece>, i: usize) -> (r: Option<Vec<char>>)
    requires
        i < pieces@.len(),
    ensures
        match r {
            Some(m) => keyword_in_name(pieces_view(pieces@), i as int) && m@
                == keyword_in_name_message(
                upper(pieces@[i - 1].text@),
                upper(pieces@[i as int].text@),
                upper(pieces@[i + 1].text@),
            ),
            None => !keyword_in_name(pieces_view(pieces@), i as int),
        },
{
    let ghost pv = pieces_view(pieces@);
    let n = pieces.len();
    assert(pv[i as int] == pieces@[i as int]@);
    let text = chars_of(pieces[i].text.as_str());
    if text.len() == 0 {
        return None;
    }
    let c = text[0];
    if !(('A' <= c && c <= 'Z') || ('a' <= c && c <= 'z')) {
        return None;
    }
    if i == 0 || i + 1 >= n {
        return None;
    }
    assert(pv[i - 1] == pieces@[i - 1]@);
    assert(pv[i + 1] == pieces@[i + 1]@);
    if pieces[i - 1].kind != PieceKind::Name || pieces[i + 1].kind != PieceKind::Name {
        return None;
    }
    let left = upper_chars(chars_of(pieces[i - 1].text.as_str()).as_slice());
    let word = upper_chars(text.as_slice());
    let right = upper_chars(chars_of(pieces[i + 1].text.as_str()).as_slice());
    let mut m: Vec<char> = Vec::new();
    push_str(&mut m, "`");
    push_chars(&mut m, left.as_slice());
    push_chars(&mut m, word.as_slice());
    push_chars(&mut m, right.as_slice());
    push_str(&mut m, "` has the keyword ");
    push_chars(&mut m, word.as_slice());
    push_str(&mut m, " inside it; BASIC V2 stores it as a token, so this is not one variable (space it if you meant ");
    push_chars(&mut m, left.as_slice());
    push_str(&mut m, " ");
    push_chars(&mut m, word.as_slice());
    push_str(&mut m, " ");
    push_chars(&mut m, right.as_slice());
    push_str(&mut m, ")");
    Some(m)
}

fn trim_dollars_chars(s: &[char]) -> (r: Vec<char>)
    ensures
        r@ == trim_dollars(s@),
{
    let mut n = s.len();
    assert(s@.take(n as int) =~= s@);
    while n > 0 && s[n - 1] == '$'
        invariant
            n <= s@.len(),
            trim_dollars(s@) == trim_dollars(s@.take(n as int)),
        decreases n,
    {
        assert(s@.take(n as int).drop_last() =~= s@.take(n - 1));
        n -= 1;
    }
    let r = crate::text::slice_chars(s, 0, n);
    assert(r@ =~= s@.take(n as int));
    r
}

fn clash_key_chars(pieces: &Vec<Piece>, i: usize) -> (r: (Vec<char>, Vec<char>))
    requires
        i < pieces@.len(),
    ensures
        (r.0@, r.1@) == clash_key(pieces_view(pieces@), i as int),
{
    let ghost pv = pieces_view(pieces@);
    let n = pieces.len();
    proof {
        reveal_strlit("%");
        reveal_strlit("$");
        reveal_strlit("(");
    }
    assert(pv[i as int] == pieces@[i as int]@);
    let name = upper_chars(chars_of(pieces[i].text.as_str()).as_slice());
    let integer = if i + 1 < n {
        assert(pv[i + 1] == pieces@[i + 1]@);
        pieces[i + 1].kind == PieceKind::Punct && str_is(pieces[i + 1].text.as_str(), "%")
    } else {
        false
    };
    let dollar = crate::text::has_suffix(name.as_slice(), "$");
    let after = if integer {
        i + 2
    } else {
        i + 1
    };
    let after_min = if after < n {
        after
    } else {
        n
    };
    let array = match next_nonspace(pieces, after_min) {
        Some(k) => {
            assert(pv[k as int] == pieces@[k as int]@);
            str_is(pieces[k].text.as_str(), "(")
        },
        None => false,
    };
    proof {
        lemma_next_from_range(pv, after_min as int);
        lemma_prev_ns_range(pv, i as int);
    }
    let function = match prev_nonspace(pieces, i) {
        Some(k) => {
            assert(pv[k as int] == pieces@[k as int]@);
            pieces[k].kind == PieceKind::Keyword(C64_FN)
        },
        None => false,
    };
    let trimmed = trim_dollars_chars(name.as_slice());
    let mut key = if trimmed.len() < 2 {
        trimmed
    } else {
        let t = crate::text::slice_chars(trimmed.as_slice(), 0, 2);
        assert(t@ =~= trimmed@.take(2));
        t
    };
    if dollar {
        push_str(&mut key, "$");
    } else if integer {
        push_str(&mut key, "%");
    }
    if function {
        push_str(&mut key, "fn");
    } else if array {
        push_str(&mut key, "array");
    }
    let mut spelt = name;
    if integer {
        push_str(&mut spelt, "%");
    }
    let ghost want = clash_key(pv, i as int);
    assert(key@ =~= want.0);
    assert(spelt@ =~= want.1);
    (key, spelt)
}

/// The C64 rules on one lexed line: appends its findings and updates the
/// variables seen.
fn c64_line(line: usize, l: &LexLine, names: &mut Names, findings: &mut Vec<Finding>)
    requires
        lex_fits(l@),
    ensures
        findings_view(final(findings)@) == findings_view(old(findings)@) + c64_scan(
            line,
            l@,
            old(names)@,
            l@.pieces.len(),
        ).findings,
        final(names)@ == c64_scan(line, l@, old(names)@, l@.pieces.len()).names,
{
    let ghost lv = l@;
    let ghost names0 = names@;
    let ghost start = findings_view(findings@);
    let mut in_data = false;
    let mut i: usize = 0;
    assert(start + c64_scan(line, lv, names0, 0).findings =~= start);
    while i < l.pieces.len()
        invariant
            lv == l@,
            lex_fits(lv),
            i <= l.pieces@.len(),
            findings_view(findings@) == start + c64_scan(line, lv, names0, i as nat).findings,
            in_data == c64_scan(line, lv, names0, i as nat).in_data,
            names@ == c64_scan(line, lv, names0, i as nat).names,
        decreases l.pieces@.len() - i,
    {
        let ghost s = c64_scan(line, lv, names0, i as nat);
        let p = &l.pieces[i];
        assert(lv.pieces[i as int] == p@);
        assert(lv.body_column + p.column < isize::MAX);
        match p.kind {
            PieceKind::Keyword(t) => {
                if t == C64_DATA {
                    in_data = true;
                } else {
                    match c64_keyword_in_name(&l.pieces, i) {
                        Some(m) => {
                            assert(lv.pieces[i - 1] == l.pieces@[i - 1]@);
                            assert(lv.body_column + l.pieces@[i - 1].column < isize::MAX);
                            let col = l.body_column + l.pieces[i - 1].column + 1;
                            push_finding(findings, line, col, "keyword-in-name", m);
                        },
                        None => {},
                    }
                }
            },
            PieceKind::Punct => {
                if str_is(p.text.as_str(), ":") {
                    in_data = false;
                }
            },
            PieceKind::Name => {
                if !in_data {
                    let (key, spelt) = clash_key_chars(&l.pieces, i);
                    let col = l.body_column + p.column + 1;
                    match names.lookup(key.as_slice()) {
                        None => {
                            names.add_first(key, spelt);
                        },
                        Some(first) => {
                            if !seq_eq(first.as_slice(), spelt.as_slice()) {
                                let mut both = key;
                                push_chars(&mut both, spelt.as_slice());
                                if !names.was_reported(both.as_slice()) {
                                    let mut m: Vec<char> = Vec::new();
                                    push_str(&mut m, "`");
                                    push_chars(&mut m, spelt.as_slice());
                                    push_str(&mut m, "` is the same variable as `");
                                    push_chars(&mut m, first.as_slice());
                                    push_str(&mut m, "`; BASIC V2 reads only the first two characters");
                                    names.add_reported(both);
                                    push_finding(findings, line, col, "var-name-clash", m);
                                }
                            }
                        },
                    }
                }
            },
            _ => {},
        }
        assert(findings_view(findings@) =~= start + c64_scan(line, lv, names0, (i + 1) as nat).findings);
        i += 1;
    }
}

// --- Whole listings -----------------------------------------------------------------------

/// The highest line number so far (0 before the first).
pub open spec fn seq_max(s: Seq<u16>) -> u16
    decreases s.len(),
{
    if s.len() == 0 {
        0
    } else {
        let m = seq_max(s.drop_last());
        if s.last() > m {
            s.last()
        } else {
            m
        }
    }
}

/// `line-order`: walking the lines in source order, a number already seen
/// or lower than the highest so far.
pub open spec fn line_order_findings(numbers: Seq<u16>, number: u16, line: usize) -> Seq<FindingView> {
    if numbers.contains(number) {
        seq![
            finding(
                line,
                1,
                "line-order"@,
                "line "@ + decimal(number as nat)
                    + " appears more than once; the later line replaces the earlier"@,
            ),
        ]
    } else if number < seq_max(numbers) {
        seq![
            finding(
                line,
                1,
                "line-order"@,
                "line "@ + decimal(number as nat) + " comes after line "@ + decimal(
                    seq_max(numbers) as nat,
                ) + "; the machine stores lines in number order"@,
            ),
        ]
    } else {
        seq![]
    }
}

/// The machine's dialect reading one line.
pub open spec fn lex_spec(m: Machine, raw: Seq<char>) -> Result<LexView, (usize, Seq<char>)> {
    match m {
        Machine::SinclairZxSpectrum => spec_zx_lex_line(raw),
        Machine::CommodoreC64 => spec_c64_lex_line(raw),
    }
}

/// The machine's LIST of one stored line.
pub open spec fn list_spec(m: Machine, number: u16, body: Seq<u8>) -> Seq<char> {
    match m {
        Machine::SinclairZxSpectrum => spec_zx_list_line(number, body),
        Machine::CommodoreC64 => spec_c64_list_line(number, body),
    }
}

/// The stored bytes of the first `n` pieces.
pub open spec fn all_bytes(pieces: Seq<PieceView>, n: nat) -> Seq<u8>
    decreases n,
{
    if n == 0 {
        seq![]
    } else {
        all_bytes(pieces, (n - 1) as nat) + pieces[n - 1].bytes
    }
}

/// The stored bytes of the first `n` pieces, leaving out the spaces
/// `stored-space` flags.
pub open spec fn kept_bytes(pieces: Seq<PieceView>, n: nat) -> Seq<u8>
    decreases n,
{
    if n == 0 {
        seq![]
    } else {
        kept_bytes(pieces, (n - 1) as nat) + if stored_space(pieces, n - 1) {
            Seq::<u8>::empty()
        } else {
            pieces[n - 1].bytes
        }
    }
}

/// The `listing-form` message for a blank line.
pub open spec fn blank_line_message() -> Seq<char> {
    "LIST never shows a blank line; remove it"@
}

/// A listing checked so far: its findings, the line numbers read, and (on
/// the C64) the variables seen.
pub struct LintState {
    pub findings: Seq<FindingView>,
    pub numbers: Seq<u16>,
    pub names: C64Names,
}

/// One source line checked: a blank line is a `listing-form` finding; any
/// other is lexed (its error names the line) and gets, in this order, a
/// `listing-form` finding when LIST would show it otherwise (unless the ROM
/// refuses one of its statements), a `line-order` finding, and the
/// machine's rules piece by piece (without `stored-space` on a line the
/// ROM refuses, as the line is kept as written).
pub open spec fn lint_line(m: Machine, st: LintState, raw: Seq<char>, index: int) -> Result<
    LintState,
    (usize, Seq<char>),
> {
    let line = (index + 1) as usize;
    if all_ws(raw) {
        Ok(
            LintState {
                findings: st.findings.push(
                    finding(line, 1, "listing-form"@, blank_line_message()),
                ),
                numbers: st.numbers,
                names: st.names,
            },
        )
    } else {
        match lex_spec(m, raw) {
            Err(e) => Err((line, e.1)),
            Ok(l) => {
                let n = l.pieces.len();
                let refused = m == Machine::SinclairZxSpectrum && zx_scan(line, l, n).refused;
                let rules = match m {
                    Machine::SinclairZxSpectrum => if refused {
                        zx_scan(line, l, n).kept
                    } else {
                        zx_scan(line, l, n).findings
                    },
                    Machine::CommodoreC64 => c64_scan(line, l, st.names, n).findings,
                };
                let names = match m {
                    Machine::SinclairZxSpectrum => st.names,
                    Machine::CommodoreC64 => c64_scan(line, l, st.names, n).names,
                };
                let listed = trim_end(list_spec(m, l.number, all_bytes(l.pieces, n)));
                let form = if trim_end(raw) != listed && !refused {
                    seq![finding(line, 1, "listing-form"@, "LIST shows `"@ + listed + "`"@)]
                } else {
                    seq![]
                };
                Ok(
                    LintState {
                        findings: st.findings + form + line_order_findings(
                            st.numbers,
                            l.number,
                            line,
                        ) + rules,
                        numbers: st.numbers.push(l.number),
                        names,
                    },
                )
            },
        }
    }
}

/// The first `n` lines checked, or the first unreadable line's error.
pub open spec fn lint_lines(m: Machine, ls: Seq<Seq<char>>, n: nat) -> Result<
    LintState,
    (usize, Seq<char>),
>
    decreases n,
{
    if n == 0 {
        Ok(LintState { findings: seq![], numbers: seq![], names: C64Names { firsts: seq![], reported: seq![] } })
    } else {
        match lint_lines(m, ls, (n - 1) as nat) {
            Err(e) => Err(e),
            Ok(st) => lint_line(m, st, ls[n - 1], n - 1),
        }
    }
}

/// Every finding for a listing, line by line, or the error of the first
/// line the dialect cannot read.
pub open spec fn check_spec(m: Machine, source: Seq<char>) -> Result<Seq<FindingView>, (usize, Seq<char>)> {
    match lint_lines(m, lines(source), lines(source).len()) {
        Ok(st) => Ok(st.findings),
        Err(e) => Err(e),
    }
}

/// A listing mended so far: the mended text, and the source with each
/// line's trailing whitespace removed and one newline after each line.
pub struct FixState {
    pub fixed: Seq<char>,
    pub normalised: Seq<char>,
}

/// One source line mended: a blank line is dropped; any other is lexed and
/// replaced by its listed form (for the Spectrum, after removing the spaces
/// `stored-space` flags), except that a Spectrum line the ROM refuses to run
/// is kept as written.
pub open spec fn fix_line(m: Machine, st: FixState, raw: Seq<char>, index: int) -> Result<
    FixState,
    (usize, Seq<char>),
> {
    let r = trim_end(raw);
    let line = (index + 1) as usize;
    let normalised = st.normalised + r + "\n"@;
    if all_ws(r) {
        Ok(FixState { fixed: st.fixed, normalised })
    } else {
        match lex_spec(m, r) {
            Err(e) => Err((line, e.1)),
            Ok(l) => {
                let n = l.pieces.len();
                let text = match m {
                    Machine::SinclairZxSpectrum => if zx_scan(line, l, n).refused {
                        r
                    } else {
                        trim_end(spec_zx_list_line(l.number, kept_bytes(l.pieces, n)))
                    },
                    Machine::CommodoreC64 => trim_end(
                        spec_c64_list_line(l.number, all_bytes(l.pieces, n)),
                    ),
                };
                Ok(FixState { fixed: st.fixed + text + "\n"@, normalised })
            },
        }
    }
}

/// The first `n` lines mended, or the first unreadable line's error.
pub open spec fn fix_lines(m: Machine, ls: Seq<Seq<char>>, n: nat) -> Result<
    FixState,
    (usize, Seq<char>),
>
    decreases n,
{
    if n == 0 {
        Ok(FixState { fixed: seq![], normalised: seq![] })
    } else {
        match fix_lines(m, ls, (n - 1) as nat) {
            Err(e) => Err(e),
            Ok(st) => fix_line(m, st, ls[n - 1], n - 1),
        }
    }
}

/// The mended listing, or `None` when it equals the normalised source.
pub open spec fn fix_spec(m: Machine, source: Seq<char>) -> Result<Option<Seq<char>>, (usize, Seq<char>)> {
    match fix_lines(m, lines(source), lines(source).len()) {
        Ok(st) => Ok(
            if st.fixed != st.normalised {
                Some(st.fixed)
            } else {
                None
            },
        ),
        Err(e) => Err(e),
    }
}

// --- Position order ---------------------------------------------------------------------

/// A finding at or before another: on an earlier line, or on the same line
/// at or left of its column.
pub open spec fn finding_le(a: FindingView, b: FindingView) -> bool {
    a.line < b.line || (a.line == b.line && a.column <= b.column)
}

/// Findings in position order: by line, then by column.
pub open spec fn in_position_order(fs: Seq<FindingView>) -> bool {
    forall|a: int, b: int| 0 <= a < b < fs.len() ==> finding_le(#[trigger] fs[a], #[trigger] fs[b])
}

/// Findings all on one line, each from column 1 up to `hi`.
pub open spec fn on_line_within(fs: Seq<FindingView>, line: usize, hi: int) -> bool {
    forall|k: int| 0 <= k < fs.len() ==> (#[trigger] fs[k]).line == line && 1 <= fs[k].column <= hi
}

/// Findings all at one place.
pub open spec fn all_at(fs: Seq<FindingView>, line: usize, column: int) -> bool {
    forall|k: int| 0 <= k < fs.len() ==> (#[trigger] fs[k]).line == line && fs[k].column == column
}

/// The rightmost column the first `n` pieces' findings can stand at.
pub open spec fn scan_reach(l: LexView, n: nat) -> int {
    if n == 0 {
        1
    } else {
        piece_column(l, n - 1)
    }
}

proof fn lemma_ordered_concat(a: Seq<FindingView>, b: Seq<FindingView>)
    requires
        in_position_order(a),
        in_position_order(b),
        forall|x: int, y: int| 0 <= x < a.len() && 0 <= y < b.len() ==> finding_le(#[trigger] a[x], #[trigger] b[y]),
    ensures
        in_position_order(a + b),
{
    assert forall|x: int, y: int| 0 <= x < y < (a + b).len() implies finding_le(
        #[trigger] (a + b)[x],
        #[trigger] (a + b)[y],
    ) by {
        if y < a.len() {
            assert((a + b)[x] == a[x] && (a + b)[y] == a[y]);
        } else if x >= a.len() {
            assert((a + b)[x] == b[x - a.len()] && (a + b)[y] == b[y - a.len()]);
        } else {
            assert((a + b)[x] == a[x] && (a + b)[y] == b[y - a.len()]);
        }
    }
}

proof fn lemma_append_at(fs: Seq<FindingView>, block: Seq<FindingView>, line: usize, hi: int, c: int, hi2: int)
    requires
        in_position_order(fs),
        on_line_within(fs, line, hi),
        hi <= c <= hi2,
        1 <= c,
        all_at(block, line, c),
    ensures
        in_position_order(fs + block),
        on_line_within(fs + block, line, hi2),
{
    assert forall|x: int, y: int| 0 <= x < y < block.len() implies finding_le(#[trigger] block[x], #[trigger] block[y]) by {}
    assert forall|x: int, y: int| 0 <= x < fs.len() && 0 <= y < block.len() implies finding_le(
        #[trigger] fs[x],
        #[trigger] block[y],
    ) by {}
    lemma_ordered_concat(fs, block);
    assert forall|k: int| 0 <= k < (fs + block).len() implies (#[trigger] (fs + block)[k]).line == line && 1 <= (fs
        + block)[k].column <= hi2 by {
        if k < fs.len() {
            assert((fs + block)[k] == fs[k]);
        } else {
            assert((fs + block)[k] == block[k - fs.len()]);
        }
    }
}

/// The column of piece `n - 1` lies past every earlier finding's reach and
/// fits a `usize`.
proof fn lemma_piece_column_step(l: LexView, n: nat)
    requires
        lex_fits(l),
        lex_in_order(l),
        1 <= n <= l.pieces.len(),
    ensures
        1 <= scan_reach(l, (n - 1) as nat) <= piece_column(l, n - 1) <= usize::MAX,
        (piece_column(l, n - 1) as usize) as int == piece_column(l, n - 1),
{
    assert(l.body_column + l.pieces[n - 1].column < isize::MAX);
    if n >= 2 {
        assert(l.pieces[n - 2].column <= l.pieces[n - 1].column);
    }
}

/// A Spectrum line's findings, and those kept on a refused line, come in
/// column order, each at the column of the piece it is about.
pub proof fn lemma_zx_scan_in_order(line: usize, l: LexView, n: nat)
    requires
        lex_fits(l),
        lex_in_order(l),
        n <= l.pieces.len(),
    ensures
        in_position_order(zx_scan(line, l, n).findings),
        in_position_order(zx_scan(line, l, n).kept),
        on_line_within(zx_scan(line, l, n).findings, line, scan_reach(l, n)),
        on_line_within(zx_scan(line, l, n).kept, line, scan_reach(l, n)),
    decreases n,
{
    if n > 0 {
        lemma_zx_scan_in_order(line, l, (n - 1) as nat);
        lemma_piece_column_step(l, n);
        let i = n - 1;
        let c = piece_column(l, i);
        let s = zx_scan(line, l, (n - 1) as nat);
        let p = l.pieces[i];
        let f1 = if stored_space(l.pieces, i) {
            seq![finding(line, c, "stored-space"@, stored_space_message())]
        } else {
            seq![]
        };
        let f2 = if zx_refuses(s, p) {
            seq![finding(line, c, "statement-keyword"@, statement_message(p))]
        } else {
            seq![]
        };
        let f3 = if p.kind == PieceKind::Name && ends_with(p.text, "$"@) && p.text.len() > 2 {
            seq![finding(line, c, "string-var-name"@, string_var_message(p.text))]
        } else {
            seq![]
        };
        let f4 = if p.kind == PieceKind::Name && (s.last_keyword matches Some(k) && zx_name_taker(k))
            && is_zx_keyword_name(upper(p.text)) {
            seq![finding(line, c, "keyword-var-name"@, keyword_var_message(p.text))]
        } else {
            seq![]
        };
        assert(zx_scan(line, l, n).findings == s.findings + f1 + f2 + f3 + f4);
        assert(zx_scan(line, l, n).kept == s.kept + f2 + f3 + f4);
        let r = scan_reach(l, (n - 1) as nat);
        lemma_append_at(s.findings, f1, line, r, c, c);
        lemma_append_at(s.findings + f1, f2, line, c, c, c);
        lemma_append_at(s.findings + f1 + f2, f3, line, c, c, c);
        lemma_append_at(s.findings + f1 + f2 + f3, f4, line, c, c, c);
        lemma_append_at(s.kept, f2, line, r, c, c);
        lemma_append_at(s.kept + f2, f3, line, c, c, c);
        lemma_append_at(s.kept + f2 + f3, f4, line, c, c, c);
    }
}

/// On the Spectrum, a string variable name longer than one letter (a Name
/// piece of more than two characters ending in `$`) is flagged
/// `string-var-name` at its column, whether or not the line is refused.
pub proof fn lemma_zx_long_string_names_are_flagged(line: usize, l: LexView, n: nat, i: int)
    requires
        0 <= i < n <= l.pieces.len(),
        l.pieces[i].kind == PieceKind::Name,
        l.pieces[i].text.len() > 2,
        l.pieces[i].text.last() == '$',
    ensures
        zx_scan(line, l, n).findings.contains(
            finding(line, piece_column(l, i), "string-var-name"@, string_var_message(l.pieces[i].text)),
        ),
        zx_scan(line, l, n).kept.contains(
            finding(line, piece_column(l, i), "string-var-name"@, string_var_message(l.pieces[i].text)),
        ),
    decreases n,
{
    let f = finding(line, piece_column(l, i), "string-var-name"@, string_var_message(l.pieces[i].text));
    let prev = zx_scan(line, l, (n - 1) as nat);
    let now = zx_scan(line, l, n);
    if i < n - 1 {
        lemma_zx_long_string_names_are_flagged(line, l, (n - 1) as nat, i);
        let k = choose|k: int| 0 <= k < prev.findings.len() && prev.findings[k] == f;
        let kk = choose|k: int| 0 <= k < prev.kept.len() && prev.kept[k] == f;
        assert(now.findings.take(prev.findings.len() as int) =~= prev.findings);
        assert(now.findings[k] == f);
        assert(now.kept.take(prev.kept.len() as int) =~= prev.kept);
        assert(now.kept[kk] == f);
    } else {
        reveal_strlit("$");
        let t = l.pieces[i].text;
        assert("$"@.len() == 1 && "$"@[0] == '$');
        assert(t.skip(t.len() - 1) =~= "$"@);
        assert(ends_with(t, "$"@));
        assert(now.findings.last() == f || now.findings[now.findings.len() - 2] == f);
        if now.findings.last() == f {
            assert(now.findings.contains(f));
        } else {
            assert(now.findings.contains(f));
        }
        if now.kept.last() == f {
            assert(now.kept.contains(f));
        } else {
            assert(now.kept[now.kept.len() - 2] == f);
            assert(now.kept.contains(f));
        }
    }
}

/// Piece `i` is a string variable name longer than one letter, standing at
/// `column`.
pub open spec fn long_string_name_at(l: LexView, i: int, column: usize) -> bool {
    &&& 0 <= i < l.pieces.len()
    &&& l.pieces[i].kind == PieceKind::Name
    &&& l.pieces[i].text.len() > 2
    &&& l.pieces[i].text.last() == '$'
    &&& column == piece_column(l, i) as usize
}

/// On the Spectrum, every `string-var-name` finding stands at a string
/// variable name longer than one letter: a one-letter `a$` is never flagged.
pub proof fn lemma_zx_string_var_findings_are_long_names(line: usize, l: LexView, n: nat)
    requires
        n <= l.pieces.len(),
    ensures
        forall|k: int|
            0 <= k < zx_scan(line, l, n).findings.len() && (#[trigger] zx_scan(line, l, n).findings[k]).rule
                == "string-var-name"@ ==> exists|i: int|
                0 <= i < n && #[trigger] long_string_name_at(l, i, zx_scan(line, l, n).findings[k].column),
        forall|k: int|
            0 <= k < zx_scan(line, l, n).kept.len() && (#[trigger] zx_scan(line, l, n).kept[k]).rule
                == "string-var-name"@ ==> exists|i: int|
                0 <= i < n && #[trigger] long_string_name_at(l, i, zx_scan(line, l, n).kept[k].column),
    decreases n,
{
    if n > 0 {
        lemma_zx_string_var_findings_are_long_names(line, l, (n - 1) as nat);
        reveal_strlit("string-var-name");
        reveal_strlit("stored-space");
        reveal_strlit("statement-keyword");
        reveal_strlit("keyword-var-name");
        reveal_strlit("$");
        let i = n - 1;
        let c = piece_column(l, i);
        let s = zx_scan(line, l, (n - 1) as nat);
        let p = l.pieces[i];
        let f1 = if stored_space(l.pieces, i) {
            seq![finding(line, c, "stored-space"@, stored_space_message())]
        } else {
            seq![]
        };
        let f2 = if zx_refuses(s, p) {
            seq![finding(line, c, "statement-keyword"@, statement_message(p))]
        } else {
            seq![]
        };
        let f3 = if p.kind == PieceKind::Name && ends_with(p.text, "$"@) && p.text.len() > 2 {
            seq![finding(line, c, "string-var-name"@, string_var_message(p.text))]
        } else {
            seq![]
        };
        let f4 = if p.kind == PieceKind::Name && (s.last_keyword matches Some(k) && zx_name_taker(k))
            && is_zx_keyword_name(upper(p.text)) {
            seq![finding(line, c, "keyword-var-name"@, keyword_var_message(p.text))]
        } else {
            seq![]
        };
        let now = zx_scan(line, l, n);
        assert(now.findings == s.findings + f1 + f2 + f3 + f4);
        assert(now.kept == s.kept + f2 + f3 + f4);
        assert("stored-space"@.len() == 12 && "string-var-name"@.len() == 15);
        assert("statement-keyword"@.len() == 17 && "keyword-var-name"@.len() == 16);
        assert("stored-space"@ != "string-var-name"@);
        assert("statement-keyword"@ != "string-var-name"@);
        assert("keyword-var-name"@ != "string-var-name"@);
        if f3.len() > 0 {
            assert(p.text.skip(p.text.len() - 1)[0] == p.text.last());
            assert(long_string_name_at(l, i, c as usize));
        }
        assert forall|k: int|
            0 <= k < now.findings.len() && (#[trigger] now.findings[k]).rule == "string-var-name"@ implies exists|
                j: int,
            | 0 <= j < n && #[trigger] long_string_name_at(l, j, now.findings[k].column) by {
            if k < s.findings.len() {
                assert(now.findings[k] == s.findings[k]);
                let j = choose|j: int| 0 <= j < n - 1 && #[trigger] long_string_name_at(l, j, s.findings[k].column);
                assert(long_string_name_at(l, j, now.findings[k].column));
            } else {
                let rest = f1 + f2 + f3 + f4;
                let x = k - s.findings.len();
                assert(now.findings[k] == rest[x]);
                if x < f1.len() {
                    assert(rest[x] == f1[x]);
                } else if x < f1.len() + f2.len() {
                    assert(rest[x] == f2[x - f1.len()]);
                } else if x < f1.len() + f2.len() + f3.len() {
                    assert(rest[x] == f3[x - f1.len() - f2.len()]);
                } else {
                    assert(rest[x] == f4[x - f1.len() - f2.len() - f3.len()]);
                }
                assert(long_string_name_at(l, i, now.findings[k].column));
            }
        }
        assert forall|k: int|
            0 <= k < now.kept.len() && (#[trigger] now.kept[k]).rule == "string-var-name"@ implies exists|j: int|
                0 <= j < n && #[trigger] long_string_name_at(l, j, now.kept[k].column) by {
            if k < s.kept.len() {
                assert(now.kept[k] == s.kept[k]);
                let j = choose|j: int| 0 <= j < n - 1 && #[trigger] long_string_name_at(l, j, s.kept[k].column);
                assert(long_string_name_at(l, j, now.kept[k].column));
            } else {
                let rest = f2 + f3 + f4;
                let x = k - s.kept.len();
                assert(now.kept[k] == rest[x]);
                if x < f2.len() {
                    assert(rest[x] == f2[x]);
                } else if x < f2.len() + f3.len() {
                    assert(rest[x] == f3[x - f2.len()]);
                } else {
                    assert(rest[x] == f4[x - f2.len() - f3.len()]);
                }
                assert(long_string_name_at(l, i, now.kept[k].column));
            }
        }
    }
}

/// A C64 line's findings come in column order: a keyword inside a name is
/// reported at the name's start, a clash at the name it names.
pub proof fn lemma_c64_scan_in_order(line: usize, l: LexView, names: C64Names, n: nat)
    requires
        lex_fits(l),
        lex_in_order(l),
        n <= l.pieces.len(),
    ensures
        in_position_order(c64_scan(line, l, names, n).findings),
        on_line_within(c64_scan(line, l, names, n).findings, line, scan_reach(l, n)),
    decreases n,
{
    if n > 0 {
        lemma_c64_scan_in_order(line, l, names, (n - 1) as nat);
        lemma_piece_column_step(l, n);
        let i = n - 1;
        let s = c64_scan(line, l, names, (n - 1) as nat);
        let r = scan_reach(l, (n - 1) as nat);
        let t = c64_scan(line, l, names, n);
        if t.findings.len() == s.findings.len() {
            assert(t.findings =~= s.findings);
        } else {
            let c = if l.pieces[i].kind is Keyword {
                piece_column(l, i - 1)
            } else {
                piece_column(l, i)
            };
            if l.pieces[i].kind is Keyword {
                assert(i >= 1);
                lemma_piece_column_step(l, (n - 1) as nat);
                assert(scan_reach(l, (n - 1) as nat) == c);
            }
            let b = seq![t.findings.last()];
            assert(t.findings =~= s.findings + b);
            lemma_append_at(s.findings, b, line, r, c, piece_column(l, i));
        }
    }
}

fn lex(m: Machine, raw: &str) -> (r: Result<LexLine, Error>)
    ensures
        match r {
            Ok(l) => lex_spec(m, raw@) == Ok::<LexView, (usize, Seq<char>)>(l@) && lex_fits(l@) && lex_in_order(l@),
            Err(e) => lex_spec(m, raw@) == Err::<LexView, (usize, Seq<char>)>((e.line, e.message@)),
        },
{
    match m {
        Machine::SinclairZxSpectrum => zx_lex_line(raw),
        Machine::CommodoreC64 => c64_lex_line(raw),
    }
}

fn append_bytes(out: &mut Vec<u8>, b: &Vec<u8>)
    ensures
        final(out)@ == old(out)@ + b@,
{
    let ghost start = out@;
    let mut i: usize = 0;
    while i < b.len()
        invariant
            i <= b@.len(),
            out@ == start + b@.take(i as int),
        decreases b@.len() - i,
    {
        out.push(b[i]);
        i += 1;
        assert(out@ =~= start + b@.take(i as int));
    }
    assert(b@.take(b@.len() as int) =~= b@);
}

fn body_of(l: &LexLine, keep_spaces: bool) -> (r: Vec<u8>)
    ensures
        r@ == (if keep_spaces {
            all_bytes(l@.pieces, l@.pieces.len())
        } else {
            kept_bytes(l@.pieces, l@.pieces.len())
        }),
{
    let ghost lv = l@;
    let mut out: Vec<u8> = Vec::new();
    let mut i: usize = 0;
    while i < l.pieces.len()
        invariant
            lv == l@,
            i <= l.pieces@.len(),
            out@ == (if keep_spaces {
                all_bytes(lv.pieces, i as nat)
            } else {
                kept_bytes(lv.pieces, i as nat)
            }),
        decreases l.pieces@.len() - i,
    {
        assert(lv.pieces[i as int] == l.pieces@[i as int]@);
        if keep_spaces || !zx_stored_space(&l.pieces, i) {
            append_bytes(&mut out, &l.pieces[i].bytes);
        }
        i += 1;
    }
    out
}

fn list(m: Machine, number: u16, body: &[u8]) -> (s: String)
    ensures
        s@ == list_spec(m, number, body@),
{
    match m {
        Machine::SinclairZxSpectrum => zx_list_line(number, body),
        Machine::CommodoreC64 => c64_list_line(number, body),
    }
}

fn contains_number(numbers: &Vec<u16>, n: u16) -> (r: bool)
    ensures
        r == numbers@.contains(n),
{
    let mut i: usize = 0;
    while i < numbers.len()
        invariant
            i <= numbers@.len(),
            forall|j: int| 0 <= j < i ==> numbers@[j] != n,
        decreases numbers@.len() - i,
    {
        if numbers[i] == n {
            return true;
        }
        i += 1;
    }
    false
}

fn line_order(numbers: &Vec<u16>, highest: u16, number: u16, line: usize, findings: &mut Vec<Finding>)
    requires
        highest == seq_max(numbers@),
    ensures
        findings_view(final(findings)@) == findings_view(old(findings)@) + line_order_findings(
            numbers@,
            number,
            line,
        ),
{
    let ghost start = findings_view(findings@);
    if contains_number(numbers, number) {
        let mut m = chars_of("line ");
        push_decimal(&mut m, number as u64);
        push_str(&mut m, " appears more than once; the later line replaces the earlier");
        push_finding(findings, line, 1, "line-order", m);
    } else if number < highest {
        let mut m = chars_of("line ");
        push_decimal(&mut m, number as u64);
        push_str(&mut m, " comes after line ");
        push_decimal(&mut m, highest as u64);
        push_str(&mut m, "; the machine stores lines in number order");
        push_finding(findings, line, 1, "line-order", m);
    }
    assert(findings_view(findings@) =~= start + line_order_findings(numbers@, number, line));
}

/// The findings added after `before`, all on `line`, in column order.
pub open spec fn added_in_order(before: Seq<FindingView>, after: Seq<FindingView>, line: usize) -> bool {
    &&& before.len() <= after.len()
    &&& after.take(before.len() as int) == before
    &&& in_position_order(after.skip(before.len() as int))
    &&& on_line_within(after.skip(before.len() as int), line, usize::MAX as int)
}

proof fn lemma_line_block_in_order(
    before: Seq<FindingView>,
    form: Seq<FindingView>,
    lo: Seq<FindingView>,
    rs: Seq<FindingView>,
    line: usize,
    hi: int,
)
    requires
        all_at(form, line, 1),
        all_at(lo, line, 1),
        in_position_order(rs),
        on_line_within(rs, line, hi),
    ensures
        added_in_order(before, before + form + lo + rs, line),
{
    lemma_append_at(Seq::empty(), form, line, 1, 1, 1);
    assert(Seq::<FindingView>::empty() + form =~= form);
    lemma_append_at(form, lo, line, 1, 1, 1);
    assert forall|x: int, y: int| 0 <= x < (form + lo).len() && 0 <= y < rs.len() implies finding_le(
        #[trigger] (form + lo)[x],
        #[trigger] rs[y],
    ) by {}
    lemma_ordered_concat(form + lo, rs);
    let block = form + lo + rs;
    let after = before + form + lo + rs;
    assert(after =~= before + block);
    assert(after.take(before.len() as int) =~= before);
    assert(after.skip(before.len() as int) =~= block);
    assert forall|k: int| 0 <= k < block.len() implies (#[trigger] block[k]).line == line && 1 <= block[k].column
        <= usize::MAX by {
        if k < (form + lo).len() {
            assert(block[k] == (form + lo)[k]);
        } else {
            assert(block[k] == rs[k - (form + lo).len()]);
        }
    }
}

/// Check one source line, adding to what the listing has given so far.
fn check_line(
    m: Machine,
    raw: &[char],
    index: usize,
    findings: &mut Vec<Finding>,
    numbers: &mut Vec<u16>,
    highest: &mut u16,
    names: &mut Names,
) -> (r: Result<(), Error>)
    requires
        index < usize::MAX,
        *old(highest) == seq_max(old(numbers)@),
    ensures
        match lint_line(
            m,
            LintState { findings: findings_view(old(findings)@), numbers: old(numbers)@, names: old(names)@ },
            raw@,
            index as int,
        ) {
            Ok(st) => r is Ok && st == (LintState {
                findings: findings_view(final(findings)@),
                numbers: final(numbers)@,
                names: final(names)@,
            }) && *final(highest) == seq_max(final(numbers)@),
            Err(e) => match r {
                Err(x) => (x.line, x.message@) == e,
                Ok(_) => false,
            },
        },
        r is Ok ==> added_in_order(findings_view(old(findings)@), findings_view(final(findings)@), (index + 1) as usize),
{
    let line = index + 1;
    let ghost st = LintState { findings: findings_view(findings@), numbers: numbers@, names: names@ };
    if is_blank(raw) {
        let ghost before = findings_view(findings@);
        push_finding(findings, line, 1, "listing-form", chars_of("LIST never shows a blank line; remove it"));
        proof {
            let added = findings_view(findings@).skip(before.len() as int);
            assert(findings_view(findings@).take(before.len() as int) =~= before);
            assert(added.len() == 1);
            lemma_append_at(Seq::empty(), added, line, 1, 1, 1);
            assert(Seq::<FindingView>::empty() + added =~= added);
        }
        return Ok(());
    }
    let text = string_of(raw);
    let l = match lex(m, text.as_str()) {
        Ok(l) => l,
        Err(e) => return Err(Error { line, message: e.message }),
    };
    let ghost lv = l@;
    let mut rules: Vec<Finding> = Vec::new();
    let ghost names0 = names@;
    let refused = match m {
        Machine::SinclairZxSpectrum => {
            let mut kept: Vec<Finding> = Vec::new();
            let refused = zx_line(line, &l, &mut rules, &mut kept);
            if refused {
                rules = kept;
            }
            refused
        },
        Machine::CommodoreC64 => {
            c64_line(line, &l, names, &mut rules);
            false
        },
    };
    proof {
        let n = lv.pieces.len();
        match m {
            Machine::SinclairZxSpectrum => lemma_zx_scan_in_order(line, lv, n),
            Machine::CommodoreC64 => lemma_c64_scan_in_order(line, lv, names0, n),
        }
        if n > 0 {
            lemma_piece_column_step(lv, n);
        }
        assert(in_position_order(findings_view(rules@)));
        assert(on_line_within(findings_view(rules@), line, scan_reach(lv, n)));
    }
    let body = body_of(&l, true);
    let listed_full = list(m, l.number, body.as_slice());
    let listed = trimmed_end(chars_of(listed_full.as_str()).as_slice());
    let written = trimmed_end(raw);
    let ghost n = lv.pieces.len();
    let ghost form = if trim_end(raw@) != trim_end(list_spec(m, lv.number, all_bytes(lv.pieces, n))) && !refused {
        seq![finding(line, 1, "listing-form"@, "LIST shows `"@ + trim_end(list_spec(m, lv.number, all_bytes(lv.pieces, n))) + "`"@)]
    } else {
        Seq::<FindingView>::empty()
    };
    if !seq_eq(written.as_slice(), listed.as_slice()) && !refused {
        let mut msg = chars_of("LIST shows `");
        push_chars(&mut msg, listed.as_slice());
        push_str(&mut msg, "`");
        push_finding(findings, line, 1, "listing-form", msg);
    }
    assert(findings_view(findings@) =~= st.findings + form);
    line_order(numbers, *highest, l.number, line, findings);
    assert(findings_view(findings@) =~= st.findings + form + line_order_findings(st.numbers, lv.number, line));
    let ghost mid = findings@;
    let ghost rv = rules@;
    findings.append(&mut rules);
    assert(findings_view(findings@) =~= findings_view(mid) + findings_view(rv));
    assert(findings_view(findings@) =~= st.findings + form + line_order_findings(st.numbers, lv.number, line) + findings_view(rv));
    proof {
        let lo = line_order_findings(st.numbers, lv.number, line);
        assert(all_at(form, line, 1));
        assert(all_at(lo, line, 1));
        lemma_line_block_in_order(st.findings, form, lo, findings_view(rv), line, scan_reach(lv, lv.pieces.len()));
    }
    let ghost old_numbers = numbers@;
    numbers.push(l.number);
    if l.number > *highest {
        *highest = l.number;
    }
    assert(numbers@.drop_last() =~= old_numbers);
    Ok(())
}

/// Every finding for one listing, line by line: for each line, its
/// `listing-form` finding, then its `line-order` finding, then the
/// machine's rules piece by piece (which is line then column order, as
/// each rule's column lies past the line number).
///
/// Errors name the first source line the dialect cannot read.
pub fn check(machine: Machine, source: &str) -> (r: Result<Vec<Finding>, Error>)
    ensures
        match check_spec(machine, source@) {
            Ok(fs) => match r {
                Ok(v) => findings_view(v@) == fs,
                Err(_) => false,
            },
            Err(e) => match r {
                Err(x) => (x.line, x.message@) == e,
                Ok(_) => false,
            },
        },
        r matches Ok(v) ==> in_position_order(findings_view(v@)),
{
    let cs = chars_of(source);
    let ls = lines_of(cs.as_slice());
    let ghost all = lines(source@);
    let mut findings: Vec<Finding> = Vec::new();
    let mut numbers: Vec<u16> = Vec::new();
    let mut highest: u16 = 0;
    let mut names = Names::new();
    assert(findings_view(findings@) =~= Seq::<FindingView>::empty());
    assert(numbers@ =~= Seq::<u16>::empty());
    assert(names@.firsts =~= Seq::<(Seq<char>, Seq<char>)>::empty());
    assert(names@.reported =~= Seq::<Seq<char>>::empty());
    let mut i: usize = 0;
    while i < ls.len()
        invariant
            i <= ls@.len(),
            all == lines(source@),
            ls@.len() == all.len(),
            forall|j: int| 0 <= j < ls@.len() ==> (#[trigger] ls@[j])@ == all[j],
            highest == seq_max(numbers@),
            lint_lines(machine, all, i as nat) == Ok::<LintState, (usize, Seq<char>)>(
                LintState { findings: findings_view(findings@), numbers: numbers@, names: names@ },
            ),
            in_position_order(findings_view(findings@)),
            forall|k: int| 0 <= k < findings_view(findings@).len() ==> (#[trigger] findings_view(findings@)[k]).line <= i,
        decreases ls@.len() - i,
    {
        let ghost before = findings_view(findings@);
        match check_line(machine, ls[i].as_slice(), i, &mut findings, &mut numbers, &mut highest, &mut names) {
            Ok(()) => {
                proof {
                    let after = findings_view(findings@);
                    let block = after.skip(before.len() as int);
                    assert(after =~= before + block);
                    assert forall|x: int, y: int| 0 <= x < before.len() && 0 <= y < block.len() implies finding_le(
                        #[trigger] before[x],
                        #[trigger] block[y],
                    ) by {}
                    lemma_ordered_concat(before, block);
                    assert forall|k: int| 0 <= k < after.len() implies (#[trigger] after[k]).line <= i + 1 by {
                        if k < before.len() {
                            assert(after[k] == before[k]);
                        } else {
                            assert(after[k] == block[k - before.len()]);
                        }
                    }
                }
            },
            Err(e) => {
                proof {
                    lemma_lint_lines_stops(machine, all, (i + 1) as nat, all.len());
                }
                return Err(e);
            },
        }
        i += 1;
    }
    Ok(findings)
}

proof fn lemma_lint_lines_stops(m: Machine, ls: Seq<Seq<char>>, i: nat, n: nat)
    requires
        i <= n,
        lint_lines(m, ls, i) is Err,
    ensures
        lint_lines(m, ls, n) == lint_lines(m, ls, i),
    decreases n,
{
    if i < n {
        lemma_lint_lines_stops(m, ls, i, (n - 1) as nat);
    }
}

proof fn lemma_fix_lines_stops(m: Machine, ls: Seq<Seq<char>>, i: nat, n: nat)
    requires
        i <= n,
        fix_lines(m, ls, i) is Err,
    ensures
        fix_lines(m, ls, n) == fix_lines(m, ls, i),
    decreases n,
{
    if i < n {
        lemma_fix_lines_stops(m, ls, i, (n - 1) as nat);
    }
}

/// Mend one source line, adding to the text mended so far.
fn fix_one(m: Machine, raw: &[char], index: usize, fixed: &mut Vec<char>, normalised: &mut Vec<char>) -> (r: Result<(), Error>)
    requires
        index < usize::MAX,
    ensures
        match fix_line(m, FixState { fixed: old(fixed)@, normalised: old(normalised)@ }, raw@, index as int) {
            Ok(st) => r is Ok && st == (FixState { fixed: final(fixed)@, normalised: final(normalised)@ }),
            Err(e) => match r {
                Err(x) => (x.line, x.message@) == e,
                Ok(_) => false,
            },
        },
{
    let line = index + 1;
    let r = trimmed_end(raw);
    push_chars(normalised, r.as_slice());
    push_str(normalised, "\n");
    if is_blank(r.as_slice()) {
        return Ok(());
    }
    let text = string_of(r.as_slice());
    let l = match lex(m, text.as_str()) {
        Ok(l) => l,
        Err(e) => return Err(Error { line, message: e.message }),
    };
    match m {
        Machine::SinclairZxSpectrum => {
            let mut scratch: Vec<Finding> = Vec::new();
            let mut scratch_kept: Vec<Finding> = Vec::new();
            let refused = zx_line(line, &l, &mut scratch, &mut scratch_kept);
            if refused {
                push_chars(fixed, r.as_slice());
            } else {
                let body = body_of(&l, false);
                let listed = zx_list_line(l.number, body.as_slice());
                let t = trimmed_end(chars_of(listed.as_str()).as_slice());
                push_chars(fixed, t.as_slice());
            }
        },
        Machine::CommodoreC64 => {
            let body = body_of(&l, true);
            let listed = c64_list_line(l.number, body.as_slice());
            let t = trimmed_end(chars_of(listed.as_str()).as_slice());
            push_chars(fixed, t.as_slice());
        },
    }
    push_str(fixed, "\n");
    Ok(())
}

/// The source with every line replaced by its listed form (for the
/// Spectrum, after removing the spaces `stored-space` flags), blank lines
/// dropped, lines joined with `\n` and ending with one. A Spectrum line the
/// ROM refuses to run is kept as written.
///
/// Returns `None` when that equals the source normalised the same way
/// (each line without trailing whitespace, ending with `\n`), so a listing
/// that differs only in line endings is left alone. Errors name the first
/// source line the dialect cannot read.
pub fn fix(machine: Machine, source: &str) -> (r: Result<Option<String>, Error>)
    ensures
        match fix_spec(machine, source@) {
            Ok(o) => match r {
                Ok(Some(s)) => o == Some(s@),
                Ok(None) => o is None,
                Err(_) => false,
            },
            Err(e) => match r {
                Err(x) => (x.line, x.message@) == e,
                Ok(_) => false,
            },
        },
{
    let cs = chars_of(source);
    let ls = lines_of(cs.as_slice());
    let ghost all = lines(source@);
    let mut fixed: Vec<char> = Vec::new();
    let mut normalised: Vec<char> = Vec::new();
    let mut i: usize = 0;
    while i < ls.len()
        invariant
            i <= ls@.len(),
            all == lines(source@),
            ls@.len() == all.len(),
            forall|j: int| 0 <= j < ls@.len() ==> (#[trigger] ls@[j])@ == all[j],
            fix_lines(machine, all, i as nat) == Ok::<FixState, (usize, Seq<char>)>(
                FixState { fixed: fixed@, normalised: normalised@ },
            ),
        decreases ls@.len() - i,
    {
        match fix_one(machine, ls[i].as_slice(), i, &mut fixed, &mut normalised) {
            Ok(()) => {},
            Err(e) => {
                proof {
                    lemma_fix_lines_stops(machine, all, (i + 1) as nat, all.len());
                }
                return Err(e);
            },
        }
        i += 1;
    }
    if seq_eq(fixed.as_slice(), normalised.as_slice()) {
        Ok(None)
    } else {
        Ok(Some(string_of(fixed.as_slice())))
    }
}


// --- What `fix` leaves alone ---------------------------------------------------------

/// Whether none of the findings is one `fix` mends: no `listing-form` and
/// no `stored-space` finding.
pub open spec fn nothing_to_mend(fs: Seq<FindingView>) -> bool {
    forall|i: int| 0 <= i < fs.len() ==> (#[trigger] fs[i]).rule != "listing-form"@ && fs[i].rule != "stored-space"@
}

proof fn lemma_nothing_to_mend_parts(a: Seq<FindingView>, b: Seq<FindingView>)
    requires
        nothing_to_mend(a + b),
    ensures
        nothing_to_mend(a),
        nothing_to_mend(b),
{
    assert forall|i: int| 0 <= i < a.len() implies (#[trigger] a[i]).rule != "listing-form"@ && a[i].rule
        != "stored-space"@ by {
        assert((a + b)[i] == a[i]);
    }
    assert forall|i: int| 0 <= i < b.len() implies (#[trigger] b[i]).rule != "listing-form"@ && b[i].rule
        != "stored-space"@ by {
        assert((a + b)[a.len() + i] == b[i]);
    }
}

/// A Spectrum line whose rules report no `stored-space` has no stored
/// space among its first `k` pieces.
proof fn lemma_zx_no_stored_space(line: usize, l: LexView, k: nat)
    requires
        k <= l.pieces.len(),
        nothing_to_mend(zx_scan(line, l, k).findings),
    ensures
        forall|i: int| 0 <= i < k ==> !stored_space(l.pieces, i),
    decreases k,
{
    if k > 0 {
        let prev = zx_scan(line, l, (k - 1) as nat);
        let cur = zx_scan(line, l, k);
        let rest = cur.findings.skip(prev.findings.len() as int);
        assert(cur.findings =~= prev.findings + rest);
        lemma_nothing_to_mend_parts(prev.findings, rest);
        lemma_zx_no_stored_space(line, l, (k - 1) as nat);
        if stored_space(l.pieces, k - 1) {
            assert(rest[0].rule == "stored-space"@);
        }
    }
}

/// With no stored space among the first `k` pieces, leaving those spaces
/// out keeps every byte.
proof fn lemma_kept_is_all(pieces: Seq<PieceView>, k: nat)
    requires
        k <= pieces.len(),
        forall|i: int| 0 <= i < k ==> !stored_space(pieces, i),
    ensures
        kept_bytes(pieces, k) == all_bytes(pieces, k),
    decreases k,
{
    if k > 0 {
        lemma_kept_is_all(pieces, (k - 1) as nat);
    }
}

proof fn lemma_fix_lines_unchanged(m: Machine, ls: Seq<Seq<char>>, n: nat)
    requires
        n <= ls.len(),
        forall|i: int| 0 <= i < ls.len() ==> trim_end(#[trigger] ls[i]) == ls[i],
        lint_lines(m, ls, n) matches Ok(st) && nothing_to_mend(st.findings),
    ensures
        fix_lines(m, ls, n) matches Ok(fs) && fs.fixed == fs.normalised,
    decreases n,
{
    if n > 0 {
        let raw = ls[n - 1];
        let index = n - 1;
        let line = (index + 1) as usize;
        let st0 = lint_lines(m, ls, (n - 1) as nat)->Ok_0;
        let st = lint_lines(m, ls, n)->Ok_0;
        assert(lint_lines(m, ls, (n - 1) as nat) is Ok);
        assert(trim_end(raw) == raw);
        let extra = st.findings.skip(st0.findings.len() as int);
        if all_ws(raw) {
            assert(st.findings == st0.findings.push(finding(line, 1, "listing-form"@, blank_line_message())));
            assert(st.findings[st0.findings.len() as int].rule == "listing-form"@);
        } else {
            let l = lex_spec(m, raw)->Ok_0;
            let k = l.pieces.len();
            let refused = m == Machine::SinclairZxSpectrum && zx_scan(line, l, k).refused;
            let rules = match m {
                Machine::SinclairZxSpectrum => if refused {
                    zx_scan(line, l, k).kept
                } else {
                    zx_scan(line, l, k).findings
                },
                Machine::CommodoreC64 => c64_scan(line, l, st0.names, k).findings,
            };
            let listed = trim_end(list_spec(m, l.number, all_bytes(l.pieces, k)));
            let form = if trim_end(raw) != listed && !refused {
                seq![finding(line, 1, "listing-form"@, "LIST shows `"@ + listed + "`"@)]
            } else {
                seq![]
            };
            let order = line_order_findings(st0.numbers, l.number, line);
            assert(st.findings == st0.findings + form + order + rules);
            assert(st.findings =~= st0.findings + (form + (order + rules)));
            lemma_nothing_to_mend_parts(st0.findings, form + (order + rules));
            lemma_nothing_to_mend_parts(form, order + rules);
            lemma_nothing_to_mend_parts(order, rules);
            if form.len() > 0 {
                assert(form[0].rule == "listing-form"@);
            }
            if m == Machine::SinclairZxSpectrum && !refused {
                lemma_zx_no_stored_space(line, l, k);
                lemma_kept_is_all(l.pieces, k);
            }
        }
        lemma_fix_lines_unchanged(m, ls, (n - 1) as nat);
    }
}

/// A listing already in its listed form is left untouched: when `check`
/// finds nothing that `fix` mends (no `listing-form`, no `stored-space`
/// finding) in a listing whose lines carry no trailing whitespace, `fix`
/// reports no change.
pub proof fn lemma_listed_form_is_left_untouched(m: Machine, source: Seq<char>)
    requires
        forall|i: int| 0 <= i < lines(source).len() ==> trim_end(#[trigger] lines(source)[i]) == lines(source)[i],
        check_spec(m, source) matches Ok(fs) && nothing_to_mend(fs),
    ensures
        fix_spec(m, source) == Ok::<Option<Seq<char>>, (usize, Seq<char>)>(None),
{
    let ls = lines(source);
    assert(lint_lines(m, ls, ls.len()) is Ok);
    lemma_fix_lines_unchanged(m, ls, ls.len());
}

} // verus!
