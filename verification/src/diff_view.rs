//! A patch made ready for display: cut into one section for each file,
//! each section with a gutter of line numbers beside its text.

use vstd::prelude::*;
use vstd::string::StringExecFns;
use crate::lines::{
    begins_with, blank, is_blank, join_lines, joined, line_views, lines_of, parse_i64,
    signed_value, slice_to_vec, split_lines, split_words, words_of,
};
use crate::numbers::{decimal_digits, decimal_text};
use crate::text::{chars_of, has_prefix, text_of};

verus! {

/// The number of files of a patch that are shown unfolded at first.
pub const DEFAULT_EXPANDED_FILES: usize = 10;

/// What a line of a patch is.
#[derive(Debug, Clone, Copy, PartialEq, Eq, Structural)]
pub enum DiffLineKind {
    Add,
    Remove,
    Context,
    Hunk,
    Header,
    Other,
}

/// The part of a text before its first comma; the whole text if it has
/// none.
pub open spec fn before_comma(text: Seq<char>) -> Seq<char>
    decreases text.len(),
{
    if text.len() == 0 || text[0] == ',' {
        Seq::empty()
    } else {
        seq![text[0]] + before_comma(text.drop_first())
    }
}

/// The number at which one side of a hunk begins: the side is written as
/// its sign, the number, and perhaps a comma and a length.
pub open spec fn hunk_start(part: Seq<char>, sign: char) -> Option<i64> {
    if part.len() > 0 && part[0] == sign {
        signed_value(before_comma(part.skip(1)))
    } else {
        None
    }
}

/// The line numbers at which a hunk begins in the old and in the new
/// file, read from a header such as `@@ -12,7 +34,8 @@ heading`; `None`
/// for a line that is no such header.
pub open spec fn hunk_header(line: Seq<char>) -> Option<(i64, i64)> {
    if !has_prefix(line, "@@"@) {
        None
    } else {
        let parts = words_of(line);
        if parts.len() < 4 {
            None
        } else {
            match (hunk_start(parts[1], '-'), hunk_start(parts[2], '+')) {
                (Some(old), Some(new)) => Some((old, new)),
                _ => None,
            }
        }
    }
}

/// The number at which one side of a hunk begins.
fn read_hunk_start(part: &Vec<char>, sign: char) -> (start: Option<i64>)
    ensures
        start == hunk_start(part@, sign),
{
    if part.len() == 0 || part[0] != sign {
        return None;
    }
    let mut end: usize = 1;
    let ghost rest = part@.skip(1);
    proof {
        assert(rest.take(0) =~= Seq::<char>::empty());
        assert(rest.skip(0) =~= rest);
        assert(Seq::<char>::empty() + before_comma(rest) =~= before_comma(rest));
    }
    while end < part.len() && part[end] != ','
        invariant
            1 <= end <= part.len(),
            rest == part@.skip(1),
            before_comma(rest) == rest.take(end - 1) + before_comma(rest.skip(end - 1)),
        decreases part.len() - end,
    {
        proof {
            let tail = rest.skip(end - 1);
            assert(tail[0] == part@[end as int]);
            assert(tail.drop_first() =~= rest.skip(end as int));
            assert(rest.take(end - 1) + (seq![tail[0]] + before_comma(rest.skip(end as int)))
                =~= rest.take(end as int) + before_comma(rest.skip(end as int)));
        }
        end += 1;
    }
    proof {
        let tail = rest.skip(end - 1);
        if end < part.len() {
            assert(tail[0] == part@[end as int]);
        }
        assert(before_comma(tail) =~= Seq::<char>::empty());
        assert(rest.take(end - 1) + Seq::<char>::empty() =~= rest.take(end - 1));
    }
    let number = vstd::slice::slice_subrange(part.as_slice(), 1, end);
    assert(number@ =~= rest.take(end - 1));
    parse_i64(number)
}

/// The line numbers at which a hunk begins, read from its header.
pub fn parse_hunk_header(line: &[char]) -> (starts: Option<(i64, i64)>)
    ensures
        starts == hunk_header(line@),
{
    if !begins_with(line, "@@") {
        return None;
    }
    let parts = split_words(line);
    if parts.len() < 4 {
        return None;
    }
    assert(line_views(parts@)[1] == parts@[1]@);
    assert(line_views(parts@)[2] == parts@[2]@);
    let old = read_hunk_start(&parts[1], '-');
    let new = read_hunk_start(&parts[2], '+');
    match (old, new) {
        (Some(o), Some(n)) => Some((o, n)),
        _ => None,
    }
}

/// The line belongs to the heading of a file's patch.
pub open spec fn is_header_line(line: Seq<char>) -> bool {
    has_prefix(line, "diff "@) || has_prefix(line, "index "@) || has_prefix(line, "---"@)
        || has_prefix(line, "+++"@)
}

/// Whether the line belongs to the heading of a file's patch.
pub fn header_line(line: &[char]) -> (yes: bool)
    ensures
        yes == is_header_line(line@),
{
    begins_with(line, "diff ") || begins_with(line, "index ") || begins_with(line, "---")
        || begins_with(line, "+++")
}

/// What a line of an unprepared patch is, by the way it begins: a hunk
/// header, a heading line, an added or a removed line, or anything else.
pub open spec fn basic_kind(line: Seq<char>) -> DiffLineKind {
    if has_prefix(line, "@@"@) {
        DiffLineKind::Hunk
    } else if is_header_line(line) {
        DiffLineKind::Header
    } else if line.len() > 0 && line[0] == '+' {
        DiffLineKind::Add
    } else if line.len() > 0 && line[0] == '-' {
        DiffLineKind::Remove
    } else {
        DiffLineKind::Other
    }
}

/// What a line of an unprepared patch is, by the way it begins.
pub fn classify_line(line: &[char]) -> (kind: DiffLineKind)
    ensures
        kind == basic_kind(line@),
{
    if begins_with(line, "@@") {
        DiffLineKind::Hunk
    } else if header_line(line) {
        DiffLineKind::Header
    } else if line.len() > 0 && line[0] == '+' {
        DiffLineKind::Add
    } else if line.len() > 0 && line[0] == '-' {
        DiffLineKind::Remove
    } else {
        DiffLineKind::Other
    }
}

/// One line of the gutter: the line's number in the old and in the new
/// file, where it has one, and its sign.
#[derive(Debug, Clone, Copy, PartialEq, Eq, Structural)]
pub struct GutterRow {
    pub old: Option<i64>,
    pub new: Option<i64>,
    pub sym: char,
}

/// Where the numbering of lines stands while a patch is read.
#[derive(Debug, Clone, Copy, PartialEq, Eq, Structural)]
pub struct Numbering {
    /// The number of the next line of the old file; none before the first
    /// hunk.
    pub old_line: Option<i64>,
    /// The number of the next line of the new file.
    pub new_line: Option<i64>,
    /// The greatest number given to a line of the old file so far.
    pub max_old: i64,
    /// The greatest number given to a line of the new file so far.
    pub max_new: i64,
}

/// The number after `line`, counted in 64 bits.
pub open spec fn following(line: Option<i64>) -> Option<i64> {
    match line {
        Some(v) => Some(
            if v == i64::MAX {
                i64::MIN
            } else {
                (v + 1) as i64
            },
        ),
        None => None,
    }
}

/// The greater of a greatest number so far and a number just given.
pub open spec fn raised(max: i64, given: Option<i64>) -> i64 {
    match given {
        Some(v) if v > max => v,
        _ => max,
    }
}

/// What one line of a patch adds to the display.
pub struct ReadLine {
    pub row: GutterRow,
    pub right: Seq<char>,
    pub kind: DiffLineKind,
    pub numbering: Numbering,
}

/// Reads one line of a patch. A hunk header sets the numbering and is
/// shown whole; a heading line is shown whole. A line that begins with a
/// plus, a minus or a blank is an added, a removed or an unchanged line:
/// it is shown without that first character, is numbered on the sides it
/// belongs to, and moves their numbering on. Any other line is shown
/// whole and numbers nothing.
pub open spec fn read_line(numbering: Numbering, line: Seq<char>) -> ReadLine {
    let unnumbered = GutterRow { old: None, new: None, sym: ' ' };
    match hunk_header(line) {
        Some((old, new)) => ReadLine {
            row: unnumbered,
            right: line,
            kind: DiffLineKind::Hunk,
            numbering: Numbering { old_line: Some(old), new_line: Some(new), ..numbering },
        },
        None => if is_header_line(line) {
            ReadLine { row: unnumbered, right: line, kind: DiffLineKind::Header, numbering }
        } else if line.len() > 0 && line[0] == '+' {
            ReadLine {
                row: GutterRow { old: None, new: numbering.new_line, sym: '+' },
                right: line.skip(1),
                kind: DiffLineKind::Add,
                numbering: Numbering {
                    new_line: following(numbering.new_line),
                    max_new: raised(numbering.max_new, numbering.new_line),
                    ..numbering
                },
            }
        } else if line.len() > 0 && line[0] == '-' {
            ReadLine {
                row: GutterRow { old: numbering.old_line, new: None, sym: '-' },
                right: line.skip(1),
                kind: DiffLineKind::Remove,
                numbering: Numbering {
                    old_line: following(numbering.old_line),
                    max_old: raised(numbering.max_old, numbering.old_line),
                    ..numbering
                },
            }
        } else if line.len() > 0 && line[0] == ' ' {
            ReadLine {
                row: GutterRow { old: numbering.old_line, new: numbering.new_line, sym: ' ' },
                right: line.skip(1),
                kind: DiffLineKind::Context,
                numbering: Numbering {
                    old_line: following(numbering.old_line),
                    new_line: following(numbering.new_line),
                    max_old: raised(numbering.max_old, numbering.old_line),
                    max_new: raised(numbering.max_new, numbering.new_line),
                },
            }
        } else {
            ReadLine { row: unnumbered, right: line, kind: DiffLineKind::Other, numbering }
        },
    }
}

/// What the lines of a patch add up to.
pub struct DiffScan {
    pub numbering: Numbering,
    pub rows: Seq<GutterRow>,
    pub rights: Seq<Seq<char>>,
    pub kinds: Seq<DiffLineKind>,
}

/// The numbering before the first line.
pub open spec fn unnumbered() -> Numbering {
    Numbering { old_line: None, new_line: None, max_old: 0, max_new: 0 }
}

/// Reads the lines of a patch in order.
pub open spec fn scan_diff(lines: Seq<Seq<char>>) -> DiffScan
    decreases lines.len(),
{
    if lines.len() == 0 {
        DiffScan {
            numbering: unnumbered(),
            rows: Seq::empty(),
            rights: Seq::empty(),
            kinds: Seq::empty(),
        }
    } else {
        let before = scan_diff(lines.drop_last());
        let read = read_line(before.numbering, lines.last());
        DiffScan {
            numbering: read.numbering,
            rows: before.rows.push(read.row),
            rights: before.rights.push(read.right),
            kinds: before.kinds.push(read.kind),
        }
    }
}

/// A whole number written in decimal digits, with a minus before a
/// negative one.
pub open spec fn int_digits(v: i64) -> Seq<char> {
    if v < 0 {
        seq!['-'] + decimal_digits((-(v as int)) as nat)
    } else {
        decimal_digits(v as nat)
    }
}

/// A text of `n` blanks.
pub open spec fn blanks(n: nat) -> Seq<char> {
    Seq::new(n, |i: int| ' ')
}

/// One number of the gutter in a column `width` wide: the number set to
/// the right, blanks where there is none.
pub open spec fn gutter_cell(number: Option<i64>, width: nat) -> Seq<char> {
    match number {
        Some(v) => if int_digits(v).len() < width {
            blanks((width - int_digits(v).len()) as nat) + int_digits(v)
        } else {
            int_digits(v)
        },
        None => blanks(width),
    }
}

/// One line of the gutter: the old number, the new number and the sign,
/// with a blank between.
pub open spec fn gutter_line(row: GutterRow, width: nat) -> Seq<char> {
    gutter_cell(row.old, width) + seq![' '] + gutter_cell(row.new, width) + seq![' ', row.sym]
}

/// The width of a column of the gutter: the number of digits of the
/// greatest line number given.
pub open spec fn gutter_width(numbering: Numbering) -> nat {
    let greatest = if numbering.max_old > numbering.max_new {
        numbering.max_old
    } else {
        numbering.max_new
    };
    if greatest < 0 {
        1
    } else {
        decimal_digits(greatest as nat).len()
    }
}

/// The lines of the gutter.
pub open spec fn gutter_lines(rows: Seq<GutterRow>, width: nat) -> Seq<Seq<char>> {
    rows.map_values(|row: GutterRow| gutter_line(row, width))
}

/// A whole number written in decimal digits.
fn int_text(v: i64) -> (text: Vec<char>)
    ensures
        text@ == int_digits(v),
{
    if v < 0 {
        let magnitude: u64 = if v == i64::MIN {
            0x8000_0000_0000_0000
        } else {
            (-v) as u64
        };
        let digits = decimal_text(magnitude);
        let mut text: Vec<char> = Vec::new();
        text.push('-');
        let mut rest = chars_of(digits.as_str());
        text.append(&mut rest);
        assert(text@ =~= seq!['-'] + decimal_digits(magnitude as nat));
        text
    } else {
        let digits = decimal_text(v as u64);
        chars_of(digits.as_str())
    }
}

/// Adds blanks to a line.
fn push_blanks(line: &mut Vec<char>, count: usize)
    ensures
        final(line)@ == old(line)@ + blanks(count as nat),
{
    let mut i: usize = 0;
    assert(line@ =~= old(line)@ + blanks(0));
    while i < count
        invariant
            i <= count,
            line@ == old(line)@ + blanks(i as nat),
        decreases count - i,
    {
        line.push(' ');
        i += 1;
        assert(line@ =~= old(line)@ + blanks(i as nat));
    }
}

/// Adds one number of the gutter to a line.
fn push_cell(line: &mut Vec<char>, number: Option<i64>, width: usize)
    ensures
        final(line)@ == old(line)@ + gutter_cell(number, width as nat),
{
    match number {
        Some(v) => {
            let mut digits = int_text(v);
            let ghost written = digits@;
            if digits.len() < width {
                push_blanks(line, width - digits.len());
            }
            line.append(&mut digits);
            assert(line@ =~= old(line)@ + gutter_cell(number, width as nat));
        },
        None => {
            push_blanks(line, width);
        },
    }
}

/// The numbering after a line that is numbered `given` on one side.
fn advance(line: Option<i64>) -> (next: Option<i64>)
    ensures
        next == following(line),
{
    match line {
        Some(v) => Some(if v == i64::MAX { i64::MIN } else { v + 1 }),
        None => None,
    }
}

/// The greater of a greatest number so far and a number just given.
fn raise(max: i64, given: Option<i64>) -> (out: i64)
    ensures
        out == raised(max, given),
{
    match given {
        Some(v) => if v > max {
            v
        } else {
            max
        },
        None => max,
    }
}

/// A patch section made ready: the text of its gutter, its own text, what
/// each line is, and the number of characters in a line of the gutter.
#[derive(Debug, Clone, PartialEq, Eq)]
pub struct DiffDisplay {
    pub gutter_text: String,
    pub right_text: String,
    pub kinds: Vec<DiffLineKind>,
    pub gutter_chars: usize,
}

/// Makes the text of one patch section ready for display. The text is
/// read line by line; the gutter gets one line for each, with the line's
/// numbers and sign in columns as wide as the greatest number; the text
/// shown is the lines without their sign. Both end in a line feed.
pub fn build_diff_gutter_and_text(diff_text: &str) -> (display: DiffDisplay)
    ensures
        ({
            let scan = scan_diff(lines_of(diff_text@));
            let width = gutter_width(scan.numbering);
            &&& display.gutter_text@ == joined(gutter_lines(scan.rows, width)) + seq!['\n']
            &&& display.right_text@ == joined(scan.rights) + seq!['\n']
            &&& display.kinds@ == scan.kinds
            &&& display.gutter_chars == 2 * width + 3
        }),
{
    let chars = chars_of(diff_text);
    let lines = split_lines(chars.as_slice());
    let ghost all = lines_of(diff_text@);
    let mut numbering = Numbering { old_line: None, new_line: None, max_old: 0, max_new: 0 };
    let mut rows: Vec<GutterRow> = Vec::new();
    let mut rights: Vec<Vec<char>> = Vec::new();
    let mut kinds: Vec<DiffLineKind> = Vec::new();
    let mut i: usize = 0;
    proof {
        assert(all.take(0) =~= Seq::<Seq<char>>::empty());
        assert(line_views(rights@) =~= Seq::<Seq<char>>::empty());
    }
    while i < lines.len()
        invariant
            i <= lines.len(),
            all == line_views(lines@),
            numbering == scan_diff(all.take(i as int)).numbering,
            rows@ == scan_diff(all.take(i as int)).rows,
            line_views(rights@) == scan_diff(all.take(i as int)).rights,
            kinds@ == scan_diff(all.take(i as int)).kinds,
            numbering.max_old >= 0,
            numbering.max_new >= 0,
        decreases lines.len() - i,
    {
        let line = &lines[i];
        let ghost before = line_views(rights@);
        proof {
            assert(all[i as int] == line@);
            assert(all.take(i + 1).drop_last() =~= all.take(i as int));
            assert(all.take(i + 1).last() == line@);
        }
        let unnumbered = GutterRow { old: None, new: None, sym: ' ' };
        let row: GutterRow;
        let right: Vec<char>;
        let kind: DiffLineKind;
        match parse_hunk_header(line.as_slice()) {
            Some((old, new)) => {
                numbering.old_line = Some(old);
                numbering.new_line = Some(new);
                row = unnumbered;
                right = slice_to_vec(line.as_slice());
                kind = DiffLineKind::Hunk;
            },
            None => {
                if header_line(line.as_slice()) {
                    row = unnumbered;
                    right = slice_to_vec(line.as_slice());
                    kind = DiffLineKind::Header;
                } else if line.len() > 0 && (line[0] == '+' || line[0] == '-' || line[0] == ' ') {
                    let sym = line[0];
                    let old = if sym == '+' {
                        None
                    } else {
                        numbering.old_line
                    };
                    let new = if sym == '-' {
                        None
                    } else {
                        numbering.new_line
                    };
                    if sym != '+' {
                        numbering.max_old = raise(numbering.max_old, numbering.old_line);
                        numbering.old_line = advance(numbering.old_line);
                    }
                    if sym != '-' {
                        numbering.max_new = raise(numbering.max_new, numbering.new_line);
                        numbering.new_line = advance(numbering.new_line);
                    }
                    row = GutterRow { old, new, sym };
                    let rest = vstd::slice::slice_subrange(line.as_slice(), 1, line.len());
                    assert(rest@ =~= line@.skip(1));
                    right = slice_to_vec(rest);
                    kind = if sym == '+' {
                        DiffLineKind::Add
                    } else if sym == '-' {
                        DiffLineKind::Remove
                    } else {
                        DiffLineKind::Context
                    };
                } else {
                    row = unnumbered;
                    right = slice_to_vec(line.as_slice());
                    kind = DiffLineKind::Other;
                }
            },
        }
        rows.push(row);
        rights.push(right);
        kinds.push(kind);
        proof {
            assert(line_views(rights@) =~= before.push(right@));
        }
        i += 1;
    }
    proof {
        assert(all.take(i as int) =~= all);
    }
    let greatest = if numbering.max_old > numbering.max_new {
        numbering.max_old
    } else {
        numbering.max_new
    };
    let greatest_text = decimal_text(greatest as u64);
    let width = greatest_text.as_str().unicode_len();
    proof {
        decimal_digits_are_few(greatest as nat);
    }
    let mut gutter: Vec<Vec<char>> = Vec::new();
    let mut k: usize = 0;
    proof {
        assert(line_views(gutter@) =~= gutter_lines(rows@.take(0), width as nat));
    }
    while k < rows.len()
        invariant
            k <= rows.len(),
            line_views(gutter@) == gutter_lines(rows@.take(k as int), width as nat),
        decreases rows.len() - k,
    {
        let mut line: Vec<char> = Vec::new();
        push_cell(&mut line, rows[k].old, width);
        line.push(' ');
        push_cell(&mut line, rows[k].new, width);
        line.push(' ');
        line.push(rows[k].sym);
        let ghost before = line_views(gutter@);
        proof {
            assert(line@ =~= gutter_line(rows@[k as int], width as nat));
        }
        gutter.push(line);
        proof {
            assert(line_views(gutter@) =~= before.push(gutter_line(rows@[k as int], width as nat)));
            assert(gutter_lines(rows@.take(k + 1), width as nat) =~= gutter_lines(
                rows@.take(k as int),
                width as nat,
            ).push(gutter_line(rows@[k as int], width as nat)));
        }
        k += 1;
    }
    proof {
        assert(rows@.take(k as int) =~= rows@);
    }
    let mut gutter_chars_list = join_lines(&gutter);
    gutter_chars_list.push('\n');
    let mut right_chars = join_lines(&rights);
    right_chars.push('\n');
    DiffDisplay {
        gutter_text: text_of(gutter_chars_list.as_slice()),
        right_text: text_of(right_chars.as_slice()),
        kinds,
        gutter_chars: width * 2 + 3,
    }
}

/// A number of 64 bits has at most twenty decimal digits.
pub proof fn decimal_digits_are_few(n: nat)
    requires
        n <= u64::MAX,
    ensures
        1 <= decimal_digits(n).len() <= 20,
{
    reveal_with_fuel(decimal_digits, 21);
}

/// The patch of one file: what it is called and its text.
#[derive(Debug, Clone, PartialEq, Eq)]
pub struct DiffSection {
    pub label: String,
    pub text: String,
}

/// A section as plain values.
pub struct SectionView {
    pub label: Seq<char>,
    pub text: Seq<char>,
}

impl View for DiffSection {
    type V = SectionView;

    open spec fn view(&self) -> SectionView {
        SectionView { label: self.label@, text: self.text@ }
    }
}

/// The views of a list of sections.
pub open spec fn section_views(sections: Seq<DiffSection>) -> Seq<SectionView> {
    sections.map_values(|s: DiffSection| s@)
}

/// A text without every `b/` at its front.
pub open spec fn without_b_prefix(text: Seq<char>) -> Seq<char>
    decreases text.len(),
{
    if text.len() >= 2 && text[0] == 'b' && text[1] == '/' {
        without_b_prefix(text.skip(2))
    } else {
        text
    }
}

/// The name that stands for a section without one.
pub open spec fn unnamed() -> Seq<char> {
    "Diff"@
}

/// What a section is called: the fourth word of its first line, without
/// `b/` in front; `Diff` where that gives nothing.
pub open spec fn section_label(first_line: Seq<char>) -> Seq<char> {
    let parts = words_of(first_line);
    if parts.len() >= 4 && without_b_prefix(parts[3]).len() > 0 {
        without_b_prefix(parts[3])
    } else {
        unnamed()
    }
}

/// The line begins the patch of a file.
pub open spec fn begins_section(line: Seq<char>) -> bool {
    has_prefix(line, "diff --git "@)
}

/// The line is left out of what is shown of a section.
pub open spec fn is_noise(line: Seq<char>) -> bool {
    has_prefix(line, "index "@) || has_prefix(line, "---"@) || has_prefix(line, "+++"@)
}

/// Where the cutting of a patch into sections stands.
pub struct Cutting {
    /// The sections that are complete.
    pub sections: Seq<SectionView>,
    /// What the section being read is called; none before the first.
    pub label: Option<Seq<char>>,
    /// The lines gathered for the section being read.
    pub lines: Seq<Seq<char>>,
}

/// The text of a section: its lines, each ended by a line feed but for
/// the line feeds between them being single.
pub open spec fn section_text(lines: Seq<Seq<char>>) -> Seq<char> {
    joined(lines) + seq!['\n']
}

/// The complete sections once the section being read is closed.
pub open spec fn closed_sections(cut: Cutting) -> Seq<SectionView> {
    match cut.label {
        Some(label) => cut.sections.push(SectionView { label, text: section_text(cut.lines) }),
        None => cut.sections,
    }
}

/// Takes one line into the cutting. A line that begins a file's patch
/// closes the section being read and opens the next; it is not shown
/// itself. Lines before the first such line are kept for the first
/// section. A noise line is dropped. Any other line is gathered.
pub open spec fn cut_line(cut: Cutting, line: Seq<char>) -> Cutting {
    if begins_section(line) {
        Cutting {
            sections: closed_sections(cut),
            label: Some(section_label(line)),
            lines: if cut.label is Some {
                Seq::empty()
            } else {
                cut.lines
            },
        }
    } else if is_noise(line) {
        cut
    } else {
        Cutting { lines: cut.lines.push(line), ..cut }
    }
}

/// Takes the lines of a patch into the cutting, in order.
pub open spec fn cut_lines(lines: Seq<Seq<char>>) -> Cutting
    decreases lines.len(),
{
    if lines.len() == 0 {
        Cutting { sections: Seq::empty(), label: None, lines: Seq::empty() }
    } else {
        cut_line(cut_lines(lines.drop_last()), lines.last())
    }
}

/// The sections of a patch: one for each file; and for a patch that names
/// no file but is not blank, one section that holds it whole.
pub open spec fn sections_of(diff: Seq<char>) -> Seq<SectionView> {
    let cut = closed_sections(cut_lines(lines_of(diff)));
    if cut.len() == 0 && !is_blank(diff) {
        seq![SectionView { label: unnamed(), text: diff }]
    } else {
        cut
    }
}

/// A text without every `b/` at its front.
fn strip_b_prefix(text: &Vec<char>) -> (rest: Vec<char>)
    ensures
        rest@ == without_b_prefix(text@),
{
    let mut at: usize = 0;
    proof {
        assert(text@.skip(0) =~= text@);
    }
    while text.len() - at >= 2 && text[at] == 'b' && text[at + 1] == '/'
        invariant
            at <= text.len(),
            without_b_prefix(text@) == without_b_prefix(text@.skip(at as int)),
        decreases text.len() - at,
    {
        proof {
            assert(text@.skip(at as int).skip(2) =~= text@.skip(at + 2));
        }
        at += 2;
    }
    let rest = vstd::slice::slice_subrange(text.as_slice(), at, text.len());
    assert(rest@ =~= text@.skip(at as int));
    slice_to_vec(rest)
}

/// What a section is called, from its first line.
fn label_of(first_line: &[char]) -> (label: String)
    ensures
        label@ == section_label(first_line@),
{
    let parts = split_words(first_line);
    if parts.len() >= 4 {
        assert(line_views(parts@)[3] == parts@[3]@);
        let name = strip_b_prefix(&parts[3]);
        if name.len() > 0 {
            return text_of(name.as_slice());
        }
    }
    String::from_str("Diff")
}

/// The text of a section, from its lines.
fn text_of_lines(lines: &Vec<Vec<char>>) -> (text: String)
    ensures
        text@ == section_text(line_views(lines@)),
{
    let mut chars = join_lines(lines);
    chars.push('\n');
    text_of(chars.as_slice())
}

/// Cuts a patch into the sections of its files.
pub fn parse_diff_sections(diff: &str) -> (sections: Vec<DiffSection>)
    ensures
        section_views(sections@) == sections_of(diff@),
{
    let chars = chars_of(diff);
    let lines = split_lines(chars.as_slice());
    let ghost all = lines_of(diff@);
    let mut sections: Vec<DiffSection> = Vec::new();
    let mut label: Option<String> = None;
    let mut gathered: Vec<Vec<char>> = Vec::new();
    let mut i: usize = 0;
    proof {
        assert(all.take(0) =~= Seq::<Seq<char>>::empty());
        assert(section_views(sections@) =~= Seq::<SectionView>::empty());
        assert(line_views(gathered@) =~= Seq::<Seq<char>>::empty());
    }
    while i < lines.len()
        invariant
            i <= lines.len(),
            all == line_views(lines@),
            section_views(sections@) == cut_lines(all.take(i as int)).sections,
            crate::query::text_view(label) == cut_lines(all.take(i as int)).label,
            line_views(gathered@) == cut_lines(all.take(i as int)).lines,
        decreases lines.len() - i,
    {
        let line = &lines[i];
        proof {
            assert(all[i as int] == line@);
            assert(all.take(i + 1).drop_last() =~= all.take(i as int));
            assert(all.take(i + 1).last() == line@);
        }
        if begins_with(line.as_slice(), "diff --git ") {
            match label {
                Some(name) => {
                    let ghost before = section_views(sections@);
                    let section = DiffSection { label: name, text: text_of_lines(&gathered) };
                    sections.push(section);
                    proof {
                        assert(section_views(sections@) =~= before.push(section@));
                    }
                    gathered = Vec::new();
                    proof {
                        assert(line_views(gathered@) =~= Seq::<Seq<char>>::empty());
                    }
                },
                None => {},
            }
            label = Some(label_of(line.as_slice()));
        } else if begins_with(line.as_slice(), "index ") || begins_with(line.as_slice(), "---")
            || begins_with(line.as_slice(), "+++") {
        } else {
            let ghost before = line_views(gathered@);
            gathered.push(slice_to_vec(line.as_slice()));
            proof {
                assert(line_views(gathered@) =~= before.push(line@));
            }
        }
        i += 1;
    }
    proof {
        assert(all.take(i as int) =~= all);
    }
    match label {
        Some(name) => {
            let ghost before = section_views(sections@);
            let section = DiffSection { label: name, text: text_of_lines(&gathered) };
            sections.push(section);
            proof {
                assert(section_views(sections@) =~= before.push(section@));
            }
        },
        None => {},
    }
    if sections.len() == 0 && !blank(chars.as_slice()) {
        let section = DiffSection { label: String::from_str("Diff"), text: String::from_str(diff) };
        sections.push(section);
        proof {
            assert(section_views(sections@) =~= seq![section@]);
        }
    }
    sections
}

/// The first lines of a text, up to `max_lines` of them, put together
/// again; the text itself if it has no more lines than that.
pub open spec fn first_lines(text: Seq<char>, max_lines: nat) -> Seq<char> {
    if lines_of(text).len() > max_lines {
        joined(lines_of(text).take(max_lines as int))
    } else {
        text
    }
}

/// The first `max_lines` lines of a text, and whether the text has more.
pub fn truncate_to_lines(text: &str, max_lines: usize) -> (cut: (String, bool))
    ensures
        cut.1 == (lines_of(text@).len() > max_lines),
        cut.0@ == first_lines(text@, max_lines as nat),
{
    let chars = chars_of(text);
    let mut lines = split_lines(chars.as_slice());
    if lines.len() > max_lines {
        let ghost all = line_views(lines@);
        lines.truncate(max_lines);
        assert(line_views(lines@) =~= all.take(max_lines as int));
        let kept = join_lines(&lines);
        (text_of(kept.as_slice()), true)
    } else {
        (String::from_str(text), false)
    }
}

/// A section made ready for display.
#[derive(Debug, Clone, PartialEq, Eq)]
pub struct PreparedDiffSection {
    pub label: String,
    pub gutter_text: String,
    pub right_text: String,
    pub kinds: Vec<DiffLineKind>,
    pub gutter_chars: usize,
}

/// The greatest gutter width among sections; one where there is none.
pub open spec fn widest_gutter(sections: Seq<PreparedDiffSection>) -> nat
    decreases sections.len(),
{
    if sections.len() == 0 {
        1
    } else {
        let rest = widest_gutter(sections.drop_last());
        if sections.len() == 1 || sections.last().gutter_chars > rest {
            sections.last().gutter_chars as nat
        } else {
            rest
        }
    }
}

/// The width that the gutters of all sections are given, so that they
/// line up: that of the widest.
pub fn global_gutter_chars(sections: &Vec<PreparedDiffSection>) -> (width: usize)
    ensures
        width == widest_gutter(sections@),
{
    let mut width: usize = 1;
    let mut i: usize = 0;
    proof {
        assert(sections@.take(0) =~= Seq::<PreparedDiffSection>::empty());
    }
    while i < sections.len()
        invariant
            i <= sections.len(),
            width == widest_gutter(sections@.take(i as int)),
        decreases sections.len() - i,
    {
        proof {
            assert(sections@.take(i + 1).drop_last() =~= sections@.take(i as int));
            assert(sections@.take(i + 1).last() == sections@[i as int]);
        }
        if i == 0 || sections[i].gutter_chars > width {
            width = sections[i].gutter_chars;
        }
        i += 1;
    }
    assert(sections@.take(i as int) =~= sections@);
    width
}

/// Makes every section of a patch ready for display.
pub fn prepare_sections(sections: Vec<DiffSection>) -> (prepared: Vec<PreparedDiffSection>)
    ensures
        prepared@.len() == sections@.len(),
        forall|i: int|
            0 <= i < prepared@.len() ==> {
                let scan = scan_diff(lines_of(sections@[i].text@));
                let width = gutter_width(scan.numbering);
                &&& (#[trigger] prepared@[i]).label@ == sections@[i].label@
                &&& prepared@[i].gutter_text@ == joined(gutter_lines(scan.rows, width)) + seq!['\n']
                &&& prepared@[i].right_text@ == joined(scan.rights) + seq!['\n']
                &&& prepared@[i].kinds@ == scan.kinds
                &&& prepared@[i].gutter_chars == 2 * width + 3
            },
{
    let mut prepared: Vec<PreparedDiffSection> = Vec::new();
    let mut i: usize = 0;
    while i < sections.len()
        invariant
            i <= sections.len(),
            prepared@.len() == i,
            forall|k: int|
                0 <= k < i ==> {
                    let scan = scan_diff(lines_of(sections@[k].text@));
                    let width = gutter_width(scan.numbering);
                    &&& (#[trigger] prepared@[k]).label@ == sections@[k].label@
                    &&& prepared@[k].gutter_text@ == joined(gutter_lines(scan.rows, width)) + seq![
                        '\n',
                    ]
                    &&& prepared@[k].right_text@ == joined(scan.rights) + seq!['\n']
                    &&& prepared@[k].kinds@ == scan.kinds
                    &&& prepared@[k].gutter_chars == 2 * width + 3
                },
        decreases sections.len() - i,
    {
        let display = build_diff_gutter_and_text(sections[i].text.as_str());
        prepared.push(
            PreparedDiffSection {
                label: sections[i].label.clone(),
                gutter_text: display.gutter_text,
                right_text: display.right_text,
                kinds: display.kinds,
                gutter_chars: display.gutter_chars,
            },
        );
        i += 1;
    }
    prepared
}

/// Whether the file at `index` of a patch is shown unfolded at first.
pub fn expanded_by_default(index: usize) -> (yes: bool)
    ensures
        yes == (index < DEFAULT_EXPANDED_FILES),
{
    index < DEFAULT_EXPANDED_FILES
}

/// Whether any file is folded: `None` where there is no file, else
/// whether at least one of them is folded.
pub open spec fn any_collapsed(expanded: Seq<bool>) -> Option<bool> {
    if expanded.len() == 0 {
        None
    } else {
        Some(exists|i: int| 0 <= i < expanded.len() && !expanded[i])
    }
}

/// Whether any file is folded, given for each file whether it is
/// unfolded.
pub fn diff_has_any_collapsed_file(expanded: &[bool]) -> (any: Option<bool>)
    ensures
        any == any_collapsed(expanded@),
{
    let mut i: usize = 0;
    while i < expanded.len()
        invariant
            i <= expanded.len(),
            forall|k: int| 0 <= k < i ==> expanded@[k],
        decreases expanded.len() - i,
    {
        if !expanded[i] {
            return Some(true);
        }
        i += 1;
    }
    if expanded.len() > 0 {
        Some(false)
    } else {
        None
    }
}

/// What the button that folds and unfolds all files shows.
#[derive(Debug, Clone, Copy, PartialEq, Eq, Structural)]
pub struct ToggleButton {
    pub sensitive: bool,
    /// The button offers to unfold all files; else it offers to fold them.
    pub offers_expand: bool,
}

/// What the button shows: it is dead where there is no file, offers to
/// unfold while any file is folded, and offers to fold else.
pub fn update_expand_toggle_button(any_collapsed: Option<bool>) -> (button: ToggleButton)
    ensures
        button == match any_collapsed {
            None => ToggleButton { sensitive: false, offers_expand: true },
            Some(any) => ToggleButton { sensitive: true, offers_expand: any },
        },
{
    match any_collapsed {
        None => ToggleButton { sensitive: false, offers_expand: true },
        Some(any) => ToggleButton { sensitive: true, offers_expand: any },
    }
}

/// The label of the button.
pub fn toggle_label(button: &ToggleButton) -> (label: &'static str)
    ensures
        label@ == if button.offers_expand {
            "Expand all"@
        } else {
            "Collapse all"@
        },
{
    if button.offers_expand {
        "Expand all"
    } else {
        "Collapse all"
    }
}

} // verus!
