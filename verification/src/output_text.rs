//! What the output panel shows: the rows of job output fitted into the
//! viewport, and the rows of a working-directory listing.
use vstd::prelude::*;
use vstd::seq_lib::lemma_flatten_concat;

use crate::layout_text::{chunked, chunked_chars, clip_line, clipped, display_lines, display_lines_chars};
use crate::geometry::Rect;
use crate::output_panel::{entry_label, workdir_entry_label, OutputPanel, WorkdirEntry, WorkdirEntryKind};
use crate::split::views;
use crate::text::{
    chars_of, decimal, decimal_chars, extend_chars, pad_left, pad_left_chars, pad_right, pad_right_chars,
    zero_padded, zero_padded_chars,
};
use crate::ui::{OutputPanelMode, ScrollAnchor};

verus! {

// ---------------------------------------------------------------------------
// Job output fitted into the viewport
// ---------------------------------------------------------------------------

/// One row of fitted output: its text, and whether it continues the line
/// above (drawn behind a `↪ ` mark).
pub struct FitRow {
    pub continued: bool,
    pub text: Vec<char>,
}

impl View for FitRow {
    type V = (bool, Seq<char>);

    open spec fn view(&self) -> (bool, Seq<char>) {
        (self.continued, self.text@)
    }
}

pub open spec fn fit_views(v: Seq<FitRow>) -> Seq<(bool, Seq<char>)> {
    v.map_values(|r: FitRow| r@)
}

/// `n` less 2, not below 0.
pub open spec fn less_two(n: int) -> int {
    if n >= 2 {
        n - 2
    } else {
        0
    }
}

/// The rows one display line takes: its wrapped chunks (the first cut to
/// `cols` characters, the rest to `cols - 2` behind the mark), or the part of
/// it that the horizontal scroll shows.
pub open spec fn line_rows(l: Seq<char>, cols: int, wrap: bool, scroll_x: int) -> Seq<(bool, Seq<char>)> {
    if wrap {
        chunked(l, cols, less_two(cols)).map(
            |i: int, c: Seq<char>|
                if i == 0 {
                    (false, clipped(c, 0, cols))
                } else {
                    (true, clipped(c, 0, less_two(cols)))
                },
        )
    } else {
        seq![(false, clipped(l, scroll_x, cols))]
    }
}

/// `s` without its first `n` elements (empty when it has no more).
pub open spec fn skip_at_most<A>(s: Seq<A>, n: int) -> Seq<A> {
    if n < s.len() {
        s.subrange(n, s.len() as int)
    } else {
        Seq::<A>::empty()
    }
}

/// The first `n` elements of `s`, or all of it.
pub open spec fn take_at_most<A>(s: Seq<A>, n: int) -> Seq<A> {
    if n < s.len() {
        s.take(n)
    } else {
        s
    }
}

/// The display lines in the order the anchor reads them, past the offset.
pub open spec fn anchored_lines(ls: Seq<Seq<char>>, anchor: ScrollAnchor, offset: int) -> Seq<Seq<char>> {
    match anchor {
        ScrollAnchor::Top => skip_at_most(ls, offset),
        ScrollAnchor::Bottom => skip_at_most(ls.reverse(), offset),
    }
}

/// A line's rows in the order the anchor reads them.
pub open spec fn anchored_rows(l: Seq<char>, anchor: ScrollAnchor, cols: int, wrap: bool, scroll_x: int) -> Seq<(bool, Seq<char>)> {
    match anchor {
        ScrollAnchor::Top => line_rows(l, cols, wrap, scroll_x),
        ScrollAnchor::Bottom => line_rows(l, cols, wrap, scroll_x).reverse(),
    }
}

/// The rows of output text that a viewport of `lines` rows and `cols`
/// columns shows: read from the top, or from the bottom and then put back in
/// order, skipping `offset` display lines from that end.
pub open spec fn fitted_rows(
    s: Seq<char>,
    lines: int,
    cols: int,
    anchor: ScrollAnchor,
    offset: int,
    wrap: bool,
    scroll_x: int,
) -> Seq<(bool, Seq<char>)> {
    let read = take_at_most(
        anchored_lines(display_lines(s), anchor, offset).map_values(
            |l: Seq<char>| anchored_rows(l, anchor, cols, wrap, scroll_x),
        ).flatten(),
        lines,
    );
    match anchor {
        ScrollAnchor::Top => read,
        ScrollAnchor::Bottom => read.reverse(),
    }
}

/// The rows of one display line.
fn line_rows_exec(l: &[char], cols: usize, wrap: bool, scroll_x: usize) -> (r: Vec<FitRow>)
    ensures
        fit_views(r@) == line_rows(l@, cols as int, wrap, scroll_x as int),
{
    let mut out: Vec<FitRow> = Vec::new();
    if wrap {
        let rest: usize = if cols >= 2 {
            cols - 2
        } else {
            0
        };
        let chunks = chunked_chars(l, cols, rest);
        let ghost target = line_rows(l@, cols as int, wrap, scroll_x as int);
        let mut i: usize = 0;
        while i < chunks.len()
            invariant
                i <= chunks.len(),
                views(chunks@) == chunked(l@, cols as int, rest as int),
                rest as int == less_two(cols as int),
                target == line_rows(l@, cols as int, wrap, scroll_x as int),
                wrap,
                fit_views(out@) == target.take(i as int),
            decreases chunks.len() - i,
        {
            assert(views(chunks@)[i as int] == chunks@[i as int]@);
            let row = if i == 0 {
                FitRow { continued: false, text: clip_line(chunks[i].as_slice(), 0, cols) }
            } else {
                FitRow { continued: true, text: clip_line(chunks[i].as_slice(), 0, rest) }
            };
            let ghost before = fit_views(out@);
            out.push(row);
            assert(fit_views(out@) =~= before.push(target[i as int]));
            assert(target.take(i + 1) =~= target.take(i as int).push(target[i as int]));
            i = i + 1;
        }
        assert(target.take(chunks.len() as int) =~= target);
    } else {
        out.push(FitRow { continued: false, text: clip_line(l, scroll_x, cols) });
        assert(fit_views(out@) =~= line_rows(l@, cols as int, wrap, scroll_x as int));
    }
    out
}

/// The rows of a line in the order the anchor reads them.
fn anchored_rows_exec(l: &[char], anchor: ScrollAnchor, cols: usize, wrap: bool, scroll_x: usize) -> (r: Vec<FitRow>)
    ensures
        fit_views(r@) == anchored_rows(l@, anchor, cols as int, wrap, scroll_x as int),
{
    let rows = line_rows_exec(l, cols, wrap, scroll_x);
    match anchor {
        ScrollAnchor::Top => rows,
        ScrollAnchor::Bottom => reversed_rows(rows),
    }
}

/// The rows in reverse order.
fn reversed_rows(v: Vec<FitRow>) -> (r: Vec<FitRow>)
    ensures
        fit_views(r@) == fit_views(v@).reverse(),
{
    let mut v = v;
    let mut out: Vec<FitRow> = Vec::new();
    let ghost orig = fit_views(v@);
    let ghost n = v.len() as int;
    while v.len() > 0
        invariant
            orig.len() == n,
            fit_views(v@) == orig.take(v.len() as int),
            v.len() <= n,
            fit_views(out@) == orig.reverse().take(n - v.len()),
        decreases v.len(),
    {
        let ghost k = v.len() as int;
        let ghost prev = v@;
        let row = v.pop().unwrap();
        assert(fit_views(v@) =~= orig.take(k - 1)) by {
            assert(v@ =~= prev.drop_last());
            assert(fit_views(prev) =~= orig.take(k));
        }
        assert(row@ == orig[k - 1]) by {
            assert(fit_views(prev)[k - 1] == prev[k - 1]@);
        }
        let ghost before = fit_views(out@);
        out.push(row);
        assert(orig.reverse()[n - k] == orig[k - 1]);
        assert(fit_views(out@) =~= orig.reverse().take(n - k + 1)) by {
            assert(fit_views(out@) =~= before.push(row@));
        }
    }
    assert(orig.reverse().take(n) =~= orig.reverse());
    out
}

proof fn lemma_take_at_most_prefix(a: Seq<(bool, Seq<char>)>, b: Seq<(bool, Seq<char>)>, n: int)
    requires
        0 <= n <= a.len(),
    ensures
        take_at_most(a + b, n) == take_at_most(a, n),
{
    if n < a.len() {
        assert((a + b).take(n) =~= a.take(n));
    } else {
        assert((a + b).take(n) =~= a);
    }
}

/// The rows of output text that a viewport of `lines` rows and `cols`
/// columns shows, anchored at the top or the bottom and scrolled by
/// `offset` display lines, wrapped or scrolled sideways by `scroll_x`.
pub fn fit_text(
    s: &[char],
    lines: usize,
    cols: usize,
    anchor: ScrollAnchor,
    offset: usize,
    wrap: bool,
    scroll_x: usize,
) -> (r: Vec<FitRow>)
    ensures
        fit_views(r@) == fitted_rows(s@, lines as int, cols as int, anchor, offset as int, wrap, scroll_x as int),
{
    let ls = display_lines_chars(s);
    let n = ls.len();
    let ghost lv = display_lines(s@);
    let ghost sel = anchored_lines(lv, anchor, offset as int);
    let ghost parts = sel.map_values(
        |l: Seq<char>| anchored_rows(l, anchor, cols as int, wrap, scroll_x as int),
    );
    let count: usize = if offset < n {
        n - offset
    } else {
        0
    };
    assert(sel.len() == count);
    let mut out: Vec<FitRow> = Vec::new();
    let mut k: usize = 0;
    assert(parts.take(0) =~= Seq::<Seq<(bool, Seq<char>)>>::empty());
    while k < count && out.len() < lines
        invariant
            views(ls@) == lv,
            n == ls.len(),
            k <= count,
            count == sel.len(),
            count == (if offset < n { n - offset } else { 0 }),
            sel == anchored_lines(lv, anchor, offset as int),
            parts == sel.map_values(
                |l: Seq<char>| anchored_rows(l, anchor, cols as int, wrap, scroll_x as int),
            ),
            fit_views(out@) == parts.take(k as int).flatten(),
        decreases count - k,
    {
        let idx: usize = match anchor {
            ScrollAnchor::Top => offset + k,
            ScrollAnchor::Bottom => n - 1 - offset - k,
        };
        assert(sel[k as int] == lv[idx as int]);
        assert(views(ls@)[idx as int] == ls@[idx as int]@);
        let rows = anchored_rows_exec(ls[idx].as_slice(), anchor, cols, wrap, scroll_x);
        let ghost base = fit_views(out@);
        let mut j: usize = 0;
        while j < rows.len()
            invariant
                j <= rows.len(),
                fit_views(out@) == base + fit_views(rows@).take(j as int),
            decreases rows.len() - j,
        {
            let row = FitRow { continued: rows[j].continued, text: clip_line(rows[j].text.as_slice(), 0, rows[j].text.len()) };
            assert(row@ == fit_views(rows@)[j as int]) by {
                assert(rows@[j as int].text@.subrange(0, rows@[j as int].text@.len() as int) =~= rows@[j as int].text@);
            }
            let ghost prev = fit_views(out@);
            out.push(row);
            assert(fit_views(out@) =~= prev.push(row@));
            assert(fit_views(rows@).take(j + 1) =~= fit_views(rows@).take(j as int).push(fit_views(rows@)[j as int]));
            j = j + 1;
        }
        assert(fit_views(rows@).take(rows.len() as int) =~= fit_views(rows@));
        proof {
            assert(parts.take(k + 1) =~= parts.take(k as int).push(parts[k as int]));
            parts.take(k as int).lemma_flatten_push(parts[k as int]);
        }
        k = k + 1;
    }
    proof {
        if k < count {
            assert(parts =~= parts.take(k as int) + parts.skip(k as int));
            lemma_flatten_concat(parts.take(k as int), parts.skip(k as int));
            lemma_take_at_most_prefix(parts.take(k as int).flatten(), parts.skip(k as int).flatten(), lines as int);
        } else {
            assert(parts.take(k as int) =~= parts);
        }
    }
    out.truncate(lines);
    assert(fit_views(out@) =~= take_at_most(parts.take(k as int).flatten(), lines as int));
    match anchor {
        ScrollAnchor::Top => out,
        ScrollAnchor::Bottom => reversed_rows(out),
    }
}

// ---------------------------------------------------------------------------
// Working-directory listing
// ---------------------------------------------------------------------------

/// An entry of the listing with what the file system says of it: where a
/// link points (empty when that cannot be read), whether a file is
/// executable, its size in bytes (0 when unknown) and when it was last
/// modified, in seconds since the epoch (none when unknown).
pub struct ListedEntry {
    pub name: String,
    pub kind: WorkdirEntryKind,
    pub link_target: String,
    pub executable: bool,
    pub size: u64,
    pub modified: Option<u64>,
}

/// How a row of the listing is drawn.
#[derive(Clone, Copy, PartialEq, Eq, Structural, Debug)]
pub enum RowTone {
    Message,
    Header,
    Directory,
    Symlink,
    Executable,
    Plain,
}

/// A row of the listing: its text, its tone, and whether it is the
/// selected entry.
pub struct WorkdirRow {
    pub text: Vec<char>,
    pub tone: RowTone,
    pub selected: bool,
}

impl View for WorkdirRow {
    type V = (Seq<char>, RowTone, bool);

    open spec fn view(&self) -> (Seq<char>, RowTone, bool) {
        (self.text@, self.tone, self.selected)
    }
}

pub open spec fn row_views(v: Seq<WorkdirRow>) -> Seq<(Seq<char>, RowTone, bool)> {
    v.map_values(|r: WorkdirRow| r@)
}

pub open spec fn arrow() -> Seq<char> {
    seq![' ', '-', '>', ' ']
}

/// An entry as the listing shows it: its label, and where a link points.
pub open spec fn listed_label(e: ListedEntry) -> Seq<char> {
    entry_label(e.name@, e.kind) + (if e.kind == WorkdirEntryKind::Symlink {
        arrow() + e.link_target@
    } else {
        Seq::<char>::empty()
    })
}

/// The tone of an entry's row.
pub open spec fn entry_tone(e: ListedEntry) -> RowTone {
    match e.kind {
        WorkdirEntryKind::Directory => RowTone::Directory,
        WorkdirEntryKind::Symlink => RowTone::Symlink,
        WorkdirEntryKind::File => if e.executable {
            RowTone::Executable
        } else {
            RowTone::Plain
        },
    }
}

/// The width of the name column: the widest label, and at least 4.
pub open spec fn name_width(es: Seq<ListedEntry>) -> int
    decreases es.len(),
{
    if es.len() == 0 {
        4
    } else {
        let m = name_width(es.drop_last());
        let l = listed_label(es.last()).len() as int;
        if l > m {
            l
        } else {
            m
        }
    }
}

/// A size in bytes as the listing shows it: whole gigabytes, megabytes or
/// kilobytes (by powers of ten), or bytes.
pub open spec fn size_text(size: nat) -> Seq<char> {
    if size >= 1_000_000_000 {
        decimal(size / 1_000_000_000).push('G')
    } else if size >= 1_000_000 {
        decimal(size / 1_000_000).push('M')
    } else if size >= 1_000 {
        decimal(size / 1_000).push('K')
    } else {
        decimal(size).push('B')
    }
}

/// The proleptic Gregorian date (year, month, day) of a day counted from
/// 1970-01-01, by 400-year eras of 146097 days whose years start in March.
pub open spec fn civil_from_days(days: int) -> (int, int, int) {
    let z = days + 719_468;
    let era = (if z >= 0 { z } else { z - 146_096 }) / 146_097;
    let doe = z - era * 146_097;
    let yoe = (doe - doe / 1_460 + doe / 36_524 - doe / 146_096) / 365;
    let year = yoe + era * 400;
    let doy = doe - (365 * yoe + yoe / 4 - yoe / 100);
    let mp = (5 * doy + 2) / 153;
    let day = doy - (153 * mp + 2) / 5 + 1;
    let month = mp + if mp < 10 { 3int } else { -9int };
    (year + if month <= 2 { 1int } else { 0int }, month, day)
}

/// The year in which a modification time falls.
pub open spec fn year_of(secs: nat) -> int {
    civil_from_days((secs / 86_400) as int).0
}

/// Whether the known modification times fall in more than one year.
pub open spec fn several_years(es: Seq<ListedEntry>) -> bool {
    exists|i: int, j: int|
        0 <= i < es.len() && 0 <= j < es.len() && (#[trigger] es[i].modified) is Some && (#[trigger] es[j].modified) is Some
            && year_of(es[i].modified->0 as nat) != year_of(es[j].modified->0 as nat)
}

/// A modification time as the listing shows it: `MM/DD hh:mm`, with the
/// year in front when the listing spans several years.
pub open spec fn mtime_text(modified: Option<u64>, include_year: bool) -> Seq<char> {
    match modified {
        None => seq!['-', '-', '/', '-', '-', ' ', '-', '-', ':', '-', '-'],
        Some(secs) => {
            let (year, month, day) = civil_from_days((secs / 86_400) as int);
            let hour = (secs % 86_400) / 3600;
            let minute = (secs % 3600) / 60;
            let tail = zero_padded(month, 2) + seq!['/'] + zero_padded(day, 2) + seq![' '] + zero_padded(hour as int, 2)
                + seq![':'] + zero_padded(minute as int, 2);
            if include_year {
                zero_padded(year, 4) + seq!['/'] + tail
            } else {
                tail
            }
        },
    }
}

pub open spec fn mtime_width(include_year: bool) -> int {
    if include_year {
        16
    } else {
        11
    }
}

/// The header row's text.
pub open spec fn header_text(nw: int, include_year: bool) -> Seq<char> {
    pad_right(seq!['N', 'a', 'm', 'e'], nw) + seq![' '] + pad_left(seq!['s', 'i', 'z', 'e'], 8, ' ') + seq![' ', ' ']
        + pad_right(seq!['m', 't', 'i', 'm', 'e'], mtime_width(include_year))
}

/// An entry's row text: label, size and modification time in columns.
pub open spec fn entry_text(e: ListedEntry, nw: int, include_year: bool) -> Seq<char> {
    pad_right(listed_label(e), nw) + seq![' '] + pad_left(size_text(e.size as nat), 8, ' ') + seq![' ', ' ']
        + pad_right(mtime_text(e.modified, include_year), mtime_width(include_year))
}

/// The rows of the listing in a viewport of `lines` rows and `cols`
/// columns: the message alone when there is one, else the header and the
/// entries from `offset` on, each clipped at the horizontal scroll.
pub open spec fn workdir_rows(
    es: Seq<ListedEntry>,
    message: Option<Seq<char>>,
    offset: int,
    lines: int,
    cols: int,
    scroll_x: int,
    selected: Option<usize>,
) -> Seq<(Seq<char>, RowTone, bool)> {
    match message {
        Some(m) => seq![(clipped(m, scroll_x, cols), RowTone::Message, false)],
        None => {
            let nw = name_width(es);
            let iy = several_years(es);
            let room = if lines >= 1 { lines - 1 } else { 0 };
            let left = if offset < es.len() { es.len() - offset } else { 0 };
            let count = if room < left { room } else { left };
            seq![(clipped(header_text(nw, iy), scroll_x, cols), RowTone::Header, false)] + Seq::new(
                count as nat,
                |k: int|
                    (
                        clipped(entry_text(es[offset + k], nw, iy), scroll_x, cols),
                        entry_tone(es[offset + k]),
                        selected == Some((offset + k) as usize),
                    ),
            )
        },
    }
}

proof fn lemma_year_of_era(doe: u32)
    by (bit_vector)
    requires
        doe < 146_097,
    ensures
        (doe - doe / 1_460 + doe / 36_524 - doe / 146_096) / 365 <= 399,
        365 * ((doe - doe / 1_460 + doe / 36_524 - doe / 146_096) / 365) + ((doe - doe / 1_460 + doe / 36_524
            - doe / 146_096) / 365) / 4 - ((doe - doe / 1_460 + doe / 36_524 - doe / 146_096) / 365) / 100 <= doe,
        doe - (365 * ((doe - doe / 1_460 + doe / 36_524 - doe / 146_096) / 365) + ((doe - doe / 1_460 + doe
            / 36_524 - doe / 146_096) / 365) / 4 - ((doe - doe / 1_460 + doe / 36_524 - doe / 146_096) / 365)
            / 100) <= 365,
{
}

proof fn lemma_day_of_year(doy: u32)
    by (bit_vector)
    requires
        doy <= 365,
    ensures
        (5 * doy + 2) / 153 <= 11,
        (153 * ((5 * doy + 2) / 153) + 2) / 5 <= doy,
        doy - (153 * ((5 * doy + 2) / 153) + 2) / 5 + 1 <= 31,
{
}

/// The date of a day counted from 1970-01-01.
fn civil_date(days: u64) -> (r: (u64, u64, u64))
    requires
        days <= 1_000_000_000_000_000,
    ensures
        (r.0 as int, r.1 as int, r.2 as int) == civil_from_days(days as int),
        1 <= r.1 <= 12,
        1 <= r.2 <= 31,
{
    let z: u64 = days + 719_468;
    let era: u64 = z / 146_097;
    let doe: u64 = z % 146_097;
    assert(doe == z - era * 146_097) by (nonlinear_arith)
        requires
            era == z / 146_097,
            doe == z % 146_097,
    ;
    proof {
        lemma_year_of_era(doe as u32);
    }
    let yoe: u64 = (doe - doe / 1_460 + doe / 36_524 - doe / 146_096) / 365;
    let year: u64 = yoe + era * 400;
    let doy: u64 = doe - (365 * yoe + yoe / 4 - yoe / 100);
    proof {
        lemma_day_of_year(doy as u32);
    }
    let mp: u64 = (5 * doy + 2) / 153;
    let day: u64 = doy - (153 * mp + 2) / 5 + 1;
    let month: u64 = if mp < 10 {
        mp + 3
    } else {
        mp - 9
    };
    let y: u64 = if month <= 2 {
        year + 1
    } else {
        year
    };
    (y, month, day)
}

/// An entry's label as the listing shows it.
fn listed_label_chars(e: &ListedEntry) -> (r: Vec<char>)
    ensures
        r@ == listed_label(*e),
{
    let label = workdir_entry_label(&WorkdirEntry { name: e.name.clone(), path: String::new(), kind: e.kind });
    let mut v = chars_of(label.as_str());
    if e.kind == WorkdirEntryKind::Symlink {
        v.push(' ');
        v.push('-');
        v.push('>');
        v.push(' ');
        let t = chars_of(e.link_target.as_str());
        extend_chars(&mut v, t.as_slice());
    }
    assert(v@ =~= listed_label(*e));
    v
}

fn entry_tone_of(e: &ListedEntry) -> (r: RowTone)
    ensures
        r == entry_tone(*e),
{
    match e.kind {
        WorkdirEntryKind::Directory => RowTone::Directory,
        WorkdirEntryKind::Symlink => RowTone::Symlink,
        WorkdirEntryKind::File => if e.executable {
            RowTone::Executable
        } else {
            RowTone::Plain
        },
    }
}

/// The width of the name column.
fn name_width_of(es: &[ListedEntry]) -> (r: usize)
    ensures
        r == name_width(es@),
{
    let mut m: usize = 4;
    let mut i: usize = 0;
    assert(es@.take(0) =~= Seq::<ListedEntry>::empty());
    while i < es.len()
        invariant
            i <= es.len(),
            m == name_width(es@.take(i as int)),
        decreases es.len() - i,
    {
        assert(es@.take(i + 1).drop_last() =~= es@.take(i as int));
        assert(es@.take(i + 1).last() == es@[i as int]);
        let l = listed_label_chars(&es[i]).len();
        if l > m {
            m = l;
        }
        i = i + 1;
    }
    assert(es@.take(es.len() as int) =~= es@);
    m
}

fn size_text_chars(size: u64) -> (r: Vec<char>)
    ensures
        r@ == size_text(size as nat),
{
    let (n, unit) = if size >= 1_000_000_000 {
        (size / 1_000_000_000, 'G')
    } else if size >= 1_000_000 {
        (size / 1_000_000, 'M')
    } else if size >= 1_000 {
        (size / 1_000, 'K')
    } else {
        (size, 'B')
    };
    let mut v = decimal_chars(n);
    v.push(unit);
    v
}

fn year_of_secs(secs: u64) -> (r: u64)
    ensures
        r as int == year_of(secs as nat),
{
    let (y, _m, _d) = civil_date(secs / 86_400);
    y
}

/// Whether the known modification times fall in more than one year.
fn spans_several_years(es: &[ListedEntry]) -> (r: bool)
    ensures
        r == several_years(es@),
{
    let mut first: Option<(usize, u64)> = None;
    let mut i: usize = 0;
    while i < es.len()
        invariant
            i <= es.len(),
            match first {
                None => forall|k: int| 0 <= k < i ==> (#[trigger] es@[k].modified) is None,
                Some((f, y)) => f < i && es@[f as int].modified is Some && y as int == year_of(
                    es@[f as int].modified->0 as nat,
                ) && forall|k: int|
                    0 <= k < i && (#[trigger] es@[k].modified) is Some ==> year_of(es@[k].modified->0 as nat) == y,
            },
        decreases es.len() - i,
    {
        match es[i].modified {
            None => {},
            Some(secs) => {
                let y = year_of_secs(secs);
                match first {
                    None => {
                        first = Some((i, y));
                    },
                    Some((f, fy)) => {
                        if y != fy {
                            assert(es@[f as int].modified is Some && es@[i as int].modified is Some);
                            return true;
                        }
                    },
                }
            },
        }
        i = i + 1;
    }
    proof {
        if several_years(es@) {
            let (a, b) = choose|a: int, b: int|
                0 <= a < es@.len() && 0 <= b < es@.len() && (#[trigger] es@[a].modified) is Some && (#[trigger] es@[
                    b
                ].modified) is Some && year_of(es@[a].modified->0 as nat) != year_of(es@[b].modified->0 as nat);
            assert(es@[a].modified is Some);
            assert(es@[b].modified is Some);
        }
    }
    false
}

/// A modification time as the listing shows it.
fn mtime_text_chars(modified: Option<u64>, include_year: bool) -> (r: Vec<char>)
    ensures
        r@ == mtime_text(modified, include_year),
{
    match modified {
        None => {
            let v = chars_of("--/-- --:--");
            proof {
                reveal_strlit("--/-- --:--");
            }
            assert(v@ =~= mtime_text(modified, include_year));
            v
        },
        Some(secs) => {
            let (year, month, day) = civil_date(secs / 86_400);
            let hour: u64 = (secs % 86_400) / 3600;
            let minute: u64 = (secs % 3600) / 60;
            let mut v: Vec<char> = Vec::new();
            if include_year {
                let y = zero_padded_chars(year as i64, 4);
                extend_chars(&mut v, y.as_slice());
                v.push('/');
            }
            let ghost lead = v@;
            let m = zero_padded_chars(month as i64, 2);
            extend_chars(&mut v, m.as_slice());
            v.push('/');
            let d = zero_padded_chars(day as i64, 2);
            extend_chars(&mut v, d.as_slice());
            v.push(' ');
            let h = zero_padded_chars(hour as i64, 2);
            extend_chars(&mut v, h.as_slice());
            v.push(':');
            let mi = zero_padded_chars(minute as i64, 2);
            extend_chars(&mut v, mi.as_slice());
            assert(v@ =~= mtime_text(modified, include_year));
            v
        },
    }
}

fn header_text_chars(nw: usize, include_year: bool) -> (r: Vec<char>)
    ensures
        r@ == header_text(nw as int, include_year),
{
    let name = chars_of("Name");
    let size = chars_of("size");
    let mtime = chars_of("mtime");
    proof {
        reveal_strlit("Name");
        reveal_strlit("size");
        reveal_strlit("mtime");
    }
    assert(name@ =~= seq!['N', 'a', 'm', 'e']);
    assert(size@ =~= seq!['s', 'i', 'z', 'e']);
    assert(mtime@ =~= seq!['m', 't', 'i', 'm', 'e']);
    let mw: usize = if include_year {
        16
    } else {
        11
    };
    let mut v = pad_right_chars(name.as_slice(), nw);
    v.push(' ');
    let s = pad_left_chars(size.as_slice(), 8, ' ');
    extend_chars(&mut v, s.as_slice());
    v.push(' ');
    v.push(' ');
    let m = pad_right_chars(mtime.as_slice(), mw);
    extend_chars(&mut v, m.as_slice());
    assert(v@ =~= header_text(nw as int, include_year));
    v
}

fn entry_text_chars(e: &ListedEntry, nw: usize, include_year: bool) -> (r: Vec<char>)
    ensures
        r@ == entry_text(*e, nw as int, include_year),
{
    let label = listed_label_chars(e);
    let mw: usize = if include_year {
        16
    } else {
        11
    };
    let mut v = pad_right_chars(label.as_slice(), nw);
    v.push(' ');
    let size = size_text_chars(e.size);
    let s = pad_left_chars(size.as_slice(), 8, ' ');
    extend_chars(&mut v, s.as_slice());
    v.push(' ');
    v.push(' ');
    let mt = mtime_text_chars(e.modified, include_year);
    let m = pad_right_chars(mt.as_slice(), mw);
    extend_chars(&mut v, m.as_slice());
    assert(v@ =~= entry_text(*e, nw as int, include_year));
    v
}

/// The rows of the working-directory listing in a viewport of `lines` rows
/// and `cols` columns, from entry `offset` on, scrolled sideways by
/// `scroll_x`; `selected` marks the selected entry.
pub fn workdir_text(
    es: &[ListedEntry],
    message: Option<&str>,
    offset: usize,
    lines: usize,
    cols: usize,
    scroll_x: usize,
    selected: Option<usize>,
) -> (r: Vec<WorkdirRow>)
    ensures
        row_views(r@) == workdir_rows(
            es@,
            match message {
                Some(m) => Some(m@),
                None => None,
            },
            offset as int,
            lines as int,
            cols as int,
            scroll_x as int,
            selected,
        ),
{
    let mut out: Vec<WorkdirRow> = Vec::new();
    match message {
        Some(m) => {
            let mc = chars_of(m);
            out.push(WorkdirRow { text: clip_line(mc.as_slice(), scroll_x, cols), tone: RowTone::Message, selected: false });
            assert(row_views(out@) =~= workdir_rows(es@, Some(m@), offset as int, lines as int, cols as int, scroll_x as int, selected));
            return out;
        },
        None => {},
    }
    let nw = name_width_of(es);
    let iy = spans_several_years(es);
    let header = header_text_chars(nw, iy);
    out.push(WorkdirRow { text: clip_line(header.as_slice(), scroll_x, cols), tone: RowTone::Header, selected: false });
    let room: usize = if lines >= 1 {
        lines - 1
    } else {
        0
    };
    let left: usize = if offset < es.len() {
        es.len() - offset
    } else {
        0
    };
    let count: usize = if room < left {
        room
    } else {
        left
    };
    let ghost target = workdir_rows(es@, None, offset as int, lines as int, cols as int, scroll_x as int, selected);
    let mut k: usize = 0;
    while k < count
        invariant
            k <= count,
            count <= left,
            left == (if offset < es.len() { es.len() - offset } else { 0 }),
            nw as int == name_width(es@),
            iy == several_years(es@),
            target == workdir_rows(es@, None, offset as int, lines as int, cols as int, scroll_x as int, selected),
            target.len() == count + 1,
            row_views(out@) == target.take(k + 1),
        decreases count - k,
    {
        let i = offset + k;
        let t = entry_text_chars(&es[i], nw, iy);
        let row = WorkdirRow {
            text: clip_line(t.as_slice(), scroll_x, cols),
            tone: entry_tone_of(&es[i]),
            selected: match selected {
                Some(s) => s == i,
                None => false,
            },
        };
        assert(row@ == target[k + 1]);
        let ghost before = row_views(out@);
        out.push(row);
        assert(row_views(out@) =~= before.push(row@));
        assert(target.take(k + 2) =~= target.take(k + 1).push(target[k + 1]));
        k = k + 1;
    }
    assert(target.take(count + 1) =~= target);
    out
}

// ---------------------------------------------------------------------------
// The panel's text and scrollbars
// ---------------------------------------------------------------------------

/// A scrollbar: how far the content can scroll, and where it stands.
#[derive(Clone, Copy, PartialEq, Eq, Structural, Debug)]
pub struct ScrollbarModel {
    pub max_offset: usize,
    pub position: usize,
}

impl OutputPanel {
    /// The rows of the followed file's text in `viewport`; none when the
    /// file could not be read (the panel then shows the error).
    pub fn output_rows(&self, viewport: Rect) -> (r: Option<Vec<FitRow>>)
        ensures
            match self.job_output {
                Ok(c) => r is Some && fit_views(r->0@) == fitted_rows(
                    c@,
                    viewport.height as int,
                    viewport.width as int,
                    self.anchor,
                    self.offset as int,
                    self.wrap,
                    self.scroll_x as int,
                ),
                Err(_) => r is None,
            },
    {
        match &self.job_output {
            Ok(c) => {
                let t = chars_of(c.as_str());
                Some(
                    fit_text(
                        t.as_slice(),
                        viewport.height as usize,
                        viewport.width as usize,
                        self.anchor,
                        self.offset as usize,
                        self.wrap,
                        self.scroll_x as usize,
                    ),
                )
            },
            Err(_) => None,
        }
    }

    /// The vertical scrollbar of a `viewport`: the content's height less
    /// the viewport's, and the first line shown counted from the top (for
    /// output read from the bottom, the offset counted back from the end).
    pub open spec fn spec_vertical_scrollbar(self, viewport: Rect) -> ScrollbarModel {
        let height = self.spec_content_height_for(viewport.width);
        let max = if height > viewport.height { height - viewport.height } else { 0 };
        ScrollbarModel {
            max_offset: max as usize,
            position: match self.mode {
                OutputPanelMode::Workdir => self.workdir_offset,
                OutputPanelMode::Collapsed => 0,
                _ => match self.anchor {
                    ScrollAnchor::Top => self.offset as usize,
                    ScrollAnchor::Bottom => (if max > self.offset { max - self.offset } else { 0 }) as usize,
                },
            },
        }
    }

    pub fn vertical_scrollbar(&self, viewport: Rect) -> (r: ScrollbarModel)
        requires
            self.wf(),
        ensures
            r == self.spec_vertical_scrollbar(viewport),
    {
        let height = self.output_content_height_for(viewport.width);
        let max: usize = if height > viewport.height as usize {
            height - viewport.height as usize
        } else {
            0
        };
        let position: usize = match self.mode {
            OutputPanelMode::Workdir => self.workdir_offset,
            OutputPanelMode::Collapsed => 0,
            _ => match self.anchor {
                ScrollAnchor::Top => self.offset as usize,
                ScrollAnchor::Bottom => if max > self.offset as usize {
                    max - self.offset as usize
                } else {
                    0
                },
            },
        };
        ScrollbarModel { max_offset: max, position }
    }

    /// The horizontal scrollbar of a `viewport`: the widest line less the
    /// viewport's width, and the first column shown.
    pub fn horizontal_scrollbar(&self, viewport: Rect) -> (r: ScrollbarModel)
        requires
            self.wf(),
        ensures
            r.max_offset == (if self.spec_content_width() > viewport.width {
                self.spec_content_width() - viewport.width
            } else {
                0
            }),
            r.position == self.scroll_x,
    {
        let width = self.output_content_width();
        let max: usize = if width > viewport.width as usize {
            width - viewport.width as usize
        } else {
            0
        };
        ScrollbarModel { max_offset: max, position: self.scroll_x as usize }
    }
}

} // verus!
