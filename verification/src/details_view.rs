//! The details panel: the selected job's fields as labelled, wrapped lines,
//! grouped by field, and the rows that mouse selection reads from them.
use vstd::prelude::*;

use crate::app::App;
use crate::geometry::{sat_add_u16, sat_sub_u16, Rect};
use crate::job::{Job, JobModel};
use crate::layout_text::{tres_chunks_chars, tres_lines};
use crate::selection::DetailsSelectionRow;
use crate::split::views;
use crate::text::{chars_of, chars_eq, filled, pad_right, pad_right_chars, push_filled, slice_of};
use crate::ui::OutputPanelMode;

verus! {

/// A line of the details panel: the field it belongs to (counted from 0),
/// the label column, and the part of the value on this line.
pub struct DetailLine {
    pub group: usize,
    pub prefix: Vec<char>,
    pub value: Vec<char>,
}

impl View for DetailLine {
    type V = (usize, Seq<char>, Seq<char>);

    open spec fn view(&self) -> (usize, Seq<char>, Seq<char>) {
        (self.group, self.prefix@, self.value@)
    }
}

pub open spec fn line_views(v: Seq<DetailLine>) -> Seq<(usize, Seq<char>, Seq<char>)> {
    v.map_values(|l: DetailLine| l@)
}

/// `v` in pieces of `n` characters, the last one shorter; none for an empty
/// value.
pub open spec fn fixed_chunks(v: Seq<char>, n: int) -> Seq<Seq<char>>
    decreases v.len(),
{
    if n < 1 || v.len() == 0 {
        Seq::<Seq<char>>::empty()
    } else if v.len() <= n {
        seq![v]
    } else {
        seq![v.take(n)] + fixed_chunks(v.skip(n), n)
    }
}

pub open spec fn tres_label() -> Seq<char> {
    seq!['T', 'R', 'E', 'S']
}

/// The columns left for a value beside the 8-column label and its space,
/// at least one.
pub open spec fn value_width(width: int) -> int {
    if width - 9 >= 1 {
        width - 9
    } else {
        1
    }
}

/// The pieces a value takes: TRES lists wrap between items, other values
/// every `value_width` characters; an empty value still takes one line.
pub open spec fn detail_chunks(label: Seq<char>, value: Seq<char>, width: int) -> Seq<Seq<char>> {
    let c = if label == tres_label() {
        tres_lines(value, value_width(width))
    } else {
        fixed_chunks(value, value_width(width))
    };
    if c.len() == 0 {
        seq![Seq::<char>::empty()]
    } else {
        c
    }
}

/// The label column: the label padded to 8 and a space on the first line,
/// blanks on the others.
pub open spec fn detail_prefix(label: Seq<char>, i: int) -> Seq<char> {
    if i == 0 {
        pad_right(label, 8).push(' ')
    } else {
        filled(9, ' ')
    }
}

/// The lines of one field.
pub open spec fn detail_lines(group: usize, label: Seq<char>, value: Seq<char>, width: int) -> Seq<
    (usize, Seq<char>, Seq<char>),
> {
    detail_chunks(label, value, width).map(|i: int, c: Seq<char>| (group, detail_prefix(label, i), c))
}

/// A value cut every `n` characters.
fn fixed_chunks_chars(v: &[char], n: usize) -> (r: Vec<Vec<char>>)
    requires
        n >= 1,
    ensures
        views(r@) == fixed_chunks(v@, n as int),
{
    let mut out: Vec<Vec<char>> = Vec::new();
    let mut i: usize = 0;
    assert(v@.skip(0) =~= v@);
    assert(views(out@) + fixed_chunks(v@.skip(0), n as int) =~= fixed_chunks(v@, n as int));
    while i < v.len()
        invariant
            n >= 1,
            i <= v.len(),
            views(out@) + fixed_chunks(v@.skip(i as int), n as int) == fixed_chunks(v@, n as int),
        decreases v.len() - i,
    {
        let end: usize = if v.len() - i <= n {
            v.len()
        } else {
            i + n
        };
        let piece = slice_of(v, i, end);
        let ghost rest = v@.skip(i as int);
        let ghost before = views(out@);
        out.push(piece);
        assert(views(out@) =~= before.push(piece@));
        if end == v.len() {
            assert(piece@ =~= rest);
            assert(v@.skip(end as int) =~= Seq::<char>::empty());
            assert(fixed_chunks(rest, n as int) == seq![rest]);
            assert(views(out@) + fixed_chunks(v@.skip(end as int), n as int) =~= before + fixed_chunks(rest, n as int));
        } else {
            assert(piece@ =~= rest.take(n as int));
            assert(rest.skip(n as int) =~= v@.skip(end as int));
            assert(views(out@) + fixed_chunks(v@.skip(end as int), n as int) =~= before + fixed_chunks(rest, n as int));
        }
        i = end;
    }
    assert(v@.skip(v.len() as int) =~= Seq::<char>::empty());
    assert(views(out@) =~= views(out@) + fixed_chunks(v@.skip(v.len() as int), n as int));
    out
}

/// Appends the lines of one field: its label and value wrapped to a panel
/// `width` columns wide, all in `group`.
pub fn append_detail(lines: &mut Vec<DetailLine>, group: usize, label: &[char], value: &[char], width: u16)
    ensures
        line_views(final(lines)@) == line_views(old(lines)@) + detail_lines(group, label@, value@, width as int),
{
    let vw: usize = if width >= 10 {
        (width - 9) as usize
    } else {
        1
    };
    let tres = chars_of("TRES");
    proof {
        reveal_strlit("TRES");
    }
    assert(tres@ =~= tres_label());
    let chunks = if chars_eq(label, tres.as_slice()) {
        tres_chunks_chars(value, vw)
    } else {
        fixed_chunks_chars(value, vw)
    };
    let ghost cs = detail_chunks(label@, value@, width as int);
    let ghost target = detail_lines(group, label@, value@, width as int);
    let ghost start = line_views(lines@);
    if chunks.len() == 0 {
        let mut prefix = pad_right_chars(label, 8);
        prefix.push(' ');
        lines.push(DetailLine { group, prefix, value: Vec::new() });
        assert(cs =~= seq![Seq::<char>::empty()]);
        assert(line_views(lines@) =~= start + target);
        return;
    }
    assert(views(chunks@) == cs);
    let mut i: usize = 0;
    while i < chunks.len()
        invariant
            i <= chunks.len(),
            views(chunks@) == cs,
            cs == detail_chunks(label@, value@, width as int),
            target == detail_lines(group, label@, value@, width as int),
            target.len() == cs.len(),
            line_views(lines@) == start + target.take(i as int),
        decreases chunks.len() - i,
    {
        let prefix = if i == 0 {
            let mut p = pad_right_chars(label, 8);
            p.push(' ');
            p
        } else {
            let mut p: Vec<char> = Vec::new();
            push_filled(&mut p, 9, ' ');
            assert(p@ =~= filled(9, ' '));
            p
        };
        assert(views(chunks@)[i as int] == chunks@[i as int]@);
        let value_part = slice_of(chunks[i].as_slice(), 0, chunks[i].len());
        assert(chunks@[i as int]@.subrange(0, chunks@[i as int]@.len() as int) =~= chunks@[i as int]@);
        let line = DetailLine { group, prefix, value: value_part };
        assert(line@ == target[i as int]);
        let ghost before = line_views(lines@);
        lines.push(line);
        assert(line_views(lines@) =~= before.push(line@));
        assert(target.take(i + 1) =~= target.take(i as int).push(target[i as int]));
        i = i + 1;
    }
    assert(target.take(chunks.len() as int) =~= target);
}

// ---------------------------------------------------------------------------
// The selected job's fields
// ---------------------------------------------------------------------------

pub open spec fn or_empty(o: Option<Seq<char>>) -> Seq<char> {
    match o {
        Some(v) => v,
        None => Seq::<char>::empty(),
    }
}

pub open spec fn pending() -> Seq<char> {
    seq!['P', 'E', 'N', 'D', 'I', 'N', 'G']
}

/// The label of the last field: the file or directory the output panel
/// follows.
pub open spec fn output_label(mode: OutputPanelMode) -> Seq<char> {
    match mode {
        OutputPanelMode::Stderr => seq!['s', 't', 'd', 'e', 'r', 'r'],
        OutputPanelMode::Workdir => seq!['w', 'o', 'r', 'k', 'd', 'i', 'r'],
        _ => seq!['s', 't', 'd', 'o', 'u', 't'],
    }
}

/// The path the last field shows.
pub open spec fn output_value(j: JobModel, mode: OutputPanelMode, workdir: Option<Seq<char>>) -> Seq<char> {
    match mode {
        OutputPanelMode::Stderr => or_empty(j.stderr),
        OutputPanelMode::Workdir => or_empty(workdir),
        _ => or_empty(j.stdout),
    }
}

/// The fields the details panel shows, as (label, value), in order: the
/// state, the start time of a pending job, the reason if any, name,
/// command, nodes, TRES, and the followed path.
pub open spec fn detail_fields(j: JobModel, mode: OutputPanelMode, workdir: Option<Seq<char>>) -> Seq<(Seq<char>, Seq<char>)> {
    seq![(seq!['S', 't', 'a', 't', 'e'], j.state)] + (if j.state == pending() {
        seq![(seq!['S', 't', 'a', 'r', 't'], j.start_time)]
    } else {
        Seq::<(Seq<char>, Seq<char>)>::empty()
    }) + (match j.reason {
        Some(r) => seq![(seq!['R', 'e', 'a', 's', 'o', 'n'], r)],
        None => Seq::<(Seq<char>, Seq<char>)>::empty(),
    }) + seq![
        (seq!['N', 'a', 'm', 'e'], j.name),
        (seq!['C', 'o', 'm', 'm', 'a', 'n', 'd'], j.command),
        (seq!['N', 'o', 'd', 'e', 's'], j.nodelist),
        (tres_label(), j.tres),
        (output_label(mode), output_value(j, mode, workdir)),
    ]
}

/// The lines of the fields from the `k`-th on... of the first `k` fields,
/// each field its own group.
pub open spec fn fields_lines(fs: Seq<(Seq<char>, Seq<char>)>, width: int) -> Seq<(usize, Seq<char>, Seq<char>)>
    decreases fs.len(),
{
    if fs.len() == 0 {
        Seq::<(usize, Seq<char>, Seq<char>)>::empty()
    } else {
        fields_lines(fs.drop_last(), width) + detail_lines(
            (fs.len() - 1) as usize,
            fs.last().0,
            fs.last().1,
            width,
        )
    }
}

/// The details panel's lines for a job, in a panel whose text is `width`
/// columns wide.
pub open spec fn job_detail_lines(j: JobModel, mode: OutputPanelMode, workdir: Option<Seq<char>>, width: int) -> Seq<
    (usize, Seq<char>, Seq<char>),
> {
    fields_lines(detail_fields(j, mode, workdir), width)
}

/// The (label, value) pairs of two lists of the same length.
pub open spec fn pairs(labels: Seq<Vec<char>>, values: Seq<Vec<char>>) -> Seq<(Seq<char>, Seq<char>)> {
    Seq::new(labels.len(), |k: int| (labels[k]@, values[k]@))
}

fn push_field(labels: &mut Vec<Vec<char>>, values: &mut Vec<Vec<char>>, label: Vec<char>, value: Vec<char>)
    requires
        old(labels)@.len() == old(values)@.len(),
    ensures
        final(labels)@.len() == final(values)@.len(),
        pairs(final(labels)@, final(values)@) == pairs(old(labels)@, old(values)@).push((label@, value@)),
{
    let ghost before = pairs(labels@, values@);
    labels.push(label);
    values.push(value);
    assert(pairs(labels@, values@) =~= before.push((label@, value@)));
}

fn str_chars(s: &str) -> (r: Vec<char>)
    ensures
        r@ == s@,
{
    chars_of(s)
}

fn opt_chars(o: &Option<String>) -> (r: Vec<char>)
    ensures
        r@ == or_empty(crate::job::opt_view(*o)),
{
    match o {
        Some(v) => chars_of(v.as_str()),
        None => Vec::new(),
    }
}

/// The details panel's lines for a job: each field wrapped to the panel's
/// text width, the fields numbered as groups from 0.
pub fn job_details(job: &Job, mode: OutputPanelMode, workdir_path: &Option<String>, width: u16) -> (r: Vec<DetailLine>)
    ensures
        line_views(r@) == job_detail_lines(job@, mode, crate::job::opt_view(*workdir_path), width as int),
{
    let ghost fs = detail_fields(job@, mode, crate::job::opt_view(*workdir_path));
    proof {
        reveal_strlit("PENDING");
        reveal_strlit("State");
        reveal_strlit("Start");
        reveal_strlit("Reason");
        reveal_strlit("Name");
        reveal_strlit("Command");
        reveal_strlit("Nodes");
        reveal_strlit("TRES");
        reveal_strlit("stdout");
        reveal_strlit("stderr");
        reveal_strlit("workdir");
    }
    let mut labels: Vec<Vec<char>> = Vec::new();
    let mut values: Vec<Vec<char>> = Vec::new();
    push_field(&mut labels, &mut values, chars_of("State"), str_chars(job.state.as_str()));
    let ghost head = pairs(labels@, values@);
    assert(head =~~= seq![(seq!['S', 't', 'a', 't', 'e'], job@.state)]);
    let pend = chars_of("PENDING");
    let state = str_chars(job.state.as_str());
    assert(pend@ =~= pending());
    if chars_eq(state.as_slice(), pend.as_slice()) {
        push_field(&mut labels, &mut values, chars_of("Start"), str_chars(job.start_time.as_str()));
    }
    let ghost with_start = pairs(labels@, values@);
    assert(with_start =~~= head + (if job@.state == pending() {
        seq![(seq!['S', 't', 'a', 'r', 't'], job@.start_time)]
    } else {
        Seq::<(Seq<char>, Seq<char>)>::empty()
    }));
    match &job.reason {
        Some(r) => {
            push_field(&mut labels, &mut values, chars_of("Reason"), str_chars(r.as_str()));
        },
        None => {},
    }
    let ghost with_reason = pairs(labels@, values@);
    assert(with_reason =~~= with_start + (match job@.reason {
        Some(r) => seq![(seq!['R', 'e', 'a', 's', 'o', 'n'], r)],
        None => Seq::<(Seq<char>, Seq<char>)>::empty(),
    }));
    push_field(&mut labels, &mut values, chars_of("Name"), str_chars(job.name.as_str()));
    push_field(&mut labels, &mut values, chars_of("Command"), str_chars(job.command.as_str()));
    push_field(&mut labels, &mut values, chars_of("Nodes"), str_chars(job.nodelist.as_str()));
    push_field(&mut labels, &mut values, chars_of("TRES"), str_chars(job.tres.as_str()));
    let (out_label, out_value) = match mode {
        OutputPanelMode::Stderr => (chars_of("stderr"), opt_chars(&job.stderr)),
        OutputPanelMode::Workdir => (chars_of("workdir"), opt_chars(workdir_path)),
        _ => (chars_of("stdout"), opt_chars(&job.stdout)),
    };
    assert(out_label@ == output_label(mode));
    assert(out_value@ == output_value(job@, mode, crate::job::opt_view(*workdir_path)));
    push_field(&mut labels, &mut values, out_label, out_value);
    assert(pairs(labels@, values@) =~~= fs);
    let mut out: Vec<DetailLine> = Vec::new();
    let mut g: usize = 0;
    assert(fs.take(0) =~= Seq::<(Seq<char>, Seq<char>)>::empty());
    while g < labels.len()
        invariant
            labels.len() == values.len(),
            labels@.len() == fs.len(),
            fs == detail_fields(job@, mode, crate::job::opt_view(*workdir_path)),
            pairs(labels@, values@) == fs,
            g <= labels.len(),
            line_views(out@) == fields_lines(fs.take(g as int), width as int),
        decreases labels.len() - g,
    {
        assert(fs[g as int] == (labels@[g as int]@, values@[g as int]@));
        append_detail(&mut out, g, labels[g].as_slice(), values[g].as_slice(), width);
        assert(fs.take(g + 1).drop_last() =~= fs.take(g as int));
        assert(fs.take(g + 1).last() == fs[g as int]);
        g = g + 1;
    }
    assert(fs.take(labels.len() as int) =~= fs);
    out
}

// ---------------------------------------------------------------------------
// Rows for mouse selection
// ---------------------------------------------------------------------------

/// The selection row of the `i`-th line of the panel whose text area is
/// `inner`: one row per line from the top, the value starting 9 columns in.
pub open spec fn selection_row(group: usize, i: int, inner: Rect) -> DetailsSelectionRow {
    DetailsSelectionRow {
        y: sat_add_u16(inner.y, i as u16),
        group,
        left: inner.x,
        value_x: sat_add_u16(inner.x, 9),
        right: sat_sub_u16(sat_add_u16(inner.x, inner.width), 1),
    }
}

/// The rows that mouse selection reads from the panel's lines.
pub fn details_selection_rows(lines: &Vec<DetailLine>, inner: Rect) -> (r: Vec<DetailsSelectionRow>)
    ensures
        r@.len() == lines@.len(),
        forall|i: int| 0 <= i < lines@.len() ==> (#[trigger] r@[i]) == selection_row(lines@[i].group, i, inner),
{
    let mut out: Vec<DetailsSelectionRow> = Vec::new();
    let mut i: usize = 0;
    while i < lines.len()
        invariant
            i <= lines.len(),
            out@.len() == i,
            forall|k: int| 0 <= k < i ==> (#[trigger] out@[k]) == selection_row(lines@[k].group, k, inner),
        decreases lines.len() - i,
    {
        let row = DetailsSelectionRow {
            y: inner.y.saturating_add(i as u16),
            group: lines[i].group,
            left: inner.x,
            value_x: inner.x.saturating_add(9),
            right: inner.right().saturating_sub(1),
        };
        out.push(row);
        i = i + 1;
    }
    out
}

impl App {
    /// The details panel's lines for the selected job in a panel whose text
    /// is `width` columns wide; none without a selected job.
    pub fn details_lines(&self, width: u16) -> (r: Vec<DetailLine>)
        ensures
            match self.selected_job_view() {
                Some(j) => line_views(r@) == job_detail_lines(
                    j,
                    self.output.mode,
                    crate::job::opt_view(self.output.workdir_path),
                    width as int,
                ),
                None => r@.len() == 0,
            },
    {
        match self.selected_job() {
            Some(job) => job_details(job, self.output.mode, &self.output.workdir_path, width),
            None => Vec::new(),
        }
    }
}

} // verus!
