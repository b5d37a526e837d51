//! What holds of the library as a whole: of the job list's order, its
//! filter and selection, the output modes and positions.
use vstd::prelude::*;

use crate::filter::{parse_filter, visible_indices, FilterModel};
use crate::job::{job_id_text, opt_view, Job, JobModel};
use crate::job_list::{filter_applied, lemma_position_of, lemma_visible_range, position_of, restored, sort_updated, JobList};
use crate::order::Order;
use crate::output_panel::{min_u16, OutputPanel};
use crate::sorting::{
    bool_order, is_completed, job_model, job_order, in_order_at, sorted_jobs, JobSortField, SortDirection,
};
use crate::text::trim;
use crate::ui::OutputPanelMode;

verus! {

/// Completed jobs come last: in the list's order, whatever the column and
/// direction, no job that is not completed follows a completed one.
pub proof fn law_completed_jobs_last(js: Seq<Job>, field: JobSortField, dir: SortDirection, i: int, j: int)
    requires
        sorted_jobs(js, field, dir),
        0 <= i < j < js.len(),
        is_completed(job_model(js[i])),
    ensures
        is_completed(job_model(js[j])),
    decreases j - i,
{
    assert(in_order_at(js, i, field, dir));
    reveal(job_order);
    if !is_completed(job_model(js[i + 1])) {
        assert(bool_order(true, false) == Order::Greater);
        assert(false);
    }
    if i + 1 < j {
        law_completed_jobs_last(js, field, dir, i + 1, j);
    }
}

/// The output modes come round: four steps of Tab lead back to the mode
/// shown, through every other mode.
pub proof fn law_output_modes_cycle(m: OutputPanelMode)
    ensures
        m.spec_next().spec_next().spec_next().spec_next() == m,
        m.spec_next() != m,
        m.spec_next().spec_next() != m,
        m.spec_next().spec_next().spec_next() != m,
{
}

/// Turning the sort direction around twice leaves it as it was.
pub proof fn law_direction_toggle_twice(d: SortDirection)
    ensures
        d.spec_toggled().spec_toggled() == d,
        d.spec_toggled() != d,
{
}

/// Sorting twice by the same column gives back the direction it had.
pub proof fn law_same_column_twice(a: JobList, field: JobSortField, b: JobList, c: JobList)
    requires
        a.sort_field == field,
        sort_updated(a, field, b),
        sort_updated(b, field, c),
    ensures
        c.sort_field == field,
        c.sort_direction == a.sort_direction,
        c.jobs@.to_multiset() == a.jobs@.to_multiset(),
{
}

/// A new column is first sorted descending.
pub proof fn law_new_column_descending(a: JobList, field: JobSortField, b: JobList)
    requires
        a.sort_field != field,
        sort_updated(a, field, b),
    ensures
        b.sort_direction == SortDirection::Desc,
{
}

/// The job at a visible row has the identifier listed for that row.
proof fn lemma_visible_id(l: JobList, k: int)
    requires
        0 <= k < l.visible().len(),
    ensures
        0 <= l.visible()[k] < l.jobs@.len(),
        l.visible_ids()[k] == job_id_text(l.jobs@[l.visible()[k]]@),
{
    lemma_visible_range(crate::job::job_views(l.jobs@), parse_filter(l.active_filter@));
}

/// A selected job that stays visible stays selected: after the list is
/// re-sorted, filtered or replaced, the job with the identifier that was
/// selected is selected again wherever it is still listed.
pub proof fn law_selection_follows_job(old_list: JobList, new_list: JobList, id: Seq<char>)
    requires
        old_list.selected_id() == Some(id),
        new_list.visible_ids().contains(id),
        new_list.state == restored(old_list.state, new_list.visible_ids(), old_list.selected_id(), old_list.state.selected),
    ensures
        new_list.selected_id() == Some(id),
{
    let ids = new_list.visible_ids();
    lemma_position_of(ids, id);
    assert(position_of(ids, id) is Some);
    let p = position_of(ids, id)->0;
    lemma_visible_range(crate::job::job_views(new_list.jobs@), parse_filter(new_list.active_filter@));
    assert(new_list.jobs@.len() == new_list.jobs.len());
    assert(p < usize::MAX);
    assert(new_list.state.selected == Some(p as usize));
    lemma_visible_id(new_list, p);
    assert(new_list.selected_position() == Some(new_list.visible()[p]));
    assert(ids[p] == id);
}

/// Sorting keeps the selected job selected.
pub proof fn law_sort_keeps_selected_job(a: JobList, field: JobSortField, b: JobList, id: Seq<char>)
    requires
        sort_updated(a, field, b),
        a.selected_id() == Some(id),
        b.visible_ids().contains(id),
    ensures
        b.selected_id() == Some(id),
{
    law_selection_follows_job(a, b, id);
}

/// Filtering keeps the selected job selected where it passes the filter.
pub proof fn law_filter_keeps_selected_job(a: JobList, filter: Seq<char>, b: JobList, id: Seq<char>)
    requires
        filter_applied(a, filter, b),
        a.selected_id() == Some(id),
        b.visible_ids().contains(id),
    ensures
        b.selected_id() == Some(id),
{
    law_selection_follows_job(a, b, id);
}

/// A filter that leaves nothing visible clears the selection.
pub proof fn law_empty_list_selects_nothing(a: JobList, filter: Seq<char>, b: JobList)
    requires
        filter_applied(a, filter, b),
        b.visible().len() == 0,
    ensures
        b.selected_id() is None,
        b.state.selected is None,
        b.state.offset == 0,
{
}

/// An empty (or blank) filter query shows every job, in list order.
pub proof fn law_blank_filter_shows_all(js: Seq<JobModel>, query: Seq<char>)
    requires
        trim(query).len() == 0,
    ensures
        visible_indices(js, parse_filter(query)) == Seq::new(js.len(), |i: int| i),
    decreases js.len(),
{
    if js.len() > 0 {
        law_blank_filter_shows_all(js.drop_last(), query);
        assert(visible_indices(js, parse_filter(query)) =~= Seq::new(js.len(), |i: int| i));
    } else {
        assert(visible_indices(js, parse_filter(query)) =~= Seq::new(js.len(), |i: int| i));
    }
}

/// Every visible job passes the filter, and every job that passes it is
/// visible.
pub proof fn law_visible_iff_matches(js: Seq<JobModel>, f: FilterModel, p: int)
    requires
        0 <= p < js.len(),
    ensures
        visible_indices(js, f).contains(p) <==> crate::filter::filter_matches(f, js[p]),
    decreases js.len(),
{
    lemma_visible_range(js.drop_last(), f);
    if p < js.len() - 1 {
        law_visible_iff_matches(js.drop_last(), f, p);
        assert(js.drop_last()[p] == js[p]);
        let prev = visible_indices(js.drop_last(), f);
        if crate::filter::filter_matches(f, js.last()) {
            assert(visible_indices(js, f) == prev.push(js.len() - 1));
            let q = prev.push(js.len() - 1);
            if q.contains(p) {
                let k = choose|k: int| 0 <= k < q.len() && #[trigger] q[k] == p;
                if k < prev.len() {
                    assert(prev[k] == p);
                }
            }
            if prev.contains(p) {
                let k = choose|k: int| 0 <= k < prev.len() && #[trigger] prev[k] == p;
                assert(q[k] == p);
            }
        }
    } else {
        let prev = visible_indices(js.drop_last(), f);
        if prev.contains(p) {
            let k = choose|k: int| 0 <= k < prev.len() && #[trigger] prev[k] == p;
            assert(false);
        }
        if crate::filter::filter_matches(f, js.last()) {
            assert(visible_indices(js, f) == prev.push(js.len() - 1));
            assert(prev.push(js.len() - 1)[prev.len() as int] == p);
        }
    }
}

/// Scrolling the output keeps the offset within the content.
pub proof fn law_output_offset_in_range(o: OutputPanel, delta: u16)
    ensures
        o.offset_up(delta) <= o.spec_max_offset(),
        o.offset_down(delta) <= o.spec_max_offset(),
        o.after_sync().offset <= o.spec_max_offset() || !crate::output_panel::is_file_mode(o.mode),
{
}

/// After the listing settles, a selection lies on an entry, and only an
/// empty listing has none.
pub proof fn law_workdir_selection_in_listing(o: OutputPanel)
    requires
        o.mode == OutputPanelMode::Workdir,
    ensures
        match o.after_sync().workdir_selected {
            Some(i) => i < o.workdir_entries@.len(),
            None => o.workdir_entries@.len() == 0,
        },
{
}

/// The identifier of a parsed job is the one its line gave: `50_7` comes
/// apart into job `50` and array task `7` and is shown as `50_7` again.
pub proof fn law_job_id_round_trip(line: Seq<char>)
    requires
        crate::sacct::parse_sacct_line(line) is Some,
    ensures
        job_id_text(crate::sacct::parse_sacct_line(line)->0) == crate::sacct::line_id(
            crate::sacct::sacct_fields(line),
        )->0,
{
    let parts = crate::sacct::sacct_fields(line);
    let id = crate::sacct::line_id(parts)->0;
    match crate::split::split_once(id, '_') {
        Some(p) => {
            if p.0.len() > 0 && p.1.len() > 0 {
                lemma_first_index_valid(id, '_');
                let i = crate::split::first_index(id, '_')->0;
                assert(0 <= i < id.len() && id[i] == '_');
                assert(id.take(i) + seq!['_'] + id.skip(i + 1) =~= id);
            }
        },
        None => {},
    }
}

/// A character that occurs has a first occurrence.
proof fn lemma_first_occurrence(s: Seq<char>, d: char, j: int)
    requires
        0 <= j < s.len(),
        s[j] == d,
    ensures
        exists|i: int| 0 <= i < s.len() && s[i] == d && forall|k: int| 0 <= k < i ==> s[k] != d,
    decreases j,
{
    if exists|k: int| 0 <= k < j && s[k] == d {
        let k = choose|k: int| 0 <= k < j && s[k] == d;
        lemma_first_occurrence(s, d, k);
    } else {
        assert(0 <= j < s.len() && s[j] == d && forall|k: int| 0 <= k < j ==> s[k] != d);
    }
}

proof fn lemma_first_index_valid(s: Seq<char>, d: char)
    ensures
        crate::split::first_index(s, d) matches Some(i) ==> 0 <= i < s.len() && s[i] == d,
{
    if exists|j: int| 0 <= j < s.len() && s[j] == d {
        let j = choose|j: int| 0 <= j < s.len() && s[j] == d;
        lemma_first_occurrence(s, d, j);
    }
}

/// The characters of all pieces, in order.
pub open spec fn joined(ss: Seq<Seq<char>>) -> Seq<char>
    decreases ss.len(),
{
    if ss.len() == 0 {
        Seq::<char>::empty()
    } else {
        ss[0] + joined(ss.drop_first())
    }
}

proof fn lemma_joined_prepend(a: Seq<char>, rest: Seq<Seq<char>>)
    ensures
        joined(seq![a] + rest) == a + joined(rest),
{
    assert((seq![a] + rest).drop_first() =~= rest);
}

proof fn lemma_chunks_from_joined(s: Seq<char>, i: int, start: int, first: int, chunk: int)
    requires
        0 <= start <= i,
        start <= s.len(),
    ensures
        joined(crate::layout_text::chunks_from(s, i, start, first, chunk)) == s.subrange(start, s.len() as int),
    decreases s.len() - i,
{
    if i >= s.len() {
        let c = seq![s.subrange(start, s.len() as int)];
        assert(c.drop_first() =~= Seq::<Seq<char>>::empty());
        assert(joined(c.drop_first()) == Seq::<char>::empty());
        assert(c[0] == s.subrange(start, s.len() as int));
        assert(joined(c) =~= s.subrange(start, s.len() as int));
    } else if i > 0 && crate::layout_text::is_cut(i, first, chunk) {
        lemma_chunks_from_joined(s, i + 1, i, first, chunk);
        lemma_joined_prepend(s.subrange(start, i), crate::layout_text::chunks_from(s, i + 1, i, first, chunk));
        assert(s.subrange(start, i) + s.subrange(i, s.len() as int) =~= s.subrange(start, s.len() as int));
    } else {
        lemma_chunks_from_joined(s, i + 1, start, first, chunk);
    }
}

/// Cutting a line into display chunks loses and adds nothing: the chunks,
/// put together, are the line.
pub proof fn law_chunks_rejoin(s: Seq<char>, first: int, chunk: int)
    ensures
        joined(crate::layout_text::chunked(s, first, chunk)) == s,
{
    lemma_chunks_from_joined(s, 0, 0, first, chunk);
    assert(s.subrange(0, s.len() as int) =~= s);
}

/// A cut title fits: it is never longer than the room it is cut to, and a
/// text that fits is left whole.
pub proof fn law_truncation_fits(value: Seq<char>, max_chars: int)
    requires
        max_chars >= 0,
    ensures
        crate::layout_text::truncated(value, max_chars).len() <= max_chars,
        value.len() <= max_chars ==> crate::layout_text::truncated(value, max_chars) == value,
{
}

/// The group-wide listing keeps a job exactly when it is still active or
/// belongs to the user: nothing else is dropped, nothing else is kept.
pub proof fn law_group_listing_members(js: Seq<JobModel>, user: Seq<char>, j: JobModel)
    ensures
        crate::sacct::group_jobs(js, user).contains(j) <==> (js.contains(j) && crate::sacct::keeps_in_group_view(
            j,
            user,
        )),
    decreases js.len(),
{
    if js.len() > 0 {
        let d = js.drop_last();
        law_group_listing_members(d, user, j);
        let prev = crate::sacct::group_jobs(d, user);
        assert(js =~= d.push(js.last()));
        if js.contains(j) && !d.contains(j) {
            let k = choose|k: int| 0 <= k < js.len() && #[trigger] js[k] == j;
            if k < d.len() {
                assert(d[k] == j);
            }
            assert(j == js.last());
        }
        if d.contains(j) {
            let k = choose|k: int| 0 <= k < d.len() && #[trigger] d[k] == j;
            assert(js[k] == j);
        }
        if crate::sacct::keeps_in_group_view(js.last(), user) {
            let q = prev.push(js.last());
            if q.contains(j) && !prev.contains(j) {
                let k = choose|k: int| 0 <= k < q.len() && #[trigger] q[k] == j;
                if k < prev.len() {
                    assert(prev[k] == j);
                }
            }
            if prev.contains(j) {
                let k = choose|k: int| 0 <= k < prev.len() && #[trigger] prev[k] == j;
                assert(q[k] == j);
            }
            assert(q[prev.len() as int] == js.last());
        }
    }
}

/// Pieces joined with `sep` between them.
pub open spec fn joined_with(ss: Seq<Seq<char>>, sep: char) -> Seq<char>
    decreases ss.len(),
{
    if ss.len() == 0 {
        Seq::<char>::empty()
    } else if ss.len() == 1 {
        ss[0]
    } else {
        joined_with(ss.drop_last(), sep).push(sep) + ss.last()
    }
}

/// The pieces that are not empty, in order.
pub open spec fn nonempty_pieces(ss: Seq<Seq<char>>) -> Seq<Seq<char>>
    decreases ss.len(),
{
    if ss.len() == 0 {
        Seq::<Seq<char>>::empty()
    } else if ss.last().len() == 0 {
        nonempty_pieces(ss.drop_last())
    } else {
        nonempty_pieces(ss.drop_last()).push(ss.last())
    }
}

proof fn lemma_tres_fill_items(items: Seq<Seq<char>>, width: int)
    ensures
        ({
            let (done, line) = crate::layout_text::tres_fill(items, width);
            &&& (line.len() == 0 <==> nonempty_pieces(items).len() == 0)
            &&& (line.len() == 0 ==> done.len() == 0)
            &&& (line.len() > 0 ==> joined_with(done.push(line), ',') == joined_with(nonempty_pieces(items), ','))
        }),
    decreases items.len(),
{
    if items.len() > 0 {
        let prev = items.drop_last();
        lemma_tres_fill_items(prev, width);
        let (done, line) = crate::layout_text::tres_fill(prev, width);
        let item = items.last();
        let np = nonempty_pieces(prev);
        if item.len() > 0 {
            let fits = line.len() == 0 || line.len() + 1 + item.len() <= width;
            if line.len() == 0 {
                assert(np.len() == 0);
                assert(np.push(item).len() == 1);
            } else if fits {
                let lines = done.push(line);
                let lines2 = done.push(line.push(',') + item);
                assert(lines2.drop_last() =~= done);
                assert(lines.drop_last() =~= done);
                if done.len() == 0 {
                    assert(joined_with(lines, ',') == line);
                    assert(joined_with(lines2, ',') == line.push(',') + item);
                } else {
                    assert(joined_with(lines2, ',') == joined_with(done, ',').push(',') + (line.push(',') + item));
                    assert(joined_with(lines, ',') == joined_with(done, ',').push(',') + line);
                    assert(joined_with(lines2, ',') =~= joined_with(lines, ',').push(',') + item);
                }
                assert(np.push(item).drop_last() =~= np);
                assert(np.len() >= 1);
                assert(joined_with(np.push(item), ',') == joined_with(np, ',').push(',') + item);
            } else {
                let lines = done.push(line);
                let lines2 = lines.push(item);
                assert(lines2.drop_last() =~= lines);
                assert(np.push(item).drop_last() =~= np);
                assert(joined_with(np.push(item), ',') == joined_with(np, ',').push(',') + item);
            }
        }
    }
}

/// Wrapping a TRES list keeps every `key=value` item whole: the lines,
/// joined again with commas, are the list's non-empty items joined with
/// commas.
pub proof fn law_tres_items_kept(value: Seq<char>, width: int)
    ensures
        joined_with(crate::layout_text::tres_lines(value, width), ',') == joined_with(
            nonempty_pieces(crate::split::split_on(value, ',')),
            ',',
        ),
{
    let items = crate::split::split_on(value, ',');
    lemma_tres_fill_items(items, width);
}

/// The job table keeps three rows of its panel for the border and the
/// header; its scrollbar shows exactly when body rows remain and more
/// jobs are visible than fit in them.
pub proof fn law_jobs_scrollbar_threshold(jobs_area: crate::geometry::Rect, visible: usize, offset: usize)
    ensures
        ({
            let body = crate::geometry::sat_sub_u16(jobs_area.height, 3);
            crate::screen_text::spec_table_scrollbar(body, visible, offset) is Some <==> (body > 0 && visible
                > body)
        }),
{
}

/// Free text looks at every column of a job: a job passes a free-text
/// filter when its full state, short state, partition, id, name, user or
/// time, lower-cased, contains the query.
pub proof fn law_free_text_sees_every_column(q: Seq<char>, j: JobModel)
    ensures
        crate::text::contains_seq(crate::text::lowercase_of(j.state), q) ==> crate::filter::filter_matches(
            FilterModel::FreeText(q),
            j,
        ),
        crate::text::contains_seq(crate::text::lowercase_of(j.state_compact), q)
            ==> crate::filter::filter_matches(FilterModel::FreeText(q), j),
        crate::text::contains_seq(crate::text::lowercase_of(j.partition), q) ==> crate::filter::filter_matches(
            FilterModel::FreeText(q),
            j,
        ),
        crate::text::contains_seq(crate::text::lowercase_of(job_id_text(j)), q)
            ==> crate::filter::filter_matches(FilterModel::FreeText(q), j),
        crate::text::contains_seq(crate::text::lowercase_of(j.name), q) ==> crate::filter::filter_matches(
            FilterModel::FreeText(q),
            j,
        ),
        crate::text::contains_seq(crate::text::lowercase_of(j.user), q) ==> crate::filter::filter_matches(
            FilterModel::FreeText(q),
            j,
        ),
        crate::text::contains_seq(crate::text::lowercase_of(j.time), q) ==> crate::filter::filter_matches(
            FilterModel::FreeText(q),
            j,
        ),
{
}

/// A `state:` filter looks at the full state and the short state: a job
/// passes when either, lower-cased, contains the query.
pub proof fn law_state_filter_sees_both_states(q: Seq<char>, j: JobModel)
    ensures
        crate::text::contains_seq(crate::text::lowercase_of(j.state), q) || crate::text::contains_seq(
            crate::text::lowercase_of(j.state_compact),
            q,
        ) ==> crate::filter::filter_matches(FilterModel::Field(crate::filter::JobFilterField::State, q), j),
{
}

/// A query that names no field (it has no `:`) filters as free text: a job
/// whose full state, lower-cased, contains the lower-cased query is shown.
pub proof fn law_free_text_query_shows_matching_state(js: Seq<JobModel>, query: Seq<char>, p: int)
    requires
        0 <= p < js.len(),
        trim(query).len() > 0,
        !trim(query).contains(':'),
        crate::text::contains_seq(
            crate::text::lowercase_of(js[p].state),
            crate::text::lowercase_of(trim(query)),
        ),
    ensures
        visible_indices(js, parse_filter(query)).contains(p),
{
    let t = trim(query);
    assert(!(exists|i: int| 0 <= i < t.len() && t[i] == ':')) by {
        if exists|i: int| 0 <= i < t.len() && t[i] == ':' {
            let i = choose|i: int| 0 <= i < t.len() && t[i] == ':';
            assert(t.contains(':'));
        }
    }
    assert(crate::split::split_once(t, ':') is None);
    assert(parse_filter(query) == FilterModel::FreeText(crate::text::lowercase_of(t)));
    law_visible_iff_matches(js, parse_filter(query), p);
}

proof fn lemma_in_concat(a: Seq<Seq<char>>, b: Seq<Seq<char>>)
    ensures
        forall|x: Seq<char>| a.contains(x) || b.contains(x) ==> #[trigger] (a + b).contains(x),
{
    assert forall|x: Seq<char>| a.contains(x) || b.contains(x) implies #[trigger] (a + b).contains(x) by {
        if a.contains(x) {
            let i = choose|i: int| 0 <= i < a.len() && a[i] == x;
            assert((a + b)[i] == x);
        } else {
            let i = choose|i: int| 0 <= i < b.len() && b[i] == x;
            assert((a + b)[a.len() + i] == x);
        }
    }
}

proof fn lemma_value_arg_holds(v: Seq<char>, flag: Seq<char>)
    ensures
        crate::squeue_args::value_arg(Some(v), flag).contains(flag + v),
{
    assert(crate::squeue_args::value_arg(Some(v), flag)[0] == flag + v);
}

proof fn lemma_flag_arg_holds(flag: Seq<char>)
    ensures
        crate::squeue_args::flag_arg(true, flag).contains(flag),
{
    assert(crate::squeue_args::flag_arg(true, flag)[0] == flag);
}

/// Every option that is set shows in the `squeue` arguments: a value
/// option as its flag followed by the value, a switch as its flag; showing
/// every user adds `--allusers`.
pub proof fn law_set_options_are_passed(a: crate::squeue_args::SqueueArgs, group: Option<Seq<char>>)
    ensures
        ({
            let r = a.spec_to_vec(group);
            &&& a.account matches Some(v) ==> r.contains("--accounts="@ + v@)
            &&& a.job matches Some(v) ==> r.contains("--jobs="@ + v@)
            &&& a.clusters matches Some(v) ==> r.contains("--clusters="@ + v@)
            &&& a.name matches Some(v) ==> r.contains("--name="@ + v@)
            &&& a.partition matches Some(v) ==> r.contains("--partition="@ + v@)
            &&& a.user matches Some(v) ==> r.contains("--user="@ + v@)
            &&& a.nodelist matches Some(v) ==> r.contains("--node="@ + v@)
            &&& a.federation ==> r.contains("--federation"@)
            &&& a.local ==> r.contains("--local"@)
            &&& a.noconvert ==> r.contains("--noconvert"@)
            &&& a.all_users() ==> r.contains("--allusers"@)
        }),
{
    let account = match opt_view(a.account) {
        Some(x) => Some(x),
        None => if a.all_users() {
            group
        } else {
            None
        },
    };
    let states = match opt_view(a.states) {
        Some(st) => if crate::text::lower_ascii_seq(st) == "all"@ {
            None
        } else {
            Some(st)
        },
        None => None,
    };
    let p1 = crate::squeue_args::value_arg(account, "--accounts="@);
    let p2 = crate::squeue_args::flag_arg(a.federation, "--federation"@);
    let p3 = crate::squeue_args::value_arg(opt_view(a.job), "--jobs="@);
    let p4 = crate::squeue_args::flag_arg(a.local, "--local"@);
    let p5 = crate::squeue_args::value_arg(opt_view(a.clusters), "--clusters="@);
    let p6 = crate::squeue_args::flag_arg(a.all_users(), "--allusers"@);
    let p7 = crate::squeue_args::value_arg(opt_view(a.name), "--name="@);
    let p8 = crate::squeue_args::flag_arg(a.noconvert, "--noconvert"@);
    let p9 = crate::squeue_args::value_arg(opt_view(a.partition), "--partition="@);
    let p10 = crate::squeue_args::value_arg(states, "--state="@);
    let p11 = crate::squeue_args::value_arg(opt_view(a.user), "--user="@);
    let p12 = crate::squeue_args::value_arg(opt_view(a.nodelist), "--node="@);
    let s1 = p1 + p2;
    let s2 = s1 + p3;
    let s3 = s2 + p4;
    let s4 = s3 + p5;
    let s5 = s4 + p6;
    let s6 = s5 + p7;
    let s7 = s6 + p8;
    let s8 = s7 + p9;
    let s9 = s8 + p10;
    let s10 = s9 + p11;
    let s11 = s10 + p12;
    assert(a.spec_to_vec(group) == s11);
    lemma_in_concat(p1, p2);
    lemma_in_concat(s1, p3);
    lemma_in_concat(s2, p4);
    lemma_in_concat(s3, p5);
    lemma_in_concat(s4, p6);
    lemma_in_concat(s5, p7);
    lemma_in_concat(s6, p8);
    lemma_in_concat(s7, p9);
    lemma_in_concat(s8, p10);
    lemma_in_concat(s9, p11);
    lemma_in_concat(s10, p12);
    match a.account {
        Some(v) => lemma_value_arg_holds(v@, "--accounts="@),
        None => {},
    }
    match a.job {
        Some(v) => lemma_value_arg_holds(v@, "--jobs="@),
        None => {},
    }
    match a.clusters {
        Some(v) => lemma_value_arg_holds(v@, "--clusters="@),
        None => {},
    }
    match a.name {
        Some(v) => lemma_value_arg_holds(v@, "--name="@),
        None => {},
    }
    match a.partition {
        Some(v) => lemma_value_arg_holds(v@, "--partition="@),
        None => {},
    }
    match a.user {
        Some(v) => lemma_value_arg_holds(v@, "--user="@),
        None => {},
    }
    match a.nodelist {
        Some(v) => lemma_value_arg_holds(v@, "--node="@),
        None => {},
    }
    lemma_flag_arg_holds("--federation"@);
    lemma_flag_arg_holds("--local"@);
    lemma_flag_arg_holds("--noconvert"@);
    lemma_flag_arg_holds("--allusers"@);
}

/// The decimal digits of `n` read back as `n`.
proof fn lemma_decimal_digits(n: nat)
    ensures
        crate::text::decimal(n).len() > 0,
        crate::split::all_digits(crate::text::decimal(n)),
        crate::split::digits_value(crate::text::decimal(n)) == n,
    decreases n,
{
    let d = crate::text::decimal(n);
    if n >= 10 {
        lemma_decimal_digits(n / 10);
        let p = crate::text::decimal(n / 10);
        assert(d == p.push(crate::text::digit_char(n % 10)));
        assert(d.drop_last() =~= p);
        assert forall|i: int| 0 <= i < d.len() implies crate::split::is_digit(d[i]) by {
            if i < p.len() {
                assert(d[i] == p[i]);
            }
        }
        assert((n / 10) * 10 + n % 10 == n) by (nonlinear_arith);
        let c = crate::text::digit_char(n % 10);
        assert(crate::split::digit_value(c) == n % 10);
        assert(crate::split::digits_value(d) == crate::split::digits_value(p) * 10 + crate::split::digit_value(c));
    } else {
        let c = crate::text::digit_char(n);
        assert(crate::split::digit_value(c) == n);
        assert(d.drop_last() =~= Seq::<char>::empty());
        assert(crate::split::digits_value(d) == crate::split::digits_value(d.drop_last()) * 10
            + crate::split::digit_value(d.last()));
    }
}

proof fn lemma_trim_unchanged(s: Seq<char>)
    requires
        s.len() > 0,
        !crate::text::is_ws(s[0]),
        !crate::text::is_ws(s.last()),
    ensures
        trim(s) == s,
{
    assert(crate::text::trim_start(s) == s);
    assert(crate::text::trim_end(s) == s);
}

/// A `partition|count` line gives the partition the number of nodes its
/// count says: for every partition name (no `|`, no blank) and every count
/// `n`, the line `name|n` carries `n` nodes for `name`; and each such line
/// adds its nodes to what the lines before it gave the partition.
pub proof fn law_usage_line_counts_nodes(name: Seq<char>, n: nat, ls: Seq<Seq<char>>)
    requires
        forall|k: int| 0 <= k < name.len() ==> name[k] != '|' && !crate::text::is_ws(#[trigger] name[k]),
        n <= u32::MAX,
    ensures
        crate::resources::usage_line(name + seq!['|'] + crate::text::decimal(n)) == Some((name, n as int)),
        ({
            let before = crate::resources::usage_tally(ls);
            let after = crate::resources::usage_tally(ls.push(name + seq!['|'] + crate::text::decimal(n)));
            &&& after.contains_key(name)
            &&& after[name] == (if before.contains_key(name) {
                before[name]
            } else {
                0
            }) + n
        }),
{
    let d = crate::text::decimal(n);
    lemma_decimal_digits(n);
    let line = name + seq!['|'] + d;
    assert(!crate::text::is_ws(d.last()) && !crate::text::is_ws(d[0])) by {
        assert(crate::split::is_digit(d.last()));
        assert(crate::split::is_digit(d[0]));
    }
    assert(line.last() == d.last());
    if name.len() > 0 {
        assert(line[0] == name[0]);
    } else {
        assert(line[0] == '|');
    }
    lemma_trim_unchanged(line);
    lemma_trim_unchanged(d);
    let k = name.len() as int;
    assert(line[k] == '|');
    assert(forall|j: int| 0 <= j < k ==> line[j] != '|') by {
        assert forall|j: int| 0 <= j < k implies line[j] != '|' by {
            assert(line[j] == name[j]);
        }
    }
    let i = crate::split::first_index(line, '|')->0;
    assert(crate::split::first_index(line, '|') is Some);
    assert(i == k) by {
        if i < k {
            assert(line[i] == name[i]);
        }
    }
    assert(line.take(k) =~= name);
    assert(line.skip(k + 1) =~= d);
    if name.len() > 0 {
        lemma_trim_unchanged(name);
    } else {
        assert(trim(name) =~= name);
    }
    assert(crate::split::unsigned_digits(d) == d);
    assert(crate::resources::usage_line(line) == Some((name, n as int)));
    let ls2 = ls.push(line);
    assert(ls2.drop_last() =~= ls);
    assert(ls2.last() == line);
}

/// Text without `%` holds no token: it is one part.
proof fn lemma_scan_no_percent(t: Seq<char>)
    requires
        !t.contains('%'),
    ensures
        crate::sacct::token_scan(t) == (seq![t], Seq::<Seq<char>>::empty()),
    decreases t.len(),
{
    if t.len() > 0 {
        let r = t.skip(1);
        assert(!r.contains('%')) by {
            if r.contains('%') {
                let k = choose|k: int| 0 <= k < r.len() && r[k] == '%';
                assert(t[k + 1] == '%');
            }
        }
        lemma_scan_no_percent(r);
        assert(t[0] != '%');
        assert(seq![t[0]] + r =~= t);
        assert(seq![r].update(0, seq![t[0]] + r) =~= seq![t]);
    } else {
        assert(t =~= Seq::<char>::empty());
    }
}

/// Text without `%` in front of a pattern joins the pattern's first part.
proof fn lemma_scan_plain_prefix(a: Seq<char>, b: Seq<char>)
    requires
        !a.contains('%'),
    ensures
        crate::sacct::token_scan(a + b) == (
            crate::sacct::token_scan(b).0.update(0, a + crate::sacct::token_scan(b).0[0]),
            crate::sacct::token_scan(b).1,
        ),
    decreases a.len(),
{
    crate::sacct::lemma_token_scan(b);
    let sb = crate::sacct::token_scan(b);
    if a.len() == 0 {
        assert(a + b =~= b);
        assert(sb.0.update(0, a + sb.0[0]) =~= sb.0);
    } else {
        let a1 = a.skip(1);
        assert(!a1.contains('%')) by {
            if a1.contains('%') {
                let k = choose|k: int| 0 <= k < a1.len() && a1[k] == '%';
                assert(a[k + 1] == '%');
            }
        }
        lemma_scan_plain_prefix(a1, b);
        assert((a + b).skip(1) =~= a1 + b);
        assert((a + b)[0] == a[0] && a[0] != '%');
        assert(seq![a[0]] + (a1 + sb.0[0]) =~= a + sb.0[0]);
        assert(sb.0.update(0, a1 + sb.0[0]).update(0, seq![a[0]] + (a1 + sb.0[0])) =~= sb.0.update(
            0,
            a + sb.0[0],
        ));
    }
}

/// A token in front of a pattern starts a new, empty first part.
proof fn lemma_scan_token_prefix(c: char, b: Seq<char>)
    requires
        crate::sacct::is_token_char(c),
    ensures
        crate::sacct::token_scan(seq!['%', c] + b) == (
            seq![Seq::<char>::empty()] + crate::sacct::token_scan(b).0,
            seq![seq!['%', c]] + crate::sacct::token_scan(b).1,
        ),
{
    let s = seq!['%', c] + b;
    assert(s.skip(2) =~= b);
    assert(s.take(2) =~= seq!['%', c]);
}

/// A job that named no output file writes to Slurm's default file in its
/// working directory: `slurm-<id>.out` outside any array,
/// `slurm-<array>_<task>.out` for an array task.
pub proof fn law_default_output_files(ctx: crate::sacct::PathContextModel, wd: Seq<char>)
    ensures
        ctx.array_index == crate::sacct::no_array_value() ==> crate::sacct::resolve_path(
            Seq::<char>::empty(),
            ctx,
            wd,
        ) == crate::paths::join_path(wd, "slurm-"@ + ctx.id + ".out"@),
        ctx.array_index != crate::sacct::no_array_value() ==> crate::sacct::resolve_path(
            Seq::<char>::empty(),
            ctx,
            wd,
        ) == crate::paths::join_path(wd, "slurm-"@ + ctx.array_master + "_"@ + ctx.array_index + ".out"@),
{
    reveal_strlit("slurm-%J.out");
    reveal_strlit("slurm-%A_%a.out");
    reveal_strlit("slurm-");
    reveal_strlit(".out");
    reveal_strlit("_");
    let pre = seq!['s', 'l', 'u', 'r', 'm', '-'];
    let suf = seq!['.', 'o', 'u', 't'];
    let us = seq!['_'];
    assert(!pre.contains('%')) by {
        if pre.contains('%') {
            let k = choose|k: int| 0 <= k < pre.len() && pre[k] == '%';
        }
    }
    assert(!suf.contains('%')) by {
        if suf.contains('%') {
            let k = choose|k: int| 0 <= k < suf.len() && suf[k] == '%';
        }
    }
    assert(!us.contains('%')) by {
        if us.contains('%') {
            let k = choose|k: int| 0 <= k < us.len() && us[k] == '%';
        }
    }
    lemma_scan_no_percent(suf);
    // slurm-%J.out
    lemma_scan_token_prefix('J', suf);
    let j_part = seq!['%', 'J'] + suf;
    lemma_scan_plain_prefix(pre, j_part);
    assert("slurm-%J.out"@ =~= pre + j_part);
    let sj = crate::sacct::token_scan(pre + j_part);
    assert(sj.0 =~= seq![pre, suf]);
    assert(sj.1 =~= seq![seq!['%', 'J']]);
    let vj = sj.1.map_values(|t: Seq<char>| crate::sacct::token_value(t, ctx));
    assert(vj =~= seq![ctx.id]);
    assert(crate::sacct::interleave(seq![pre], Seq::<Seq<char>>::empty()) == pre);
    assert(sj.0.drop_last() =~= seq![pre]);
    assert(vj.drop_last() =~= Seq::<Seq<char>>::empty());
    assert(crate::sacct::interleave(sj.0, vj) =~= pre + ctx.id + suf);
    // slurm-%A_%a.out
    lemma_scan_token_prefix('a', suf);
    let a_part = seq!['%', 'a'] + suf;
    lemma_scan_plain_prefix(us, a_part);
    let mid = us + a_part;
    lemma_scan_token_prefix('A', mid);
    let big_a = seq!['%', 'A'] + mid;
    lemma_scan_plain_prefix(pre, big_a);
    assert("slurm-%A_%a.out"@ =~= pre + big_a);
    let sa = crate::sacct::token_scan(pre + big_a);
    assert(sa.0 =~= seq![pre, us, suf]);
    assert(sa.1 =~= seq![seq!['%', 'A'], seq!['%', 'a']]);
    let va = sa.1.map_values(|t: Seq<char>| crate::sacct::token_value(t, ctx));
    assert(va =~= seq![ctx.array_master, ctx.array_index]);
    let p2 = seq![pre, us];
    assert(sa.0.drop_last() =~= p2);
    assert(va.drop_last() =~= seq![ctx.array_master]);
    assert(p2.drop_last() =~= seq![pre]);
    assert(seq![ctx.array_master].drop_last() =~= Seq::<Seq<char>>::empty());
    assert(crate::sacct::interleave(p2, seq![ctx.array_master]) =~= pre + ctx.array_master + us);
    assert(crate::sacct::interleave(sa.0, va) =~= pre + ctx.array_master + us + ctx.array_index + suf);
}

/// A job line outside any array (its id has no `_`) that names no output
/// file is given `slurm-<id>.out` in its working directory.
pub proof fn law_plain_job_default_output(line: Seq<char>)
    requires
        crate::sacct::parse_sacct_line(line) is Some,
        !crate::sacct::line_id(crate::sacct::sacct_fields(line))->0.contains('_'),
        crate::sacct::normalize_optional(crate::sacct::sacct_fields(line)[11]) is None,
    ensures
        crate::sacct::parse_sacct_line(line)->0.stdout == Some(
            crate::paths::join_path(
                crate::sacct::or_empty(crate::sacct::normalize_optional(crate::sacct::sacct_fields(line)[14])),
                "slurm-"@ + crate::sacct::line_id(crate::sacct::sacct_fields(line))->0 + ".out"@,
            ),
        ),
{
    let parts = crate::sacct::sacct_fields(line);
    let id = crate::sacct::line_id(parts)->0;
    assert(!(exists|i: int| 0 <= i < id.len() && id[i] == '_')) by {
        if exists|i: int| 0 <= i < id.len() && id[i] == '_' {
            let i = choose|i: int| 0 <= i < id.len() && id[i] == '_';
            assert(id.contains('_'));
        }
    }
    assert(crate::split::split_once(id, '_') is None);
    let ids = crate::sacct::split_job_id(id);
    assert(ids.2 is None);
    let ctx = crate::sacct::PathContextModel {
        array_master: ids.1,
        array_index: crate::sacct::array_index_of("N/A"@),
        id: id,
        host: crate::sacct::or_empty(crate::sacct::normalize_optional(parts[10])),
        user: trim(parts[4]),
        name: trim(parts[2]),
    };
    let wd = crate::sacct::or_empty(crate::sacct::normalize_optional(parts[14]));
    law_default_output_files(ctx, wd);
    assert(crate::sacct::or_empty(crate::sacct::normalize_optional(parts[11])) == Seq::<char>::empty());
}

} // verus!
