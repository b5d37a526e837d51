//! The job list: the jobs in the list's order, the filter query, the sort
//! column and direction, and the selected row among the visible jobs.
use vstd::prelude::*;

use crate::filter::{index_views, parse_filter, visible_indices, visible_job_indices, FilterModel};
use crate::geometry::{in_rect, rect_contains, sat_add_u16, sat_add_usize, sat_sub_u16, Rect, TableCursor};
use crate::job::{job_id_text, opt_view, Job, JobModel};
use crate::job::job_views;
use crate::sorting::{durations_fit, sort_jobs, sorted_jobs, JobSortField, SortDirection};
use crate::text::{chars_eq_str, chars_of, string_of, trim, trim_str};

verus! {

broadcast use vstd::seq_lib::group_to_multiset_ensures;

/// The jobs as the job table shows them.
pub struct JobList {
    /// All jobs, in the list's order.
    pub jobs: Vec<Job>,
    /// The filter query, trimmed when applied.
    pub active_filter: String,
    /// The selected row, counted among the visible jobs, and the first row
    /// drawn.
    pub state: TableCursor,
    pub sort_field: JobSortField,
    pub sort_direction: SortDirection,
    /// Where the table was last drawn, border included.
    pub area: Rect,
    /// The number of body rows the table had room for.
    pub height: u16,
}

/// The first position of `x` in `s`.
pub open spec fn position_of(s: Seq<Seq<char>>, x: Seq<char>) -> Option<int>
    decreases s.len(),
{
    if s.len() == 0 {
        None
    } else {
        match position_of(s.drop_last(), x) {
            Some(k) => Some(k),
            None => if s.last() == x {
                Some(s.len() - 1)
            } else {
                None
            },
        }
    }
}

pub proof fn lemma_position_of(s: Seq<Seq<char>>, x: Seq<char>)
    ensures
        position_of(s, x) matches Some(k) ==> 0 <= k < s.len() && s[k] == x && forall|j: int|
            0 <= j < k ==> s[j] != x,
        position_of(s, x) is None ==> forall|j: int| 0 <= j < s.len() ==> s[j] != x,
    decreases s.len(),
{
    if s.len() > 0 {
        let d = s.drop_last();
        lemma_position_of(d, x);
        assert forall|j: int| 0 <= j < d.len() implies d[j] == s[j] by {}
        match position_of(d, x) {
            Some(k) => {
                assert(s[k] == d[k]);
            },
            None => {
                assert forall|j: int| 0 <= j < s.len() - 1 implies s[j] != x by {
                    assert(d[j] == s[j]);
                }
            },
        }
    }
}

/// The first position of `id` among `ids`.
pub fn find_id(ids: &Vec<String>, id: &str) -> (r: Option<usize>)
    ensures
        match r {
            Some(k) => position_of(ids@.map_values(|s: String| s@), id@) == Some(k as int),
            None => position_of(ids@.map_values(|s: String| s@), id@) is None,
        },
{
    let ghost v = ids@.map_values(|s: String| s@);
    let idc = chars_of(id);
    let mut k: usize = 0;
    while k < ids.len()
        invariant
            v == ids@.map_values(|s: String| s@),
            idc@ == id@,
            k <= ids.len(),
            position_of(v.take(k as int), id@) is None,
        decreases ids.len() - k,
    {
        assert(v.take(k + 1).drop_last() =~= v.take(k as int));
        assert(v.take(k + 1).last() == ids@[k as int]@);
        if chars_eq_str(idc.as_slice(), ids[k].as_str()) {
            proof {
                lemma_position_of(v, id@);
                lemma_position_of(v.take(k as int), id@);
                assert forall|j: int| 0 <= j < k implies v[j] != id@ by {
                    assert(v.take(k as int)[j] == v[j]);
                }
                assert(v[k as int] == id@);
            }
            return Some(k);
        }
        k = k + 1;
    }
    assert(v.take(ids.len() as int) =~= v);
    None
}

/// The row selected after the list changed: the row of the job that was
/// selected, if it is still visible; else the old row, pulled back into the
/// list; else the first row; and nothing in an empty list.
pub open spec fn restored(
    cursor: TableCursor,
    ids: Seq<Seq<char>>,
    selected_id: Option<Seq<char>>,
    fallback: Option<usize>,
) -> TableCursor {
    if ids.len() == 0 {
        cursor.spec_select(None)
    } else {
        let found = match selected_id {
            Some(id) => position_of(ids, id),
            None => None,
        };
        match found {
            Some(k) => cursor.spec_select(Some(k as usize)),
            None => match fallback {
                Some(i) => cursor.spec_select(
                    Some(
                        if i < ids.len() - 1 {
                            i
                        } else {
                            (ids.len() - 1) as usize
                        },
                    ),
                ),
                None => cursor.spec_select(Some(0)),
            },
        }
    }
}

/// Visible positions are positions of the list, in increasing order.
pub proof fn lemma_visible_range(js: Seq<JobModel>, f: FilterModel)
    ensures
        visible_indices(js, f).len() <= js.len(),
        forall|k: int|
            0 <= k < visible_indices(js, f).len() ==> 0 <= #[trigger] visible_indices(js, f)[k] < js.len(),
        forall|a: int, b: int|
            0 <= a < b < visible_indices(js, f).len() ==> visible_indices(js, f)[a] < visible_indices(
                js,
                f,
            )[b],
    decreases js.len(),
{
    if js.len() > 0 {
        lemma_visible_range(js.drop_last(), f);
    }
}

impl JobList {
    /// The positions of the jobs that pass the filter.
    pub open spec fn visible(self) -> Seq<int> {
        visible_indices(job_views(self.jobs@), parse_filter(self.active_filter@))
    }

    /// The position in the list of the selected job.
    pub open spec fn selected_position(self) -> Option<int> {
        match self.state.selected {
            Some(i) => if i < self.visible().len() {
                Some(self.visible()[i as int])
            } else {
                None
            },
            None => None,
        }
    }

    /// The identifier of the selected job.
    pub open spec fn selected_id(self) -> Option<Seq<char>> {
        match self.selected_position() {
            Some(p) => Some(job_id_text(self.jobs@[p]@)),
            None => None,
        }
    }

    /// The identifiers of the visible jobs, in list order.
    pub open spec fn visible_ids(self) -> Seq<Seq<char>> {
        Seq::new(self.visible().len(), |k: int| job_id_text(self.jobs@[self.visible()[k]]@))
    }

    /// The list order holds, and every duration fits in `u64`.
    pub open spec fn wf(self) -> bool {
        durations_fit(self.jobs@)
    }

    /// The positions of the visible jobs.
    pub fn visible_job_indices(&self) -> (r: Vec<usize>)
        ensures
            index_views(r@) == self.visible(),
            forall|k: int| 0 <= k < r@.len() ==> (#[trigger] r@[k]) < self.jobs@.len(),
            r@.len() <= self.jobs@.len(),
    {
        let r = visible_job_indices(&self.jobs, self.active_filter.as_str());
        proof {
            lemma_visible_range(job_views(self.jobs@), parse_filter(self.active_filter@));
            assert forall|k: int| 0 <= k < r@.len() implies (#[trigger] r@[k]) < self.jobs@.len() by {
                assert(index_views(r@)[k] == r@[k] as int);
            }
        }
        r
    }

    /// The position of the selected job.
    pub fn selected_job_position(&self) -> (r: Option<usize>)
        ensures
            match r {
                Some(p) => self.selected_position() == Some(p as int) && p < self.jobs@.len(),
                None => self.selected_position() is None,
            },
    {
        let vis = self.visible_job_indices();
        match self.state.selected {
            Some(i) => if i < vis.len() {
                assert(index_views(vis@)[i as int] == vis@[i as int] as int);
                Some(vis[i])
            } else {
                None
            },
            None => None,
        }
    }

    /// The selected job.
    pub fn selected_job(&self) -> (r: Option<&Job>)
        ensures
            match r {
                Some(j) => self.selected_position() matches Some(p) && *j == self.jobs@[p],
                None => self.selected_position() is None,
            },
    {
        match self.selected_job_position() {
            Some(p) => Some(&self.jobs[p]),
            None => None,
        }
    }

    /// The identifier of the selected job.
    pub fn selected_job_id(&self) -> (r: Option<String>)
        ensures
            opt_view(r) == self.selected_id(),
    {
        match self.selected_job() {
            Some(j) => Some(j.id()),
            None => None,
        }
    }

    /// The identifiers of the visible jobs.
    pub fn visible_job_ids(&self) -> (r: Vec<String>)
        ensures
            r@.len() == self.visible_ids().len(),
            forall|k: int| 0 <= k < r@.len() ==> (#[trigger] r@[k])@ == self.visible_ids()[k],
    {
        let vis = self.visible_job_indices();
        let mut out: Vec<String> = Vec::new();
        let mut k: usize = 0;
        while k < vis.len()
            invariant
                index_views(vis@) == self.visible(),
                forall|q: int| 0 <= q < vis@.len() ==> (#[trigger] vis@[q]) < self.jobs@.len(),
                k <= vis.len(),
                out@.len() == k,
                forall|q: int| 0 <= q < k ==> (#[trigger] out@[q])@ == self.visible_ids()[q],
            decreases vis.len() - k,
        {
            assert(index_views(vis@)[k as int] == vis@[k as int] as int);
            let id = self.jobs[vis[k]].id();
            out.push(id);
            k = k + 1;
        }
        out
    }

    /// Selects the row of the job with `selected_id` if it is visible, else
    /// row `fallback` pulled back into the list, else the first row; clears
    /// the selection of an empty list.
    pub fn restore_selection_by_job_id(&mut self, selected_id: Option<String>, fallback_index: Option<usize>)
        ensures
            final(self).state == restored(old(self).state, old(self).visible_ids(), opt_view(selected_id), fallback_index),
            final(self).jobs == old(self).jobs,
            final(self).active_filter == old(self).active_filter,
            final(self).sort_field == old(self).sort_field,
            final(self).sort_direction == old(self).sort_direction,
            final(self).area == old(self).area,
            final(self).height == old(self).height,
    {
        let ids = self.visible_job_ids();
        let ghost vids = old(self).visible_ids();
        assert(ids@.map_values(|s: String| s@) =~= vids);
        if ids.len() == 0 {
            self.state.select(None);
            return;
        }
        let found = match &selected_id {
            Some(id) => find_id(&ids, id.as_str()),
            None => None,
        };
        match found {
            Some(k) => {
                self.state.select(Some(k));
            },
            None => match fallback_index {
                Some(i) => {
                    let last = ids.len() - 1;
                    self.state.select(Some(if i < last { i } else { last }));
                },
                None => {
                    self.state.select_first();
                },
            },
        }
    }

    /// Sorts the jobs by the list's column and direction.
    pub fn sort_jobs(&mut self)
        requires
            old(self).wf(),
        ensures
            final(self).jobs@.to_multiset() == old(self).jobs@.to_multiset(),
            sorted_jobs(final(self).jobs@, old(self).sort_field, old(self).sort_direction),
            exists|p: Seq<int>|
                crate::sorting::stable_arrangement(
                    final(self).jobs@,
                    old(self).jobs@,
                    p,
                    old(self).sort_field,
                    old(self).sort_direction,
                ),
            final(self).wf(),
            final(self).active_filter == old(self).active_filter,
            final(self).state == old(self).state,
            final(self).sort_field == old(self).sort_field,
            final(self).sort_direction == old(self).sort_direction,
            final(self).area == old(self).area,
            final(self).height == old(self).height,
    {
        let mut jobs: Vec<Job> = Vec::new();
        std::mem::swap(&mut jobs, &mut self.jobs);
        let ghost before = jobs@;
        let sorted = sort_jobs(jobs, self.sort_field, self.sort_direction);
        proof {
            lemma_durations_fit_multiset(before, sorted@);
        }
        self.jobs = sorted;
    }
}

/// `new` is `old` sorted by `field`: the same column again turns the
/// direction around, another column starts descending; the jobs are the
/// same ones, in order; the selected job stays selected.
pub open spec fn sort_updated(old: JobList, field: JobSortField, new: JobList) -> bool {
    &&& new.wf()
    &&& new.sort_field == field
    &&& new.sort_direction == (if old.sort_field == field {
        old.sort_direction.spec_toggled()
    } else {
        SortDirection::Desc
    })
    &&& new.jobs@.to_multiset() == old.jobs@.to_multiset()
    &&& sorted_jobs(new.jobs@, new.sort_field, new.sort_direction)
    &&& exists|p: Seq<int>| crate::sorting::stable_arrangement(new.jobs@, old.jobs@, p, new.sort_field, new.sort_direction)
    &&& new.active_filter == old.active_filter
    &&& new.area == old.area
    &&& new.height == old.height
    &&& new.state == restored(old.state, new.visible_ids(), old.selected_id(), old.state.selected)
}

/// `new` is `old` with the filter query `filter`, trimmed: the jobs stay,
/// and the selected job stays selected where it is still visible.
pub open spec fn filter_applied(old: JobList, filter: Seq<char>, new: JobList) -> bool {
    &&& new.active_filter@ == trim(filter)
    &&& new.jobs == old.jobs
    &&& new.sort_field == old.sort_field
    &&& new.sort_direction == old.sort_direction
    &&& new.area == old.area
    &&& new.height == old.height
    &&& new.state == restored(old.state, new.visible_ids(), old.selected_id(), old.state.selected)
}

/// Durations fit for any rearrangement of jobs whose durations fit.
pub proof fn lemma_durations_fit_multiset(a: Seq<Job>, b: Seq<Job>)
    requires
        durations_fit(a),
        a.to_multiset() == b.to_multiset(),
    ensures
        durations_fit(b),
{
    assert forall|i: int| 0 <= i < b.len() implies crate::sorting::duration_fits(
        crate::sorting::job_model(#[trigger] b[i]).time,
    ) by {
        assert(b.to_multiset().count(b[i]) > 0);
        assert(a.to_multiset().count(b[i]) > 0);
        assert(a.contains(b[i]));
        let j = choose|j: int| 0 <= j < a.len() && a[j] == b[i];
        assert(crate::sorting::duration_fits(crate::sorting::job_model(a[j]).time));
    }
}

impl JobList {
    /// This list with another table state.
    pub open spec fn with_state(self, state: TableCursor) -> JobList {
        JobList { state, ..self }
    }

    /// Whether any job passes the filter.
    pub fn has_visible_jobs(&self) -> (r: bool)
        ensures
            r == (self.visible().len() > 0),
    {
        let v = self.visible_job_indices();
        assert(index_views(v@).len() == v@.len());
        v.len() > 0
    }

    /// Applies a filter query, trimmed, and keeps the selected job selected
    /// where it stays visible.
    pub fn apply_job_filter(&mut self, filter: &str)
        ensures
            filter_applied(*old(self), filter@, *final(self)),
    {
        let selected_id = self.selected_job_id();
        let fallback_index = self.state.selected;
        let t = trim_str(filter);
        self.active_filter = string_of(t.as_slice());
        self.restore_selection_by_job_id(selected_id, fallback_index);
    }

    /// Sorts by `field`: a second press on the same column turns the
    /// direction around; a new column starts descending. The selected job
    /// stays selected.
    pub fn update_job_sort(&mut self, field: JobSortField)
        requires
            old(self).wf(),
        ensures
            sort_updated(*old(self), field, *final(self)),
    {
        let selected_id = self.selected_job_id();
        let fallback_index = self.state.selected;
        if self.sort_field == field {
            self.sort_direction = self.sort_direction.toggled();
        } else {
            self.sort_field = field;
            self.sort_direction = SortDirection::Desc;
        }
        self.sort_jobs();
        self.restore_selection_by_job_id(selected_id, fallback_index);
    }

    /// Takes a new set of jobs: sorts them and keeps the selected job
    /// selected where it is still listed.
    pub fn replace_jobs(&mut self, jobs: Vec<Job>)
        requires
            durations_fit(jobs@),
        ensures
            final(self).wf(),
            final(self).jobs@.to_multiset() == jobs@.to_multiset(),
            sorted_jobs(final(self).jobs@, old(self).sort_field, old(self).sort_direction),
            exists|p: Seq<int>|
                crate::sorting::stable_arrangement(final(self).jobs@, jobs@, p, old(self).sort_field, old(self).sort_direction),
            final(self).active_filter == old(self).active_filter,
            final(self).sort_field == old(self).sort_field,
            final(self).sort_direction == old(self).sort_direction,
            final(self).area == old(self).area,
            final(self).height == old(self).height,
            final(self).state == restored(
                old(self).state,
                final(self).visible_ids(),
                old(self).selected_id(),
                old(self).state.selected,
            ),
    {
        let selected_id = self.selected_job_id();
        let fallback_index = self.state.selected;
        self.jobs = jobs;
        self.sort_jobs();
        self.restore_selection_by_job_id(selected_id, fallback_index);
    }

    /// Moves the selection one row down, where a job is visible.
    pub fn select_next_job(&mut self)
        ensures
            *final(self) == (if old(self).visible().len() > 0 {
                old(self).with_state(old(self).state.spec_select_next())
            } else {
                *old(self)
            }),
    {
        if self.has_visible_jobs() {
            self.state.select_next();
        }
    }

    /// Moves the selection one row up, where a job is visible.
    pub fn select_previous_job(&mut self)
        ensures
            *final(self) == (if old(self).visible().len() > 0 {
                old(self).with_state(old(self).state.spec_select_previous())
            } else {
                *old(self)
            }),
    {
        if self.has_visible_jobs() {
            self.state.select_previous();
        }
    }

    /// Selects the first row, where a job is visible.
    pub fn select_first_job(&mut self)
        ensures
            *final(self) == (if old(self).visible().len() > 0 {
                old(self).with_state(old(self).state.spec_select(Some(0)))
            } else {
                *old(self)
            }),
    {
        if self.has_visible_jobs() {
            self.state.select_first();
        }
    }

    /// Selects the last row, where a job is visible.
    pub fn select_last_job(&mut self)
        ensures
            *final(self) == (if old(self).visible().len() > 0 {
                old(self).with_state(old(self).state.spec_select(Some(usize::MAX)))
            } else {
                *old(self)
            }),
    {
        if self.has_visible_jobs() {
            self.state.select_last();
        }
    }

    /// Moves the selection half a table up, where a job is visible.
    pub fn scroll_jobs_half_page_up(&mut self)
        ensures
            *final(self) == (if old(self).visible().len() > 0 {
                old(self).with_state(
                    old(self).state.spec_select(
                        Some(crate::geometry::sat_sub_usize(old(self).state.selected_or_zero(), (old(self).height / 2) as usize)),
                    ),
                )
            } else {
                *old(self)
            }),
    {
        if self.has_visible_jobs() {
            self.state.scroll_up_by(self.height / 2);
        }
    }

    /// The body rows of the table, inside the border and below the header.
    pub open spec fn spec_rows_area(self) -> Rect {
        Rect::spec_new(
            sat_add_u16(self.area.x, 1),
            sat_add_u16(self.area.y, 2),
            sat_sub_u16(self.area.width, 2),
            self.height,
        )
    }

    pub fn job_list_rows_area(&self) -> (r: Rect)
        ensures
            r == self.spec_rows_area(),
    {
        Rect::new(
            self.area.x.saturating_add(1),
            self.area.y.saturating_add(2),
            self.area.width.saturating_sub(2),
            self.height,
        )
    }

    /// The cells that a click selects a row in: the body rows, without the
    /// cell of padding at either side.
    pub open spec fn click_area(self) -> Rect {
        Rect::spec_new(
            sat_add_u16(self.area.x, 2),
            sat_add_u16(self.area.y, 2),
            sat_sub_u16(self.area.width, 4),
            self.height,
        )
    }

    /// The row a click on the table selects.
    pub open spec fn clicked_row(self, column: u16, row: u16) -> Option<usize> {
        let rows = self.click_area();
        if in_rect(rows, column, row) {
            let index = sat_add_usize(self.state.offset, sat_sub_u16(row, rows.y) as usize);
            if index < self.visible().len() {
                Some(index)
            } else {
                None
            }
        } else {
            None
        }
    }

    /// Selects the row under a click, if there is a job on it.
    pub fn select_job_at(&mut self, column: u16, row: u16)
        ensures
            *final(self) == (match old(self).clicked_row(column, row) {
                Some(i) => old(self).with_state(old(self).state.spec_select(Some(i))),
                None => *old(self),
            }),
    {
        let rows = Rect::new(
            self.area.x.saturating_add(2),
            self.area.y.saturating_add(2),
            self.area.width.saturating_sub(4),
            self.height,
        );
        if !rect_contains(rows, column, row) {
            return;
        }
        let index = self.state.offset.saturating_add(row.saturating_sub(rows.y) as usize);
        let vis = self.visible_job_indices();
        assert(index_views(vis@).len() == vis@.len());
        if index < vis.len() {
            self.state.select(Some(index));
        }
    }
}

} // verus!
