use vstd::prelude::*;
use crate::SearchMode;
use crate::filter::{FileRecord, filter_files, spec_filter};

verus! {

/// Clamp a selection index after the filtered set changed to `n` entries:
/// the largest former index still in range, or `0` when nothing is left.
pub fn clamp_selection(selected: usize, n: usize) -> (r: usize)
    ensures
        n == 0 ==> r == 0,
        n > 0 ==> r < n,
        r <= selected,
        n > 0 && selected < n ==> r == selected,
        n > 0 && selected >= n ==> r == n - 1,
{
    if n == 0 {
        0
    } else if selected <= n - 1 {
        selected
    } else {
        n - 1
    }
}

/// The search state one keystroke works on: the offered files, the filtered
/// paths, the selection into them, and the active search mode.
pub struct FinderState {
    pub files: Vec<FileRecord>,
    pub filtered: Vec<String>,
    pub selected: usize,
    pub mode: SearchMode,
}

impl FinderState {
    /// The selection invariant: in range while the filtered set is
    /// non-empty, and `0` otherwise.
    pub open spec fn wf(&self) -> bool {
        self.selected < self.filtered@.len() || self.selected == 0
    }

    pub fn new() -> (r: Self)
        ensures
            r.files@.len() == 0,
            r.filtered@.len() == 0,
            r.selected == 0,
            r.mode is Contents,
            r.wf(),
    {
        FinderState {
            files: Vec::new(),
            filtered: Vec::new(),
            selected: 0,
            mode: SearchMode::Contents,
        }
    }

    pub fn set_mode(&mut self, mode: SearchMode)
        ensures
            final(self).mode == mode,
            final(self).files == old(self).files,
            final(self).filtered == old(self).filtered,
            final(self).selected == old(self).selected,
    {
        self.mode = mode;
    }

    /// Re-run the filter over the current files and clamp the selection:
    /// after the call the selection is below the new length, or `0` when the
    /// filtered set came out empty.
    pub fn apply_filter(&mut self, query: &String)
        ensures
            final(self).files == old(self).files,
            final(self).mode == old(self).mode,
            final(self).filtered.deep_view() == spec_filter(
                old(self).files@,
                query@,
                old(self).mode,
            ),
            final(self).selected == 0 || final(self).selected < final(self).filtered@.len(),
            final(self).filtered@.len() == 0 ==> final(self).selected == 0,
            final(self).filtered@.len() > 0 ==> final(self).selected
                < final(self).filtered@.len() && final(self).selected <= old(self).selected,
            final(self).wf(),
    {
        let f = filter_files(&self.files, query, self.mode);
        self.filtered = f;
        self.selected = clamp_selection(self.selected, self.filtered.len());
    }

    /// Replace the offered files (a base-set refresh) and re-filter.
    pub fn refresh(&mut self, files: Vec<FileRecord>, query: &String)
        ensures
            final(self).files == files,
            final(self).mode == old(self).mode,
            final(self).filtered.deep_view() == spec_filter(files@, query@, old(self).mode),
            final(self).wf(),
    {
        self.files = files;
        self.apply_filter(query);
    }

    /// Move the selection one entry up.
    pub fn select_prev(&mut self)
        requires
            old(self).wf(),
        ensures
            final(self).files == old(self).files,
            final(self).filtered == old(self).filtered,
            final(self).mode == old(self).mode,
            final(self).selected == (if old(self).selected > 0 {
                old(self).selected - 1
            } else {
                0
            }),
            final(self).wf(),
    {
        if self.selected > 0 {
            self.selected = self.selected - 1;
        }
    }

    /// Move the selection one entry down, staying in range.
    pub fn select_next(&mut self)
        requires
            old(self).wf(),
        ensures
            final(self).files == old(self).files,
            final(self).filtered == old(self).filtered,
            final(self).mode == old(self).mode,
            old(self).filtered@.len() == 0 ==> final(self).selected == old(self).selected,
            old(self).filtered@.len() > 0 ==> final(self).selected == (if old(self).selected + 1
                < old(self).filtered@.len() {
                old(self).selected + 1
            } else {
                old(self).filtered@.len() - 1
            }),
            final(self).wf(),
    {
        if self.filtered.len() > 0 {
            let last: usize = self.filtered.len() - 1;
            if self.selected < last {
                self.selected = self.selected + 1;
            } else {
                self.selected = last;
            }
        }
    }

    /// The path the preview should show: the selected entry, or nothing
    /// while the filtered set is empty.
    pub fn current_file(&self) -> (r: Option<&String>)
        requires
            self.wf(),
        ensures
            (r is Some) == (self.filtered@.len() > 0),
            r matches Some(p) ==> p@ == self.filtered.deep_view()[self.selected as int],
    {
        if self.filtered.len() == 0 {
            None
        } else {
            Some(&self.filtered[self.selected])
        }
    }
}

} // verus!

