use vstd::prelude::*;
use crate::filter::{Action, Filter, Invocation};
use crate::outcome::{error_views, entry_keys_seq, filter_errors, invocation_views, spec_filter_errors, ActionError};
use crate::paths::PathGroup;
use crate::plan::{entry_views, path_map, spec_path_map, Entry};
use crate::run::{make_exit, no_files_exit, Exit};

verus! {

/// One tidy or lint action in progress: the selected filters run one after
/// another over one resolution, and their errors are gathered as they end.
pub struct ActionRun {
    pub action: Action,
    /// Indexes of the filters that take part, in the order they run.
    pub selected: Vec<usize>,
    /// The resolution, computed once for the whole action.
    pub groups: Vec<PathGroup>,
    /// How many of the selected filters have finished.
    pub done: usize,
    /// The errors of the finished filters, filter after filter.
    pub errors: Vec<ActionError>,
}

impl ActionRun {
    /// Whether the run's filter indexes fit `filters`.
    pub open spec fn fits(&self, filters: Seq<Filter>) -> bool {
        &&& self.done <= self.selected@.len()
        &&& forall|k: int| 0 <= k < self.selected@.len() ==> #[trigger] self.selected@[k] < filters.len()
    }

    /// The filter that runs next.
    pub open spec fn current_filter(&self, filters: Seq<Filter>) -> Filter {
        filters[self.selected@[self.done as int] as int]
    }

    /// Starts an action once its paths are resolved; a resolution with no
    /// file ends it at once with the exit for "no files found".
    pub fn new(action: Action, selected: Vec<usize>, resolution: Option<Vec<PathGroup>>) -> (r: Result<ActionRun, Exit>)
        ensures
            resolution is None <==> r is Err,
            r matches Err(e) ==> e.status == 0 && e.errors@.len() == 0 && e.fatal is None
                && (e.message matches Some(m) && m@ == "No files found"@),
            r matches Ok(run) ==> run.action == action && run.selected == selected && run.done == 0
                && run.errors@.len() == 0 && resolution == Some(run.groups),
    {
        match resolution {
            None => Err(no_files_exit()),
            Some(groups) => Ok(ActionRun { action, selected, groups, done: 0, errors: Vec::new() }),
        }
    }

    /// The filter that runs next, by index, with its invocations; `None`
    /// once every selected filter has run.
    pub fn current(&self, filters: &Vec<Filter>) -> (r: Option<(usize, Vec<Entry>)>)
        requires
            self.fits(filters@),
        ensures
            r is None <==> self.done == self.selected@.len(),
            r matches Some(p) ==> p.0 == self.selected@[self.done as int] && entry_views(p.1@) == spec_path_map(
                filters@[p.0 as int].run_mode,
                self.groups@,
            ),
    {
        if self.done >= self.selected.len() {
            return None;
        }
        let i = self.selected[self.done];
        Some((i, path_map(filters[i].run_mode, &self.groups)))
    }

    /// Records what came of the current filter's invocations and moves on
    /// to the next filter. The errors found so far are kept, whatever this
    /// filter yields.
    pub fn record(&mut self, filters: &Vec<Filter>, entries: &Vec<Entry>, invs: &Vec<Invocation>)
        requires
            old(self).fits(filters@),
            old(self).done < old(self).selected@.len(),
            entries@.len() == invs@.len(),
        ensures
            final(self).fits(filters@),
            final(self).done == old(self).done + 1,
            final(self).action == old(self).action,
            final(self).selected == old(self).selected,
            final(self).groups == old(self).groups,
            error_views(final(self).errors@) == error_views(old(self).errors@) + spec_filter_errors(
                old(self).current_filter(filters@),
                old(self).action,
                entry_keys_seq(entries@),
                invocation_views(invs@),
            ),
    {
        let i = self.selected[self.done];
        let count: usize = self.selected.len();
        assert(self.done < count);
        let next = self.done + 1;
        let mut found = filter_errors(&filters[i], self.action, entries, invs);
        let ghost before = self.errors@;
        let ghost added = found@;
        self.errors.append(&mut found);
        assert(error_views(self.errors@) =~= error_views(before) + error_views(added));
        self.done = next;
    }

    /// The exit of the action: success exactly when no filter failed.
    pub fn finish(self) -> (r: Exit)
        ensures
            r.status == (if self.errors@.len() == 0 { 0i8 } else { 1i8 }),
            r.errors == self.errors,
            r.message is None,
            r.fatal is None,
    {
        make_exit(self.errors)
    }
}

} // verus!
