//! The commands queued for the list's search worker, and how a backlog of
//! them is merged: every data update applies in order (so the last one
//! stands), and of the searches only the latest runs.

use vstd::prelude::*;

verus! {

/// A search for the worker; its result is tagged with `generation`.
#[derive(Debug, Clone)]
pub struct SearchRequest {
    pub query: String,
    pub generation: u64,
    pub workspace_filter: bool,
    pub project: Option<String>,
}

/// A command for the search worker: new data to search, or a search.
#[derive(Debug)]
pub enum SearchCommand<D> {
    UpdateData(D),
    Search(SearchRequest),
}

/// The data of the last update in `cmds`, if there is one.
pub open spec fn last_update_of<D>(cmds: Seq<SearchCommand<D>>) -> Option<D>
    decreases cmds.len(),
{
    if cmds.len() == 0 {
        None
    } else {
        match cmds.last() {
            SearchCommand::UpdateData(d) => Some(d),
            SearchCommand::Search(_) => last_update_of(cmds.drop_last()),
        }
    }
}

/// The last search in `cmds`, else `first`.
pub open spec fn last_search_of<D>(first: SearchRequest, cmds: Seq<SearchCommand<D>>) -> SearchRequest
    decreases cmds.len(),
{
    if cmds.len() == 0 {
        first
    } else {
        match cmds.last() {
            SearchCommand::Search(r) => r,
            SearchCommand::UpdateData(_) => last_search_of(first, cmds.drop_last()),
        }
    }
}

/// Merges the commands that were queued behind the search `first`: the data
/// of the last update among them (to replace the worker's data), and the
/// search to run.
pub fn merge_backlog<D>(first: SearchRequest, pending: Vec<SearchCommand<D>>) -> (r: (Option<D>, SearchRequest))
    ensures
        r.0 == last_update_of(pending@),
        r.1 == last_search_of(first, pending@),
{
    let ghost all = pending@;
    let mut data: Option<D> = None;
    let mut search = first;
    let mut rest = pending;
    let ghost mut k: int = 0;
    while rest.len() > 0
        invariant
            0 <= k <= all.len(),
            rest@ == all.skip(k),
            data == last_update_of(all.take(k)),
            search == last_search_of(first, all.take(k)),
        decreases rest.len(),
    {
        let c = rest.remove(0);
        proof {
            assert(all.take(k + 1).drop_last() =~= all.take(k));
            assert(all.take(k + 1).last() == all[k]);
            k = k + 1;
            assert(rest@ =~= all.skip(k));
        }
        match c {
            SearchCommand::UpdateData(d) => {
                data = Some(d);
            },
            SearchCommand::Search(r) => {
                search = r;
            },
        }
    }
    assert(all.take(k) =~= all);
    (data, search)
}

} // verus!
