use vstd::prelude::*;
use crate::filter::{
    spec_lint, spec_tidy, spec_wants, RunMode, Action, ErrorKind, ErrorKindView, Filter, Invocation, InvocationView,
};
use crate::paths::group_files;
use crate::plan::{entry_views, Entry};

verus! {

/// A failure of one filter on one path.
pub struct ActionError {
    pub path: String,
    pub filter_name: String,
    pub kind: ErrorKind,
}

/// The mathematical value of an `ActionError`.
pub struct ActionErrorView {
    pub path: Seq<char>,
    pub filter_name: Seq<char>,
    pub kind: ErrorKindView,
}

impl View for ActionError {
    type V = ActionErrorView;

    open spec fn view(&self) -> ActionErrorView {
        ActionErrorView { path: self.path@, filter_name: self.filter_name@, kind: self.kind@ }
    }
}

/// The views of a sequence of errors.
pub open spec fn error_views(es: Seq<ActionError>) -> Seq<ActionErrorView> {
    es.map_values(|e: ActionError| e@)
}

/// The views of a sequence of invocations.
pub open spec fn invocation_views(v: Seq<Invocation>) -> Seq<InvocationView> {
    v.map_values(|i: Invocation| i@)
}

/// The error, if any, that an invocation of `f` on the path `key` yields in
/// action `a`: an execution error in either action, and a lint failure in
/// linting.
pub open spec fn spec_entry_error(f: Filter, a: Action, key: Seq<char>, inv: InvocationView) -> Option<ActionErrorView> {
    let res = if a is Tidy { spec_tidy(f, inv) } else { spec_lint(f, inv) };
    match res {
        Err(kind) => Some(ActionErrorView { path: key, filter_name: f.name@, kind }),
        Ok(Some(false)) => if a is Lint {
            Some(ActionErrorView { path: key, filter_name: f.name@, kind: ErrorKindView::LintFailed })
        } else {
            None
        },
        _ => None,
    }
}

/// The errors of one filter over its invocations, in the order of the
/// invocations.
pub open spec fn spec_filter_errors(
    f: Filter,
    a: Action,
    keys: Seq<Seq<char>>,
    invs: Seq<InvocationView>,
) -> Seq<ActionErrorView>
    decreases keys.len(),
{
    if keys.len() == 0 || invs.len() == 0 {
        Seq::empty()
    } else {
        let init = spec_filter_errors(f, a, keys.drop_last(), invs.drop_last());
        match spec_entry_error(f, a, keys.last(), invs.last()) {
            Some(e) => init.push(e),
            None => init,
        }
    }
}

/// The targets of a sequence of entries.
pub open spec fn entry_keys_seq(es: Seq<Entry>) -> Seq<Seq<char>> {
    entry_views(es).map_values(|e: crate::plan::EntryView| e.key)
}

/// The error that an invocation of `f` on `key` yields in action `a`.
pub fn entry_error(f: &Filter, a: Action, key: &String, inv: &Invocation) -> (r: Option<ActionError>)
    ensures
        (match r {
            Some(e) => spec_entry_error(*f, a, key@, inv@) == Some(e@),
            None => spec_entry_error(*f, a, key@, inv@) is None,
        }),
{
    let res = match a {
        Action::Tidy => f.tidy(inv),
        Action::Lint => f.lint(inv),
    };
    match res {
        Err(kind) => Some(ActionError { path: key.clone(), filter_name: f.name.clone(), kind }),
        Ok(Some(false)) => match a {
            Action::Lint => Some(
                ActionError { path: key.clone(), filter_name: f.name.clone(), kind: ErrorKind::LintFailed },
            ),
            Action::Tidy => None,
        },
        _ => None,
    }
}

/// The errors of filter `f` in action `a`, where `invs[i]` is what came of
/// running it on `entries[i]`.
pub fn filter_errors(f: &Filter, a: Action, entries: &Vec<Entry>, invs: &Vec<Invocation>) -> (r: Vec<ActionError>)
    requires
        entries@.len() == invs@.len(),
    ensures
        error_views(r@) == spec_filter_errors(*f, a, entry_keys_seq(entries@), invocation_views(invs@)),
{
    let ghost keys = entry_keys_seq(entries@);
    let ghost ivs = invocation_views(invs@);
    let mut r: Vec<ActionError> = Vec::new();
    let mut k: usize = 0;
    while k < entries.len()
        invariant
            k <= entries@.len(),
            entries@.len() == invs@.len(),
            keys == entry_keys_seq(entries@),
            ivs == invocation_views(invs@),
            error_views(r@) == spec_filter_errors(*f, a, keys.subrange(0, k as int), ivs.subrange(0, k as int)),
        decreases entries@.len() - k,
    {
        let ghost before = r@;
        let e = entry_error(f, a, &entries[k].key, &invs[k]);
        proof {
            assert(keys.subrange(0, k + 1).drop_last() =~= keys.subrange(0, k as int));
            assert(ivs.subrange(0, k + 1).drop_last() =~= ivs.subrange(0, k as int));
            assert(keys[k as int] == entries@[k as int].key@);
            assert(ivs[k as int] == invs@[k as int]@);
        }
        match e {
            Some(e) => {
                r.push(e);
                assert(error_views(r@) =~= error_views(before).push(r@[before.len() as int]@));
            },
            None => {},
        }
        k = k + 1;
    }
    assert(keys.subrange(0, entries@.len() as int) =~= keys);
    assert(ivs.subrange(0, entries@.len() as int) =~= ivs);
    r
}

proof fn lemma_filter_errors_member(
    f: Filter,
    a: Action,
    keys: Seq<Seq<char>>,
    invs: Seq<InvocationView>,
    e: ActionErrorView,
)
    requires
        keys.len() == invs.len(),
    ensures
        spec_filter_errors(f, a, keys, invs).contains(e) <==> exists|i: int|
            0 <= i < keys.len() && #[trigger] spec_entry_error(f, a, keys[i], invs[i]) == Some(e),
    decreases keys.len(),
{
    if keys.len() > 0 {
        let ki = keys.drop_last();
        let ii = invs.drop_last();
        lemma_filter_errors_member(f, a, ki, ii, e);
        let init = spec_filter_errors(f, a, ki, ii);
        let all = spec_filter_errors(f, a, keys, invs);
        let n = keys.len() - 1;
        if all.contains(e) {
            let w = choose|w: int| 0 <= w < all.len() && all[w] == e;
            if w < init.len() {
                assert(init[w] == e);
                let i = choose|i: int| 0 <= i < ki.len() && #[trigger] spec_entry_error(f, a, ki[i], ii[i]) == Some(e);
                assert(ki[i] == keys[i] && ii[i] == invs[i]);
            } else {
                assert(spec_entry_error(f, a, keys[n], invs[n]) == Some(e));
            }
        }
        if exists|i: int| 0 <= i < keys.len() && #[trigger] spec_entry_error(f, a, keys[i], invs[i]) == Some(e) {
            let i = choose|i: int| 0 <= i < keys.len() && #[trigger] spec_entry_error(f, a, keys[i], invs[i]) == Some(e);
            if i < n {
                assert(ki[i] == keys[i] && ii[i] == invs[i]);
                assert(spec_entry_error(f, a, ki[i], ii[i]) == Some(e));
                let w = choose|w: int| 0 <= w < init.len() && init[w] == e;
                assert(all[w] == e);
            } else {
                assert(all[all.len() - 1] == e);
            }
        }
    }
}

/// The errors of a filter do not depend on the order in which its
/// invocations finish: two runs that pair the same targets with the same
/// outcomes, in any order, yield the same set of errors.
pub proof fn lemma_errors_order_independent(
    f: Filter,
    a: Action,
    keys1: Seq<Seq<char>>,
    invs1: Seq<InvocationView>,
    keys2: Seq<Seq<char>>,
    invs2: Seq<InvocationView>,
)
    requires
        keys1.len() == invs1.len(),
        keys2.len() == invs2.len(),
        forall|i: int| 0 <= i < keys1.len() ==> exists|j: int|
            0 <= j < keys2.len() && keys2[j] == #[trigger] keys1[i] && invs2[j] == invs1[i],
        forall|j: int| 0 <= j < keys2.len() ==> exists|i: int|
            0 <= i < keys1.len() && #[trigger] keys2[j] == keys1[i] && invs2[j] == invs1[i],
    ensures
        spec_filter_errors(f, a, keys1, invs1).to_set() == spec_filter_errors(f, a, keys2, invs2).to_set(),
{
    let s1 = spec_filter_errors(f, a, keys1, invs1);
    let s2 = spec_filter_errors(f, a, keys2, invs2);
    assert forall|e: ActionErrorView| s1.to_set().contains(e) <==> s2.to_set().contains(e) by {
        lemma_filter_errors_member(f, a, keys1, invs1, e);
        lemma_filter_errors_member(f, a, keys2, invs2, e);
        if s1.contains(e) {
            let i = choose|i: int| 0 <= i < keys1.len() && #[trigger] spec_entry_error(f, a, keys1[i], invs1[i]) == Some(e);
            let j = choose|j: int| 0 <= j < keys2.len() && keys2[j] == #[trigger] keys1[i] && invs2[j] == invs1[i];
            assert(spec_entry_error(f, a, keys2[j], invs2[j]) == Some(e));
        }
        if s2.contains(e) {
            let j = choose|j: int| 0 <= j < keys2.len() && #[trigger] spec_entry_error(f, a, keys2[j], invs2[j]) == Some(e);
            let i = choose|i: int| 0 <= i < keys1.len() && #[trigger] keys2[j] == keys1[i] && invs2[j] == invs1[i];
            assert(spec_entry_error(f, a, keys1[i], invs1[i]) == Some(e));
        }
    }
    assert(s1.to_set() =~= s2.to_set());
}

/// Whether filter `f` has work in entry `e`: in `Files` mode when it wants
/// the target, otherwise when it wants one of the entry's files.
pub open spec fn spec_applies(f: Filter, e: Entry) -> bool {
    if f.run_mode is Files {
        spec_wants(f, e.key@)
    } else {
        exists|k: int| 0 <= k < e.group.files@.len() && spec_wants(f, #[trigger] group_files(e.group)[k])
    }
}

/// Whether filter `f` has work in entry `e`.
pub fn applies(f: &Filter, e: &Entry) -> (r: bool)
    ensures
        r == spec_applies(*f, *e),
{
    if f.run_mode == RunMode::Files {
        return f.wants(e.key.as_str());
    }
    let mut k: usize = 0;
    while k < e.group.files.len()
        invariant
            k <= e.group.files@.len(),
            f.run_mode != RunMode::Files,
            forall|m: int| 0 <= m < k ==> !spec_wants(*f, #[trigger] group_files(e.group)[m]),
        decreases e.group.files@.len() - k,
    {
        let w = f.wants(e.group.files[k].as_str());
        assert(group_files(e.group)[k as int] == e.group.files@[k as int]@);
        if w {
            return true;
        }
        k = k + 1;
    }
    false
}

} // verus!
