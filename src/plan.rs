use vstd::prelude::*;
use crate::filter::RunMode;
use crate::glob::strs;
use crate::paths::{copy_strs, group_files, groups_wf, in_groups, PathGroup};

verus! {

/// One invocation of a filter: the path it targets, and the group of files
/// that the tool sees beside it.
pub struct Entry {
    pub key: String,
    pub group: PathGroup,
}

/// The mathematical value of an `Entry`.
pub struct EntryView {
    pub key: Seq<char>,
    pub dir: Seq<char>,
    pub files: Seq<Seq<char>>,
}

impl View for Entry {
    type V = EntryView;

    open spec fn view(&self) -> EntryView {
        EntryView { key: self.key@, dir: self.group.dir@, files: group_files(self.group) }
    }
}

/// The views of a sequence of entries.
pub open spec fn entry_views(es: Seq<Entry>) -> Seq<EntryView> {
    es.map_values(|e: Entry| e@)
}

/// Every file of every group, group after group.
pub open spec fn all_files(gs: Seq<PathGroup>) -> Seq<Seq<char>>
    decreases gs.len(),
{
    if gs.len() == 0 {
        Seq::empty()
    } else {
        all_files(gs.drop_last()) + group_files(gs.last())
    }
}

/// The entry for a whole directory.
pub open spec fn dir_entry(g: PathGroup) -> EntryView {
    EntryView { key: g.dir@, dir: g.dir@, files: group_files(g) }
}

/// One entry per file of a group, each with the whole group beside it.
pub open spec fn file_entries(g: PathGroup) -> Seq<EntryView> {
    group_files(g).map_values(|f: Seq<char>| EntryView { key: f, dir: g.dir@, files: group_files(g) })
}

/// The entries of the `Dirs` mode.
pub open spec fn dirs_map(gs: Seq<PathGroup>) -> Seq<EntryView> {
    gs.map_values(|g: PathGroup| dir_entry(g))
}

/// The entries of the `Files` mode.
pub open spec fn files_map(gs: Seq<PathGroup>) -> Seq<EntryView>
    decreases gs.len(),
{
    if gs.len() == 0 {
        Seq::empty()
    } else {
        files_map(gs.drop_last()) + file_entries(gs.last())
    }
}

/// The entries of the `Root` mode: one entry for the whole selection, or
/// none when it is empty.
pub open spec fn root_map(gs: Seq<PathGroup>) -> Seq<EntryView> {
    if all_files(gs).len() == 0 {
        Seq::empty()
    } else {
        seq![EntryView { key: seq!['.'], dir: seq!['.'], files: all_files(gs) }]
    }
}

/// The entries of a filter that runs in mode `m`.
pub open spec fn spec_path_map(m: RunMode, gs: Seq<PathGroup>) -> Seq<EntryView> {
    match m {
        RunMode::Root => root_map(gs),
        RunMode::Dirs => dirs_map(gs),
        RunMode::Files => files_map(gs),
    }
}

fn dot() -> (r: String)
    ensures
        r@ == seq!['.'],
{
    proof {
        reveal_strlit(".");
    }
    let d = String::from_str(".");
    assert(d@ =~= seq!['.']);
    d
}

fn copy_group(g: &PathGroup) -> (r: PathGroup)
    ensures
        r.dir@ == g.dir@,
        group_files(r) == group_files(*g),
{
    PathGroup { dir: g.dir.clone(), files: copy_strs(&g.files) }
}

fn root_entries(groups: &Vec<PathGroup>) -> (r: Vec<Entry>)
    ensures
        entry_views(r@) == root_map(groups@),
{
    let mut all: Vec<String> = Vec::new();
    let mut k: usize = 0;
    while k < groups.len()
        invariant
            k <= groups@.len(),
            strs(all@) == all_files(groups@.subrange(0, k as int)),
        decreases groups@.len() - k,
    {
        let mut more = copy_strs(&groups[k].files);
        let ghost before = all@;
        let ghost added = more@;
        all.append(&mut more);
        proof {
            let t = groups@.subrange(0, k + 1);
            assert(t.drop_last() =~= groups@.subrange(0, k as int));
            assert(t.last() == groups@[k as int]);
            assert(strs(all@) =~= strs(before) + strs(added));
        }
        k = k + 1;
    }
    assert(groups@.subrange(0, groups@.len() as int) =~= groups@);
    let mut r: Vec<Entry> = Vec::new();
    if all.len() > 0 {
        r.push(Entry { key: dot(), group: PathGroup { dir: dot(), files: all } });
        assert(entry_views(r@) =~= root_map(groups@));
    } else {
        assert(entry_views(r@) =~= root_map(groups@));
    }
    r
}

fn dir_entries(groups: &Vec<PathGroup>) -> (r: Vec<Entry>)
    ensures
        entry_views(r@) == dirs_map(groups@),
{
    let mut r: Vec<Entry> = Vec::new();
    let mut k: usize = 0;
    while k < groups.len()
        invariant
            k <= groups@.len(),
            entry_views(r@) =~= dirs_map(groups@).subrange(0, k as int),
        decreases groups@.len() - k,
    {
        let ghost before = r@;
        r.push(Entry { key: groups[k].dir.clone(), group: copy_group(&groups[k]) });
        assert(entry_views(r@) =~= entry_views(before).push(dir_entry(groups@[k as int])));
        k = k + 1;
    }
    r
}

fn file_entries_of(g: &PathGroup, r: &mut Vec<Entry>)
    ensures
        entry_views(final(r)@) == entry_views(old(r)@) + file_entries(*g),
{
    let ghost start = r@;
    let mut k: usize = 0;
    while k < g.files.len()
        invariant
            k <= g.files@.len(),
            entry_views(r@) =~= entry_views(start) + file_entries(*g).subrange(0, k as int),
        decreases g.files@.len() - k,
    {
        let ghost before = r@;
        r.push(Entry { key: g.files[k].clone(), group: copy_group(g) });
        assert(entry_views(r@) =~= entry_views(before).push(file_entries(*g)[k as int]));
        k = k + 1;
    }
    assert(file_entries(*g).subrange(0, g.files@.len() as int) =~= file_entries(*g));
}

fn files_entries(groups: &Vec<PathGroup>) -> (r: Vec<Entry>)
    ensures
        entry_views(r@) == files_map(groups@),
{
    let mut r: Vec<Entry> = Vec::new();
    let mut k: usize = 0;
    while k < groups.len()
        invariant
            k <= groups@.len(),
            entry_views(r@) == files_map(groups@.subrange(0, k as int)),
        decreases groups@.len() - k,
    {
        file_entries_of(&groups[k], &mut r);
        proof {
            let t = groups@.subrange(0, k + 1);
            assert(t.drop_last() =~= groups@.subrange(0, k as int));
            assert(t.last() == groups@[k as int]);
        }
        k = k + 1;
    }
    assert(groups@.subrange(0, groups@.len() as int) =~= groups@);
    r
}

/// The invocations of a filter that runs in mode `m` over a resolution.
pub fn path_map(m: RunMode, groups: &Vec<PathGroup>) -> (r: Vec<Entry>)
    ensures
        entry_views(r@) == spec_path_map(m, groups@),
{
    match m {
        RunMode::Root => root_entries(groups),
        RunMode::Dirs => dir_entries(groups),
        RunMode::Files => files_entries(groups),
    }
}

/// The files that some entry hands to its tool as its group.
pub open spec fn entry_group_files(es: Seq<EntryView>) -> Set<Seq<char>> {
    Set::new(|f: Seq<char>| exists|i: int| 0 <= i < es.len() && (#[trigger] es[i]).files.contains(f))
}

/// The paths that the entries target.
pub open spec fn entry_keys(es: Seq<EntryView>) -> Set<Seq<char>> {
    Set::new(|f: Seq<char>| exists|i: int| 0 <= i < es.len() && (#[trigger] es[i]).key == f)
}

proof fn lemma_files_map_keys(gs: Seq<PathGroup>, f: Seq<char>)
    ensures
        (exists|i: int| 0 <= i < files_map(gs).len() && (#[trigger] files_map(gs)[i]).key == f)
            <==> in_groups(gs, f),
    decreases gs.len(),
{
    if gs.len() > 0 {
        let init = gs.drop_last();
        let fe = file_entries(gs.last());
        lemma_files_map_keys(init, f);
        let m = files_map(gs);
        assert(m == files_map(init) + fe);
        if exists|i: int| 0 <= i < m.len() && (#[trigger] m[i]).key == f {
            let i = choose|i: int| 0 <= i < m.len() && (#[trigger] m[i]).key == f;
            if i < files_map(init).len() {
                assert(files_map(init)[i] == m[i]);
                let a = choose|a: int| 0 <= a < init.len() && group_files(#[trigger] init[a]).contains(f);
                assert(gs[a] == init[a]);
            } else {
                let j = i - files_map(init).len();
                assert(fe[j] == m[i]);
                assert(group_files(gs.last())[j] == f);
                assert(group_files(gs[gs.len() - 1]).contains(f));
            }
        }
        if in_groups(gs, f) {
            let a = choose|a: int| 0 <= a < gs.len() && group_files(#[trigger] gs[a]).contains(f);
            if a < gs.len() - 1 {
                assert(init[a] == gs[a]);
                assert(in_groups(init, f));
                let i = choose|i: int| 0 <= i < files_map(init).len() && (#[trigger] files_map(init)[i]).key == f;
                assert(m[i] == files_map(init)[i]);
            } else {
                let j = choose|j: int| 0 <= j < group_files(gs.last()).len() && group_files(gs.last())[j] == f;
                assert(m[files_map(init).len() + j] == fe[j]);
            }
        }
    }
}

proof fn lemma_all_files(gs: Seq<PathGroup>, f: Seq<char>)
    ensures
        all_files(gs).contains(f) <==> in_groups(gs, f),
    decreases gs.len(),
{
    if gs.len() > 0 {
        let init = gs.drop_last();
        let lf = group_files(gs.last());
        lemma_all_files(init, f);
        let s = all_files(gs);
        assert(s == all_files(init) + lf);
        if s.contains(f) {
            let i = choose|i: int| 0 <= i < s.len() && s[i] == f;
            if i < all_files(init).len() {
                assert(all_files(init)[i] == f);
                let a = choose|a: int| 0 <= a < init.len() && group_files(#[trigger] init[a]).contains(f);
                assert(gs[a] == init[a]);
            } else {
                assert(lf[i - all_files(init).len()] == f);
                assert(group_files(gs[gs.len() - 1]).contains(f));
            }
        }
        if in_groups(gs, f) {
            let a = choose|a: int| 0 <= a < gs.len() && group_files(#[trigger] gs[a]).contains(f);
            if a < gs.len() - 1 {
                assert(init[a] == gs[a]);
                assert(in_groups(init, f));
                let i = choose|i: int| 0 <= i < all_files(init).len() && all_files(init)[i] == f;
                assert(s[i] == f);
            } else {
                let j = choose|j: int| 0 <= j < lf.len() && lf[j] == f;
                assert(s[all_files(init).len() + j] == f);
            }
        }
    }
}

/// Cutting a resolution by directory or by file neither adds nor drops a
/// file: the files of the directory entries, the targets of the file
/// entries and the files of the root entry are the same set, the files of
/// the resolution.
pub proof fn lemma_partition(gs: Seq<PathGroup>)
    ensures
        entry_group_files(dirs_map(gs)) == entry_keys(files_map(gs)),
        entry_keys(files_map(gs)) == Set::new(|f: Seq<char>| in_groups(gs, f)),
        entry_group_files(root_map(gs)) == Set::new(|f: Seq<char>| in_groups(gs, f)),
{
    assert forall|f: Seq<char>| entry_keys(files_map(gs)).contains(f) <==> in_groups(gs, f) by {
        lemma_files_map_keys(gs, f);
    }
    assert forall|f: Seq<char>| entry_group_files(dirs_map(gs)).contains(f) <==> in_groups(gs, f) by {
        if entry_group_files(dirs_map(gs)).contains(f) {
            let i = choose|i: int| 0 <= i < dirs_map(gs).len() && (#[trigger] dirs_map(gs)[i]).files.contains(f);
            assert(dirs_map(gs)[i] == dir_entry(gs[i]));
        }
        if in_groups(gs, f) {
            let a = choose|a: int| 0 <= a < gs.len() && group_files(#[trigger] gs[a]).contains(f);
            assert(dirs_map(gs)[a] == dir_entry(gs[a]));
        }
    }
    assert forall|f: Seq<char>| entry_group_files(root_map(gs)).contains(f) <==> in_groups(gs, f) by {
        lemma_all_files(gs, f);
        if in_groups(gs, f) {
            assert(all_files(gs).len() > 0);
            assert(root_map(gs)[0].files == all_files(gs));
        }
    }
    assert forall|f: Seq<char>|
        entry_group_files(dirs_map(gs)).contains(f) <==> #[trigger] entry_keys(files_map(gs)).contains(f) by {
        assert(entry_group_files(dirs_map(gs)).contains(f) <==> in_groups(gs, f));
        assert(entry_keys(files_map(gs)).contains(f) <==> in_groups(gs, f));
    }
    assert(entry_group_files(dirs_map(gs)) =~= entry_keys(files_map(gs)));
    assert(entry_keys(files_map(gs)) =~= Set::new(|f: Seq<char>| in_groups(gs, f)));
    assert(entry_group_files(root_map(gs)) =~= Set::new(|f: Seq<char>| in_groups(gs, f)));
}

/// A filter in `Root` mode gets exactly one invocation over a non-empty
/// resolution and none over an empty one.
pub proof fn lemma_root_single_entry(gs: Seq<PathGroup>)
    requires
        groups_wf(gs),
    ensures
        gs.len() > 0 ==> spec_path_map(RunMode::Root, gs).len() == 1,
        gs.len() == 0 ==> spec_path_map(RunMode::Root, gs).len() == 0,
{
    if gs.len() > 0 {
        assert(gs[gs.len() - 1].files@.len() > 0);
        assert(all_files(gs) == all_files(gs.drop_last()) + group_files(gs.last()));
    }
}

} // verus!
