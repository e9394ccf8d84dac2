use vstd::prelude::*;
use crate::glob::{any_glob_matches, chars_of, matches_any, strs};

verus! {

/// Index of the last `/` in `p`, or -1 where there is none.
pub open spec fn last_slash(p: Seq<char>) -> int
    decreases p.len(),
{
    if p.len() == 0 {
        -1
    } else if p.last() == '/' {
        p.len() - 1
    } else {
        last_slash(p.drop_last())
    }
}

/// The directory that immediately contains `p`: what stands before its last
/// `/`, or `.` for a path with no `/`.
pub open spec fn parent_of(p: Seq<char>) -> Seq<char> {
    if last_slash(p) < 0 {
        seq!['.']
    } else {
        p.subrange(0, last_slash(p))
    }
}

proof fn lemma_last_slash_prefix(p: Seq<char>, k: int)
    requires
        0 <= k <= p.len(),
        forall|m: int| k <= m < p.len() ==> p[m] != '/',
    ensures
        last_slash(p) == last_slash(p.subrange(0, k)),
    decreases p.len() - k,
{
    if k < p.len() {
        assert(p.drop_last() =~= p.subrange(0, p.len() - 1));
        lemma_last_slash_prefix(p.drop_last(), k);
        assert(p.drop_last().subrange(0, k) =~= p.subrange(0, k));
    } else {
        assert(p.subrange(0, k) =~= p);
    }
}

/// The directory that immediately contains `path`.
pub fn parent_dir(path: &str) -> (r: String)
    ensures
        r@ == parent_of(path@),
{
    let cs = chars_of(path);
    let mut k: usize = cs.len();
    while k > 0 && cs[k - 1] != '/'
        invariant
            cs@ == path@,
            k <= cs@.len(),
            forall|m: int| k <= m < cs@.len() ==> cs@[m] != '/',
        decreases k,
    {
        k = k - 1;
    }
    proof {
        lemma_last_slash_prefix(path@, k as int);
        if k > 0 {
            assert(path@.subrange(0, k as int).last() == '/');
        } else {
            assert(path@.subrange(0, 0).len() == 0);
        }
    }
    if k == 0 {
        proof {
            reveal_strlit(".");
        }
        let d = String::from_str(".");
        assert(d@ =~= seq!['.']);
        d
    } else {
        String::from_str(path.substring_char(0, k - 1))
    }
}

/// Whether `v` holds a string equal to `s`.
pub fn contains_str(v: &Vec<String>, s: &String) -> (r: bool)
    ensures
        r == strs(v@).contains(s@),
{
    let mut k: usize = 0;
    while k < v.len()
        invariant
            k <= v@.len(),
            forall|m: int| 0 <= m < k ==> v@[m]@ != s@,
        decreases v@.len() - k,
    {
        if v[k].eq(s) {
            assert(strs(v@)[k as int] == s@);
            return true;
        }
        k = k + 1;
    }
    false
}

/// A copy of a list of strings.
pub fn copy_strs(v: &Vec<String>) -> (r: Vec<String>)
    ensures
        strs(r@) == strs(v@),
{
    let mut r: Vec<String> = Vec::new();
    let mut k: usize = 0;
    while k < v.len()
        invariant
            k <= v@.len(),
            strs(r@) =~= strs(v@).subrange(0, k as int),
        decreases v@.len() - k,
    {
        let ghost before = r@;
        r.push(v[k].clone());
        assert(strs(r@) =~= strs(before).push(v@[k as int]@));
        k = k + 1;
    }
    assert(strs(v@).subrange(0, v@.len() as int) =~= strs(v@));
    r
}

/// A directory and the candidate files directly inside it.
pub struct PathGroup {
    pub dir: String,
    pub files: Vec<String>,
}

/// The files of a group, as character sequences.
pub open spec fn group_files(g: PathGroup) -> Seq<Seq<char>> {
    strs(g.files@)
}

/// A well-formed list of groups: no directory twice, no file twice within a
/// group, no empty group, and each file under the directory that contains it.
pub open spec fn groups_wf(gs: Seq<PathGroup>) -> bool {
    &&& forall|a: int, b: int|
        0 <= a < gs.len() && 0 <= b < gs.len() && a != b ==> gs[a].dir@ != gs[b].dir@
    &&& forall|a: int|
        0 <= a < gs.len() ==> {
            &&& (#[trigger] gs[a]).files@.len() > 0
            &&& group_files(gs[a]).no_duplicates()
            &&& forall|k: int|
                0 <= k < gs[a].files@.len() ==> parent_of(#[trigger] gs[a].files@[k]@) == gs[a].dir@
        }
}

/// Whether `f` is one of the files of some group.
pub open spec fn in_groups(gs: Seq<PathGroup>, f: Seq<char>) -> bool {
    exists|a: int| 0 <= a < gs.len() && group_files(#[trigger] gs[a]).contains(f)
}

/// All the files of a list of groups.
pub open spec fn groups_file_set(gs: Seq<PathGroup>) -> Set<Seq<char>> {
    Set::new(|f: Seq<char>| in_groups(gs, f))
}

/// The files of `files` whose parent is `dir`, each once, in the order of
/// their first appearance.
fn members_of(files: &Vec<String>, parents: &Vec<String>, dir: &String) -> (r: Vec<String>)
    requires
        parents@.len() == files@.len(),
        forall|i: int| 0 <= i < files@.len() ==> parents@[i]@ == parent_of(#[trigger] files@[i]@),
    ensures
        strs(r@).no_duplicates(),
        forall|k: int| 0 <= k < r@.len() ==> parent_of(#[trigger] r@[k]@) == dir@,
        forall|f: Seq<char>| strs(r@).contains(f) <==> (strs(files@).contains(f) && parent_of(f) == dir@),
{
    let mut r: Vec<String> = Vec::new();
    let mut i: usize = 0;
    while i < files.len()
        invariant
            i <= files@.len(),
            parents@.len() == files@.len(),
            forall|i: int| 0 <= i < files@.len() ==> parents@[i]@ == parent_of(#[trigger] files@[i]@),
            strs(r@).no_duplicates(),
            forall|k: int| 0 <= k < r@.len() ==> parent_of(#[trigger] r@[k]@) == dir@,
            forall|f: Seq<char>|
                strs(r@).contains(f) <==> (strs(files@).subrange(0, i as int).contains(f) && parent_of(f) == dir@),
        decreases files@.len() - i,
    {
        let ghost before = r@;
        let ghost fi = files@[i as int]@;
        assert(strs(files@).subrange(0, i + 1) =~= strs(files@).subrange(0, i as int).push(fi));
        let same = parents[i].eq(dir);
        let present = contains_str(&r, &files[i]);
        assert(parents@[i as int]@ == parent_of(files@[i as int]@));
        if same && !present {
            r.push(files[i].clone());
            assert(strs(r@) =~= strs(before).push(fi));
        }
        proof {
            assert forall|f: Seq<char>|
                strs(r@).contains(f) <==> (strs(files@).subrange(0, i + 1).contains(f) && parent_of(f) == dir@) by {
                assert(strs(files@).subrange(0, i + 1)[i as int] == fi);
                if strs(files@).subrange(0, i + 1).contains(f) && f != fi {
                    let w = choose|w: int| 0 <= w < i + 1 && #[trigger] strs(files@).subrange(0, i + 1)[w] == f;
                    assert(strs(files@).subrange(0, i as int)[w] == f);
                }
                if strs(files@).subrange(0, i as int).contains(f) {
                    let w = choose|w: int| 0 <= w < i && #[trigger] strs(files@).subrange(0, i as int)[w] == f;
                    assert(strs(files@).subrange(0, i + 1)[w] == f);
                }
                if strs(r@).contains(f) && !strs(before).contains(f) {
                    let w = choose|w: int| 0 <= w < r@.len() && #[trigger] strs(r@)[w] == f;
                    if w < before.len() {
                        assert(strs(before)[w] == f);
                    }
                    assert(f == fi);
                }
                if f == fi && strs(files@).subrange(0, i + 1).contains(f) && parent_of(f) == dir@ {
                    if present {
                        assert(strs(r@).contains(f));
                    } else {
                        assert(strs(r@)[before.len() as int] == f);
                    }
                }
                if strs(before).contains(f) {
                    let w = choose|w: int| 0 <= w < before.len() && #[trigger] strs(before)[w] == f;
                    assert(strs(r@)[w] == f);
                }
            }
        }
        i = i + 1;
    }
    assert(strs(files@).subrange(0, files@.len() as int) =~= strs(files@));
    r
}

/// Groups `files` by the directory that immediately contains each of them.
/// Directories come in the order of their first file; within a group, files
/// keep their order, and a file given twice is listed once.
pub fn group_by_dir(files: &Vec<String>) -> (r: Vec<PathGroup>)
    ensures
        groups_wf(r@),
        forall|f: Seq<char>| in_groups(r@, f) <==> strs(files@).contains(f),
{
    let mut parents: Vec<String> = Vec::new();
    let mut dirs: Vec<String> = Vec::new();
    let mut i: usize = 0;
    while i < files.len()
        invariant
            i <= files@.len(),
            parents@.len() == i,
            forall|m: int| 0 <= m < i ==> parents@[m]@ == parent_of(#[trigger] files@[m]@),
            strs(dirs@).no_duplicates(),
            forall|d: Seq<char>|
                strs(dirs@).contains(d) <==> exists|m: int| 0 <= m < i && parent_of(#[trigger] files@[m]@) == d,
        decreases files@.len() - i,
    {
        let d = parent_dir(files[i].as_str());
        let ghost before = dirs@;
        if !contains_str(&dirs, &d) {
            dirs.push(d.clone());
            assert(strs(dirs@) =~= strs(before).push(d@));
        }
        parents.push(d);
        proof {
            assert forall|d2: Seq<char>|
                strs(dirs@).contains(d2) <==> exists|m: int| 0 <= m < i + 1 && parent_of(#[trigger] files@[m]@) == d2 by {
                if strs(before).contains(d2) {
                    let w = choose|w: int| 0 <= w < before.len() && #[trigger] strs(before)[w] == d2;
                    assert(strs(dirs@)[w] == d2);
                }
                if strs(dirs@).contains(d2) && d2 != parent_of(files@[i as int]@) {
                    let w = choose|w: int| 0 <= w < dirs@.len() && #[trigger] strs(dirs@)[w] == d2;
                    assert(strs(before)[w] == d2);
                }
                if d2 == parent_of(files@[i as int]@) {
                    if !strs(before).contains(d2) {
                        assert(strs(dirs@)[before.len() as int] == d2);
                    }
                }
            }
        }
        i = i + 1;
    }
    let mut r: Vec<PathGroup> = Vec::new();
    let mut k: usize = 0;
    while k < dirs.len()
        invariant
            k <= dirs@.len(),
            r@.len() == k,
            parents@.len() == files@.len(),
            forall|m: int| 0 <= m < files@.len() ==> parents@[m]@ == parent_of(#[trigger] files@[m]@),
            strs(dirs@).no_duplicates(),
            forall|d: Seq<char>|
                strs(dirs@).contains(d) <==> exists|m: int| 0 <= m < files@.len() && parent_of(#[trigger] files@[m]@) == d,
            forall|a: int| 0 <= a < k ==> (#[trigger] r@[a]).dir@ == dirs@[a]@,
            groups_wf(r@),
            forall|f: Seq<char>|
                in_groups(r@, f) <==> (strs(files@).contains(f) && strs(dirs@).subrange(0, k as int).contains(parent_of(f))),
        decreases dirs@.len() - k,
    {
        let members = members_of(files, &parents, &dirs[k]);
        let ghost d = dirs@[k as int]@;
        proof {
            assert(strs(dirs@)[k as int] == d);
            assert(strs(dirs@).contains(d));
            let m = choose|m: int| 0 <= m < files@.len() && parent_of(#[trigger] files@[m]@) == d;
            assert(strs(files@)[m] == files@[m]@);
            assert(strs(members@).contains(files@[m]@));
        }
        let ghost before = r@;
        r.push(PathGroup { dir: dirs[k].clone(), files: members });
        proof {
            assert(strs(dirs@).subrange(0, k + 1) =~= strs(dirs@).subrange(0, k as int).push(d));
            assert forall|a: int, b: int|
                0 <= a < r@.len() && 0 <= b < r@.len() && a != b implies r@[a].dir@ != r@[b].dir@ by {
                assert(strs(dirs@)[a] == dirs@[a]@);
                assert(strs(dirs@)[b] == dirs@[b]@);
            }
            assert forall|f: Seq<char>|
                in_groups(r@, f) <==> (strs(files@).contains(f) && strs(dirs@).subrange(0, k + 1).contains(parent_of(f))) by {
                if in_groups(r@, f) {
                    let a = choose|a: int| 0 <= a < r@.len() && group_files(#[trigger] r@[a]).contains(f);
                    if a < k {
                        assert(in_groups(before, f));
                    } else {
                        assert(strs(dirs@).subrange(0, k + 1)[k as int] == d);
                    }
                }
                if strs(files@).contains(f) && strs(dirs@).subrange(0, k + 1).contains(parent_of(f)) {
                    if parent_of(f) == d {
                        assert(group_files(r@[k as int]).contains(f));
                    } else {
                        let w = choose|w: int| 0 <= w < k + 1 && #[trigger] strs(dirs@).subrange(0, k + 1)[w] == parent_of(f);
                        assert(strs(dirs@).subrange(0, k as int)[w] == parent_of(f));
                        assert(in_groups(before, f));
                        let a = choose|a: int| 0 <= a < before.len() && group_files(#[trigger] before[a]).contains(f);
                        assert(r@[a] == before[a]);
                    }
                }
            }
        }
        k = k + 1;
    }
    proof {
        assert(strs(dirs@).subrange(0, dirs@.len() as int) =~= strs(dirs@));
        assert forall|f: Seq<char>| strs(files@).contains(f) implies strs(dirs@).contains(parent_of(f)) by {
            let m = choose|m: int| 0 <= m < files@.len() && strs(files@)[m] == f;
            assert(parent_of(files@[m]@) == parent_of(f));
        }
    }
    r
}

/// Whether `f` is a candidate that no exclude glob matches.
pub open spec fn is_kept(candidates: Seq<Seq<char>>, excludes: Seq<Seq<char>>, f: Seq<char>) -> bool {
    candidates.contains(f) && !any_glob_matches(excludes, f)
}

/// What a resolution of `candidates` under `excludes` returns: nothing when
/// every candidate is excluded, otherwise well-formed groups holding exactly
/// the candidates that are not excluded.
pub open spec fn is_resolution(
    candidates: Seq<Seq<char>>,
    excludes: Seq<Seq<char>>,
    r: Option<Vec<PathGroup>>,
) -> bool {
    &&& r is None <==> (forall|f: Seq<char>| !is_kept(candidates, excludes, f))
    &&& r matches Some(gs) ==> {
        &&& groups_wf(gs@)
        &&& forall|f: Seq<char>| in_groups(gs@, f) <==> is_kept(candidates, excludes, f)
    }
}

/// Drops the candidates that an exclude glob matches and groups the rest by
/// directory; `None` when no file is left.
pub fn resolve(candidates: &Vec<String>, excludes: &Vec<String>) -> (r: Option<Vec<PathGroup>>)
    ensures
        is_resolution(strs(candidates@), strs(excludes@), r),
{
    let ghost c = strs(candidates@);
    let ghost ex = strs(excludes@);
    let mut kept: Vec<String> = Vec::new();
    let mut i: usize = 0;
    while i < candidates.len()
        invariant
            i <= candidates@.len(),
            c == strs(candidates@),
            ex == strs(excludes@),
            forall|f: Seq<char>|
                #![trigger strs(kept@).contains(f)]
                #![trigger c.subrange(0, i as int).contains(f)]
                strs(kept@).contains(f) <==> (c.subrange(0, i as int).contains(f) && !any_glob_matches(ex, f)),
        decreases candidates@.len() - i,
    {
        let ghost before = kept@;
        let ghost fi = candidates@[i as int]@;
        assert(c[i as int] == fi);
        assert(c.subrange(0, i + 1) =~= c.subrange(0, i as int).push(fi));
        let excluded = matches_any(excludes, candidates[i].as_str());
        if !excluded {
            kept.push(candidates[i].clone());
            assert(strs(kept@) =~= strs(before).push(fi));
        }
        proof {
            assert forall|f: Seq<char>|
                #![trigger strs(kept@).contains(f)]
                #![trigger c.subrange(0, i + 1).contains(f)]
                strs(kept@).contains(f) <==> (c.subrange(0, i + 1).contains(f) && !any_glob_matches(ex, f)) by {
                assert(c.subrange(0, i + 1)[i as int] == fi);
                if c.subrange(0, i + 1).contains(f) && f != fi {
                    let w = choose|w: int| 0 <= w < i + 1 && #[trigger] c.subrange(0, i + 1)[w] == f;
                    assert(c.subrange(0, i as int)[w] == f);
                }
                if c.subrange(0, i as int).contains(f) {
                    let w = choose|w: int| 0 <= w < i && #[trigger] c.subrange(0, i as int)[w] == f;
                    assert(c.subrange(0, i + 1)[w] == f);
                }
                if strs(kept@).contains(f) && !strs(before).contains(f) {
                    let w = choose|w: int| 0 <= w < kept@.len() && #[trigger] strs(kept@)[w] == f;
                    if w < before.len() {
                        assert(strs(before)[w] == f);
                    }
                }
                if strs(before).contains(f) {
                    let w = choose|w: int| 0 <= w < before.len() && #[trigger] strs(before)[w] == f;
                    assert(strs(kept@)[w] == f);
                }
                if f == fi && !excluded {
                    assert(strs(kept@)[before.len() as int] == f);
                }
            }
        }
        i = i + 1;
    }
    assert(c.subrange(0, candidates@.len() as int) =~= c);
    if kept.len() == 0 {
        proof {
            assert forall|f: Seq<char>| !is_kept(c, ex, f) by {
                if is_kept(c, ex, f) {
                    assert(strs(kept@).contains(f));
                }
            }
        }
        None
    } else {
        let gs = group_by_dir(&kept);
        proof {
            assert(strs(kept@)[0] == kept@[0]@);
            assert(strs(kept@).contains(kept@[0]@));
            assert(is_kept(c, ex, kept@[0]@));
        }
        Some(gs)
    }
}

/// No file that an exclude glob matches is ever part of a resolution.
pub proof fn lemma_resolution_never_excluded(
    candidates: Seq<Seq<char>>,
    excludes: Seq<Seq<char>>,
    r: Option<Vec<PathGroup>>,
    f: Seq<char>,
)
    requires
        is_resolution(candidates, excludes, r),
        any_glob_matches(excludes, f),
    ensures
        r matches Some(gs) ==> !in_groups(gs@, f),
{
}

} // verus!
