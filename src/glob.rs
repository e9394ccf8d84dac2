use vstd::prelude::*;

verus! {

/// The views of a sequence of strings.
pub open spec fn strs(v: Seq<String>) -> Seq<Seq<char>> {
    v.map_values(|s: String| s@)
}

/// Whether the pattern `p`, read from index `i`, matches the path `s`, read
/// from index `j`.
///
/// `*` stands for any run of characters other than `/`; `**` for any run at
/// all, and `**/` also for nothing; `?` for one character other than `/`;
/// every other character for itself.
pub open spec fn glob_at(p: Seq<char>, s: Seq<char>, i: int, j: int) -> bool
    recommends
        0 <= i <= p.len(),
        0 <= j <= s.len(),
    decreases (p.len() - i) + (s.len() - j), 0int,
    when 0 <= i <= p.len() && 0 <= j <= s.len()
{
    if i >= p.len() {
        j >= s.len()
    } else if p[i] == '*' && i + 1 < p.len() && p[i + 1] == '*' {
        (i + 2 < p.len() && p[i + 2] == '/' && glob_at(p, s, i + 3, j))
            || glob_at(p, s, i + 2, j)
            || (j < s.len() && glob_at(p, s, i, j + 1))
    } else if p[i] == '*' {
        glob_at(p, s, i + 1, j) || (j < s.len() && s[j] != '/' && glob_at(p, s, i, j + 1))
    } else if p[i] == '?' {
        j < s.len() && s[j] != '/' && glob_at(p, s, i + 1, j + 1)
    } else {
        j < s.len() && s[j] == p[i] && glob_at(p, s, i + 1, j + 1)
    }
}

/// Whether the whole path `s` matches the whole pattern `p`.
pub open spec fn glob_matches(p: Seq<char>, s: Seq<char>) -> bool {
    glob_at(p, s, 0, 0)
}

/// Whether `s` matches at least one of `pats`.
pub open spec fn any_glob_matches(pats: Seq<Seq<char>>, s: Seq<char>) -> bool {
    exists|k: int| 0 <= k < pats.len() && glob_matches(#[trigger] pats[k], s)
}

/// The characters of `s`, one per element.
pub fn chars_of(s: &str) -> (r: Vec<char>)
    ensures
        r@ == s@,
{
    let n = s.unicode_len();
    let mut r: Vec<char> = Vec::new();
    let mut k: usize = 0;
    while k < n
        invariant
            n == s@.len(),
            k <= n,
            r@ == s@.subrange(0, k as int),
        decreases n - k,
    {
        r.push(s.get_char(k));
        k = k + 1;
    }
    assert(r@ =~= s@);
    r
}

fn glob_from(p: &Vec<char>, s: &Vec<char>, i: usize, j: usize) -> (r: bool)
    requires
        i <= p@.len(),
        j <= s@.len(),
    ensures
        r == glob_at(p@, s@, i as int, j as int),
    decreases (p@.len() - i) + (s@.len() - j), 0int,
{
    if i >= p.len() {
        j >= s.len()
    } else if p[i] == '*' && i + 1 < p.len() && p[i + 1] == '*' {
        if i + 2 < p.len() && p[i + 2] == '/' && glob_from(p, s, i + 3, j) {
            true
        } else if glob_from(p, s, i + 2, j) {
            true
        } else {
            j < s.len() && glob_from(p, s, i, j + 1)
        }
    } else if p[i] == '*' {
        glob_from(p, s, i + 1, j) || (j < s.len() && s[j] != '/' && glob_from(p, s, i, j + 1))
    } else if p[i] == '?' {
        j < s.len() && s[j] != '/' && glob_from(p, s, i + 1, j + 1)
    } else {
        j < s.len() && s[j] == p[i] && glob_from(p, s, i + 1, j + 1)
    }
}

/// Whether `path` matches `pattern` as a whole.
pub fn glob_match(pattern: &str, path: &str) -> (r: bool)
    ensures
        r == glob_matches(pattern@, path@),
{
    let p = chars_of(pattern);
    let s = chars_of(path);
    glob_from(&p, &s, 0, 0)
}

/// Whether `path` matches at least one of `patterns`.
pub fn matches_any(patterns: &Vec<String>, path: &str) -> (r: bool)
    ensures
        r == any_glob_matches(strs(patterns@), path@),
{
    let ghost pv = strs(patterns@);
    let mut k: usize = 0;
    while k < patterns.len()
        invariant
            k <= patterns@.len(),
            pv == strs(patterns@),
            forall|m: int| 0 <= m < k ==> !glob_matches(#[trigger] pv[m], path@),
        decreases patterns@.len() - k,
    {
        if glob_match(patterns[k].as_str(), path) {
            assert(glob_matches(pv[k as int], path@));
            return true;
        }
        k = k + 1;
    }
    false
}

} // verus!
