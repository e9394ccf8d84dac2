use vstd::prelude::*;
use crate::filter::{spec_handles, Action, Filter};
use crate::glob::chars_of;
use crate::mode::Mode;
use crate::outcome::ActionError;

verus! {

/// A failure that stops a whole run before any filter is executed.
pub enum PreciousError {
    /// A numeric option was given a value that is not an integer.
    InvalidIntegerArgument { arg: String, val: String },
    /// No directory from the working directory upwards is a checkout root.
    CannotFindRoot { cwd: String },
    /// The configuration defines no filter for the requested action.
    NoFilters { what: String },
}

/// The name of an action as it reads in messages.
pub open spec fn action_words(a: Action) -> Seq<char> {
    if a is Tidy {
        "tidying"@
    } else {
        "linting"@
    }
}

/// The name of action `a` as it reads in messages.
pub fn action_name(a: Action) -> (r: String)
    ensures
        r@ == action_words(a),
{
    match a {
        Action::Tidy => String::from_str("tidying"),
        Action::Lint => String::from_str("linting"),
    }
}

impl PreciousError {
    /// The text of the error.
    pub fn message(&self) -> (r: String)
        ensures
            (match self {
                PreciousError::InvalidIntegerArgument { arg, val } => r@ == "Could not parse "@ + arg@
                    + " argument, \""@ + val@ + "\", as an integer"@,
                PreciousError::CannotFindRoot { cwd } => r@ == "Could not find a VCS checkout root starting from "@
                    + cwd@,
                PreciousError::NoFilters { what } => r@ == "No "@ + what@ + " filters defined in your config"@,
            }),
    {
        match self {
            PreciousError::InvalidIntegerArgument { arg, val } => String::from_str("Could not parse ").concat(
                arg.as_str(),
            ).concat(" argument, \"").concat(val.as_str()).concat("\", as an integer"),
            PreciousError::CannotFindRoot { cwd } => String::from_str(
                "Could not find a VCS checkout root starting from ",
            ).concat(cwd.as_str()),
            PreciousError::NoFilters { what } => String::from_str("No ").concat(what.as_str()).concat(
                " filters defined in your config",
            ),
        }
    }
}

/// The end of one invocation of the program.
pub struct Exit {
    /// 0 for success or nothing to do, 1 for any failure.
    pub status: i8,
    /// An informational line.
    pub message: Option<String>,
    /// The failures of filters on paths, to be reported together.
    pub errors: Vec<ActionError>,
    /// The failure that stopped the run, if one did.
    pub fatal: Option<PreciousError>,
}

impl Exit {
    /// The exit of a run that a configuration or environment error stopped.
    pub fn from_error(e: PreciousError) -> (r: Exit)
        ensures
            r.status == 1,
            r.message is None,
            r.errors@.len() == 0,
            r.fatal == Some(e),
    {
        Exit { status: 1, message: None, errors: Vec::new(), fatal: Some(e) }
    }
}

/// The exit of a run that found no file to work on.
pub fn no_files_exit() -> (r: Exit)
    ensures
        r.status == 0,
        r.message matches Some(m) && m@ == "No files found"@,
        r.errors@.len() == 0,
        r.fatal is None,
{
    Exit { status: 0, message: Some(String::from_str("No files found")), errors: Vec::new(), fatal: None }
}

/// The exit of a run whose filters all ran: success exactly when no filter
/// failed on any path, with every failure kept for the report.
pub fn make_exit(errors: Vec<ActionError>) -> (r: Exit)
    ensures
        r.status == (if errors@.len() == 0 { 0i8 } else { 1i8 }),
        r.message is None,
        r.errors == errors,
        r.fatal is None,
{
    let status: i8 = if errors.len() == 0 { 0 } else { 1 };
    Exit { status, message: None, errors, fatal: None }
}

/// Whether `ix` lists, in increasing order, exactly the indexes of the
/// filters that take part in action `a`.
pub open spec fn selects(filters: Seq<Filter>, a: Action, ix: Seq<usize>) -> bool {
    &&& forall|k: int| 0 <= k < ix.len() ==> (#[trigger] ix[k]) < filters.len() && spec_handles(filters[ix[k] as int].typ, a)
    &&& forall|k: int, m: int| 0 <= k < m < ix.len() ==> ix[k] < ix[m]
    &&& forall|i: int|
        0 <= i < filters.len() && spec_handles(#[trigger] filters[i].typ, a) ==> ix.contains(i as usize)
}

/// The filters, by index and in configuration order, that run for action
/// `a`; an error when there is none, before any path is looked at.
pub fn filters_for(filters: &Vec<Filter>, a: Action) -> (r: Result<Vec<usize>, PreciousError>)
    ensures
        (match r {
            Ok(ix) => ix@.len() > 0 && selects(filters@, a, ix@),
            Err(e) => (forall|i: int| 0 <= i < filters@.len() ==> !spec_handles(#[trigger] filters@[i].typ, a))
                && (e matches PreciousError::NoFilters { what } && what@ == action_words(a)),
        }),
{
    let mut ix: Vec<usize> = Vec::new();
    let mut i: usize = 0;
    while i < filters.len()
        invariant
            i <= filters@.len(),
            forall|k: int| 0 <= k < ix@.len() ==> (#[trigger] ix@[k]) < i && spec_handles(filters@[ix@[k] as int].typ, a),
            forall|k: int, m: int| 0 <= k < m < ix@.len() ==> ix@[k] < ix@[m],
            forall|j: int| 0 <= j < i && spec_handles(#[trigger] filters@[j].typ, a) ==> ix@.contains(j as usize),
        decreases filters@.len() - i,
    {
        if filters[i].handles(a) {
            let ghost before = ix@;
            ix.push(i);
            proof {
                assert forall|j: int| 0 <= j < i + 1 && spec_handles(#[trigger] filters@[j].typ, a) implies ix@.contains(j as usize) by {
                    if j < i {
                        let w = choose|w: int| 0 <= w < before.len() && before[w] == j as usize;
                        assert(ix@[w] == j as usize);
                    } else {
                        assert(ix@[before.len() as int] == j as usize);
                    }
                }
            }
        }
        i = i + 1;
    }
    if ix.len() == 0 {
        proof {
            assert forall|j: int| 0 <= j < filters@.len() implies !spec_handles(#[trigger] filters@[j].typ, a) by {
                if spec_handles(filters@[j].typ, a) {
                    assert(ix@.contains(j as usize));
                }
            }
        }
        Err(PreciousError::NoFilters { what: action_name(a) })
    } else {
        Ok(ix)
    }
}

/// The mode and explicit paths that the flags of a subcommand ask for:
/// `all`, `git` and `staged` in that order of precedence, else the paths.
pub fn mode_and_paths(all: bool, git: bool, staged: bool, paths: Vec<String>) -> (r: (Mode, Vec<String>))
    requires
        all || git || staged || paths@.len() > 0,
    ensures
        all ==> r.0 == Mode::All && r.1@.len() == 0,
        !all && git ==> r.0 == Mode::GitModified && r.1@.len() == 0,
        !all && !git && staged ==> r.0 == Mode::GitStaged && r.1@.len() == 0,
        !all && !git && !staged ==> r.0 == Mode::FromCli && r.1 == paths,
{
    if all {
        (Mode::All, Vec::new())
    } else if git {
        (Mode::GitModified, Vec::new())
    } else if staged {
        (Mode::GitStaged, Vec::new())
    } else {
        (Mode::FromCli, paths)
    }
}

/// The configuration file that stands at the root `root`.
pub fn default_config_file(root: &String) -> (r: String)
    ensures
        r@ == root@ + "/precious.toml"@,
{
    root.clone().concat("/precious.toml")
}

/// The project root: the working directory when it holds a configuration
/// file, else the first of its ancestors (nearest first, the directory
/// itself included) that is a checkout root.
pub fn select_root(cwd: &String, cwd_has_config: bool, ancestors: &Vec<String>, is_checkout: &Vec<bool>) -> (r:
    Result<String, PreciousError>)
    requires
        ancestors@.len() == is_checkout@.len(),
    ensures
        cwd_has_config ==> (r matches Ok(root) && root@ == cwd@),
        !cwd_has_config ==> (match r {
            Ok(root) => exists|i: int|
                0 <= i < ancestors@.len() && #[trigger] is_checkout@[i] && root@ == ancestors@[i]@
                    && forall|j: int| 0 <= j < i ==> !is_checkout@[j],
            Err(e) => (forall|i: int| 0 <= i < is_checkout@.len() ==> !#[trigger] is_checkout@[i])
                && (e matches PreciousError::CannotFindRoot { cwd: c } && c@ == cwd@),
        }),
{
    if cwd_has_config {
        return Ok(cwd.clone());
    }
    let mut i: usize = 0;
    while i < ancestors.len()
        invariant
            i <= ancestors@.len(),
            !cwd_has_config,
            ancestors@.len() == is_checkout@.len(),
            forall|j: int| 0 <= j < i ==> !is_checkout@[j],
        decreases ancestors@.len() - i,
    {
        if is_checkout[i] {
            return Ok(ancestors[i].clone());
        }
        i = i + 1;
    }
    Err(PreciousError::CannotFindRoot { cwd: cwd.clone() })
}

/// Whether `c` is an ASCII decimal digit.
pub open spec fn is_digit(c: char) -> bool {
    '0' <= c <= '9'
}

/// The number that a run of decimal digits writes.
pub open spec fn digits_value(s: Seq<char>) -> nat
    decreases s.len(),
{
    if s.len() == 0 {
        0
    } else {
        digits_value(s.drop_last()) * 10 + ((s.last() as u32 - '0' as u32) as nat)
    }
}

/// The digits of an unsigned integer's text: all but a leading `+`.
pub open spec fn unsigned_digits(s: Seq<char>) -> Seq<char> {
    if s.len() > 0 && s[0] == '+' {
        s.drop_first()
    } else {
        s
    }
}

/// Whether `s` is the text of an integer that fits in a `usize`: an optional
/// `+`, then at least one decimal digit and nothing else.
pub open spec fn is_usize_text(s: Seq<char>) -> bool {
    let d = unsigned_digits(s);
    &&& d.len() > 0
    &&& forall|i: int| 0 <= i < d.len() ==> is_digit(#[trigger] d[i])
    &&& digits_value(d) <= usize::MAX
}

proof fn lemma_digits_value_grows(s: Seq<char>, k: int)
    requires
        0 <= k <= s.len(),
        forall|i: int| 0 <= i < s.len() ==> is_digit(#[trigger] s[i]),
    ensures
        digits_value(s.subrange(0, k)) <= digits_value(s),
    decreases s.len(),
{
    if k == s.len() {
        assert(s.subrange(0, k) =~= s);
    } else {
        let init = s.drop_last();
        assert(forall|i: int| 0 <= i < init.len() ==> init[i] == s[i]);
        lemma_digits_value_grows(init, k);
        assert(init.subrange(0, k) =~= s.subrange(0, k));
    }
}

/// The unsigned integer that `s` writes in decimal, or `None` where `s` is
/// not such a text or the number does not fit in a `usize`.
pub fn parse_usize(s: &str) -> (r: Option<usize>)
    ensures
        r is Some <==> is_usize_text(s@),
        r matches Some(n) ==> n == digits_value(unsigned_digits(s@)),
{
    let cs = chars_of(s);
    let start: usize = if cs.len() > 0 && cs[0] == '+' { 1 } else { 0 };
    let ghost d = unsigned_digits(s@);
    assert(d =~= cs@.subrange(start as int, cs@.len() as int));
    if start >= cs.len() {
        return None;
    }
    let mut value: usize = 0;
    let mut k: usize = start;
    while k < cs.len()
        invariant
            start <= k <= cs@.len(),
            cs@ == s@,
            d == cs@.subrange(start as int, cs@.len() as int),
            d == unsigned_digits(s@),
            forall|i: int| 0 <= i < k - start ==> is_digit(#[trigger] d[i]),
            value == digits_value(d.subrange(0, k - start)),
        decreases cs@.len() - k,
    {
        let c = cs[k];
        assert(d[k - start] == c);
        if !('0' <= c && c <= '9') {
            assert(!is_digit(d[k - start]));
            return None;
        }
        let next: u128 = value as u128 * 10 + (c as u32 - '0' as u32) as u128;
        proof {
            let t = d.subrange(0, k + 1 - start);
            assert(t.drop_last() =~= d.subrange(0, k - start));
            assert(t.last() == c);
            assert(digits_value(t) == next);
        }
        if next > usize::MAX as u128 {
            proof {
                if forall|i: int| 0 <= i < d.len() ==> is_digit(#[trigger] d[i]) {
                    lemma_digits_value_grows(d, k + 1 - start);
                }
            }
            return None;
        }
        value = next as usize;
        k = k + 1;
    }
    assert(d.subrange(0, cs@.len() - start) =~= d);
    Some(value)
}

/// The size of the worker pool that the `--jobs` option asks for: 0, which
/// stands for one worker per processor, when it is absent.
pub fn parse_jobs(value: Option<&str>) -> (r: Result<usize, PreciousError>)
    ensures
        value is None ==> r == Ok::<usize, PreciousError>(0),
        value matches Some(j) ==> (match r {
            Ok(n) => is_usize_text(j@) && n == digits_value(unsigned_digits(j@)),
            Err(e) => !is_usize_text(j@) && (e matches PreciousError::InvalidIntegerArgument { arg, val }
                && arg@ == "--jobs"@ && val@ == j@),
        }),
{
    match value {
        None => Ok(0),
        Some(j) => match parse_usize(j) {
            Some(n) => Ok(n),
            None => Err(
                PreciousError::InvalidIntegerArgument {
                    arg: String::from_str("--jobs"),
                    val: j.to_owned(),
                },
            ),
        },
    }
}

} // verus!
