use vstd::prelude::*;
use crate::glob::{any_glob_matches, matches_any, strs};

verus! {

/// How a filter's invocations are cut out of a resolution.
#[derive(Clone, Copy, Debug, PartialEq, Eq, Structural)]
pub enum RunMode {
    /// One invocation for the whole selection.
    Root,
    /// One invocation per directory.
    Dirs,
    /// One invocation per file.
    Files,
}

/// Which actions a filter takes part in.
#[derive(Clone, Copy, Debug, PartialEq, Eq, Structural)]
pub enum FilterType {
    Tidy,
    Lint,
    Both,
}

/// The top-level action of a run.
#[derive(Clone, Copy, Debug, PartialEq, Eq, Structural)]
pub enum Action {
    Tidy,
    Lint,
}

/// What came of one invocation of a filter's tool.
pub enum Invocation {
    /// The filter does not apply to the target; the tool was not run.
    NotApplicable,
    /// The tool ran and exited with `code`; `changed` tells whether it
    /// modified the target.
    Exited { code: i32, changed: bool },
    /// The tool could not be started.
    LaunchFailed { message: String },
}

/// Why one invocation counts as a failure.
pub enum ErrorKind {
    /// The linter reported a finding through one of its failure codes.
    LintFailed,
    /// The tool exited with a code that is neither accepted nor a lint failure.
    UnexpectedExit { code: i32 },
    /// The tool could not be started.
    LaunchFailed { message: String },
}

/// The mathematical value of an `Invocation`.
pub enum InvocationView {
    NotApplicable,
    Exited { code: i32, changed: bool },
    LaunchFailed { message: Seq<char> },
}

/// The mathematical value of an `ErrorKind`.
pub enum ErrorKindView {
    LintFailed,
    UnexpectedExit { code: i32 },
    LaunchFailed { message: Seq<char> },
}

impl View for Invocation {
    type V = InvocationView;

    open spec fn view(&self) -> InvocationView {
        match self {
            Invocation::NotApplicable => InvocationView::NotApplicable,
            Invocation::Exited { code, changed } => InvocationView::Exited { code: *code, changed: *changed },
            Invocation::LaunchFailed { message } => InvocationView::LaunchFailed { message: message@ },
        }
    }
}

impl View for ErrorKind {
    type V = ErrorKindView;

    open spec fn view(&self) -> ErrorKindView {
        match self {
            ErrorKind::LintFailed => ErrorKindView::LintFailed,
            ErrorKind::UnexpectedExit { code } => ErrorKindView::UnexpectedExit { code: *code },
            ErrorKind::LaunchFailed { message } => ErrorKindView::LaunchFailed { message: message@ },
        }
    }
}

/// One configured external tool.
pub struct Filter {
    pub name: String,
    pub typ: FilterType,
    pub run_mode: RunMode,
    pub includes: Vec<String>,
    pub excludes: Vec<String>,
    pub ok_exit_codes: Vec<i32>,
    pub lint_failure_exit_codes: Vec<i32>,
}

/// Whether a filter of type `t` takes part in action `a`.
pub open spec fn spec_handles(t: FilterType, a: Action) -> bool {
    t is Both || (t is Tidy && a is Tidy) || (t is Lint && a is Lint)
}

/// Whether the filter acts on the file `path`: an inclusion glob matches it
/// and no exclude glob does.
pub open spec fn spec_wants(f: Filter, path: Seq<char>) -> bool {
    any_glob_matches(strs(f.includes@), path) && !any_glob_matches(strs(f.excludes@), path)
}

/// What tidying reports for an invocation: `None` when the filter did not
/// apply, whether the target changed when the exit code is accepted, and
/// an error otherwise.
pub open spec fn spec_tidy(f: Filter, inv: InvocationView) -> Result<Option<bool>, ErrorKindView> {
    match inv {
        InvocationView::NotApplicable => Ok(None),
        InvocationView::Exited { code, changed } => if f.ok_exit_codes@.contains(code) {
            Ok(Some(changed))
        } else {
            Err(ErrorKindView::UnexpectedExit { code })
        },
        InvocationView::LaunchFailed { message } => Err(ErrorKindView::LaunchFailed { message }),
    }
}

/// What linting reports for an invocation: `None` when the filter did not
/// apply, `true` for an accepted exit code, `false` for a lint failure code,
/// and an error otherwise.
pub open spec fn spec_lint(f: Filter, inv: InvocationView) -> Result<Option<bool>, ErrorKindView> {
    match inv {
        InvocationView::NotApplicable => Ok(None),
        InvocationView::Exited { code, changed } => if f.ok_exit_codes@.contains(code) {
            Ok(Some(true))
        } else if f.lint_failure_exit_codes@.contains(code) {
            Ok(Some(false))
        } else {
            Err(ErrorKindView::UnexpectedExit { code })
        },
        InvocationView::LaunchFailed { message } => Err(ErrorKindView::LaunchFailed { message }),
    }
}

/// Whether `v` holds `c`.
pub fn contains_code(v: &Vec<i32>, c: i32) -> (r: bool)
    ensures
        r == v@.contains(c),
{
    let mut k: usize = 0;
    while k < v.len()
        invariant
            k <= v@.len(),
            forall|m: int| 0 <= m < k ==> v@[m] != c,
        decreases v@.len() - k,
    {
        if v[k] == c {
            return true;
        }
        k = k + 1;
    }
    false
}

impl Filter {
    /// Whether the filter runs in mode `m`.
    pub fn run_mode_is(&self, m: RunMode) -> (r: bool)
        ensures
            r == (self.run_mode == m),
    {
        self.run_mode == m
    }

    /// Whether the filter takes part in action `a`.
    pub fn handles(&self, a: Action) -> (r: bool)
        ensures
            r == spec_handles(self.typ, a),
    {
        match self.typ {
            FilterType::Both => true,
            FilterType::Tidy => a == Action::Tidy,
            FilterType::Lint => a == Action::Lint,
        }
    }

    /// The key under which the filter stands in the configuration.
    pub fn config_key(&self) -> (r: String)
        ensures
            r@ == "commands."@ + self.name@,
    {
        String::from_str("commands.").concat(self.name.as_str())
    }

    /// Whether the filter acts on the file `path`.
    pub fn wants(&self, path: &str) -> (r: bool)
        ensures
            r == spec_wants(*self, path@),
    {
        matches_any(&self.includes, path) && !matches_any(&self.excludes, path)
    }

    fn kind_of(inv: &Invocation) -> (r: ErrorKind)
        requires
            !(inv is NotApplicable),
            !(inv is Exited),
        ensures
            r@ == (match inv@ {
                InvocationView::LaunchFailed { message } => ErrorKindView::LaunchFailed { message },
                _ => ErrorKindView::LintFailed,
            }),
    {
        match inv {
            Invocation::LaunchFailed { message } => ErrorKind::LaunchFailed { message: message.clone() },
            _ => ErrorKind::LintFailed,
        }
    }

    /// Interprets an invocation of the tool as a tidy step.
    pub fn tidy(&self, inv: &Invocation) -> (r: Result<Option<bool>, ErrorKind>)
        ensures
            (match r {
                Ok(o) => spec_tidy(*self, inv@) == Ok::<Option<bool>, ErrorKindView>(o),
                Err(e) => spec_tidy(*self, inv@) == Err::<Option<bool>, ErrorKindView>(e@),
            }),
    {
        match inv {
            Invocation::NotApplicable => Ok(None),
            Invocation::Exited { code, changed } => if contains_code(&self.ok_exit_codes, *code) {
                Ok(Some(*changed))
            } else {
                Err(ErrorKind::UnexpectedExit { code: *code })
            },
            Invocation::LaunchFailed { .. } => Err(Self::kind_of(inv)),
        }
    }

    /// Interprets an invocation of the tool as a lint step.
    pub fn lint(&self, inv: &Invocation) -> (r: Result<Option<bool>, ErrorKind>)
        ensures
            (match r {
                Ok(o) => spec_lint(*self, inv@) == Ok::<Option<bool>, ErrorKindView>(o),
                Err(e) => spec_lint(*self, inv@) == Err::<Option<bool>, ErrorKindView>(e@),
            }),
    {
        match inv {
            Invocation::NotApplicable => Ok(None),
            Invocation::Exited { code, .. } => if contains_code(&self.ok_exit_codes, *code) {
                Ok(Some(true))
            } else if contains_code(&self.lint_failure_exit_codes, *code) {
                Ok(Some(false))
            } else {
                Err(ErrorKind::UnexpectedExit { code: *code })
            },
            Invocation::LaunchFailed { .. } => Err(Self::kind_of(inv)),
        }
    }
}

} // verus!
