use precious::action::ActionRun;
use precious::checks::{assert_file_exists, assert_file_is_executable};
use precious::filter::{Action, ErrorKind, Filter, FilterType, Invocation, RunMode};
use precious::glob::{glob_match, matches_any};
use precious::mode::Mode;
use precious::outcome::{applies, entry_error, filter_errors};
use precious::paths::{group_by_dir, parent_dir, resolve, PathGroup};
use precious::plan::{path_map, Entry};
use precious::run::{
    default_config_file, filters_for, make_exit, mode_and_paths, no_files_exit, parse_jobs,
    parse_usize, select_root, Exit, PreciousError,
};
use precious::stash::{start, step, ResolveAction, ResolveError, ResolveState, VcsEvent};

fn s(x: &str) -> String {
    x.to_string()
}

fn strings(xs: &[&str]) -> Vec<String> {
    xs.iter().map(|x| x.to_string()).collect()
}

fn filter(name: &str, typ: FilterType, run_mode: RunMode, ok: &[i32], fail: &[i32]) -> Filter {
    Filter {
        name: s(name),
        typ,
        run_mode,
        includes: strings(&["**/*"]),
        excludes: vec![],
        ok_exit_codes: ok.to_vec(),
        lint_failure_exit_codes: fail.to_vec(),
    }
}

fn group(dir: &str, files: &[&str]) -> PathGroup {
    PathGroup { dir: s(dir), files: strings(files) }
}

fn exited(code: i32) -> Invocation {
    Invocation::Exited { code, changed: false }
}

fn groups_as_pairs(gs: &[PathGroup]) -> Vec<(String, Vec<String>)> {
    gs.iter().map(|g| (g.dir.clone(), g.files.clone())).collect()
}

fn keys(es: &[Entry]) -> Vec<String> {
    es.iter().map(|e| e.key.clone()).collect()
}

/// Runs every selected filter over a resolution, taking the exit code of the
/// tool on each target from `code_of`.
fn run_action(
    action: Action,
    filters: &Vec<Filter>,
    resolution: Option<Vec<PathGroup>>,
    code_of: &dyn Fn(&str, &str) -> i32,
    invoked: &mut Vec<(String, String)>,
) -> Exit {
    let selected = match filters_for(filters, action) {
        Ok(ix) => ix,
        Err(e) => return Exit::from_error(e),
    };
    let mut run = match ActionRun::new(action, selected, resolution) {
        Ok(run) => run,
        Err(exit) => return exit,
    };
    while let Some((i, entries)) = run.current(filters) {
        let f = &filters[i];
        let invs: Vec<Invocation> = entries
            .iter()
            .map(|e| {
                invoked.push((f.name.clone(), e.key.clone()));
                exited(code_of(&f.name, &e.key))
            })
            .collect();
        run.record(filters, &entries, &invs);
    }
    run.finish()
}

const PROJECT_FILES: &[&str] = &["bar.rs", "can_ignore.rs", "main.rs", "module.rs"];

#[test]
fn test_basepaths_uses_cwd() {
    let r = resolve(&strings(PROJECT_FILES), &vec![]).unwrap();
    assert_eq!(
        groups_as_pairs(&r),
        vec![(s("."), strings(&["bar.rs", "can_ignore.rs", "main.rs", "module.rs"]))]
    );
}

#[test]
fn test_set_root_prefers_config_file() {
    let src = s("/tmp/project/src");
    let ancestors = strings(&["/tmp/project/src", "/tmp/project", "/tmp", "/"]);
    let root = select_root(&src, true, &ancestors, &vec![false, true, false, false]);
    assert_eq!(root.ok(), Some(s("/tmp/project/src")));
}

#[test]
fn test_tidy_succeeds() {
    let filters = vec![filter("true", FilterType::Tidy, RunMode::Files, &[0], &[])];
    let res = resolve(&strings(PROJECT_FILES), &vec![]);
    let mut invoked = vec![];
    let exit = run_action(Action::Tidy, &filters, res, &|_, _| 0, &mut invoked);
    assert_eq!(exit.status, 0);
}

#[test]
fn test_tidy_fails() {
    let filters = vec![filter("false", FilterType::Tidy, RunMode::Files, &[0], &[])];
    let res = resolve(&strings(PROJECT_FILES), &vec![]);
    let mut invoked = vec![];
    let exit = run_action(Action::Tidy, &filters, res, &|_, _| 1, &mut invoked);
    assert_eq!(exit.status, 1);
}

#[test]
fn test_lint_succeeds() {
    let filters = vec![filter("true", FilterType::Lint, RunMode::Files, &[0], &[1])];
    let res = resolve(&strings(PROJECT_FILES), &vec![]);
    let mut invoked = vec![];
    let exit = run_action(Action::Lint, &filters, res, &|_, _| 0, &mut invoked);
    assert_eq!(exit.status, 0);
}

#[test]
fn test_lint_fails() {
    let filters = vec![filter("false", FilterType::Lint, RunMode::Files, &[0], &[1])];
    let res = resolve(&strings(PROJECT_FILES), &vec![]);
    let mut invoked = vec![];
    let exit = run_action(Action::Lint, &filters, res, &|_, _| 1, &mut invoked);
    assert_eq!(exit.status, 1);
}

#[test]
fn lint_scenario_one_pass_one_failure() {
    let filters = vec![filter("linter", FilterType::Lint, RunMode::Files, &[0], &[1])];
    let res = resolve(&strings(&["a.txt", "b.txt"]), &vec![]);
    let mut invoked = vec![];
    let exit = run_action(
        Action::Lint,
        &filters,
        res,
        &|_, p| if p == "b.txt" { 1 } else { 0 },
        &mut invoked,
    );
    assert_eq!(exit.status, 1);
    assert_eq!(exit.errors.len(), 1);
    assert_eq!(exit.errors[0].path, "b.txt");
    assert_eq!(exit.errors[0].filter_name, "linter");
    assert!(matches!(exit.errors[0].kind, ErrorKind::LintFailed));
    assert!(exit.fatal.is_none());
}

#[test]
fn from_cli_with_no_files_is_a_success() {
    let (mode, paths) = mode_and_paths(false, false, false, strings(&["empty-dir"]));
    assert_eq!(mode, Mode::FromCli);
    assert_eq!(paths, strings(&["empty-dir"]));
    let filters = vec![filter("linter", FilterType::Lint, RunMode::Files, &[0], &[1])];
    let res = resolve(&vec![], &vec![]);
    assert!(res.is_none());
    let mut invoked = vec![];
    let exit = run_action(Action::Lint, &filters, res, &|_, _| 0, &mut invoked);
    assert_eq!(exit.status, 0);
    assert_eq!(exit.message, Some(s("No files found")));
    assert!(exit.errors.is_empty());
    assert!(invoked.is_empty());
}

#[test]
fn one_tidier_error_does_not_stop_the_next() {
    let filters = vec![
        filter("first", FilterType::Tidy, RunMode::Files, &[0], &[]),
        filter("second", FilterType::Tidy, RunMode::Files, &[0], &[]),
    ];
    let res = resolve(&strings(&["p.rs", "q.rs"]), &vec![]);
    let mut invoked = vec![];
    let exit = run_action(
        Action::Tidy,
        &filters,
        res,
        &|f, p| if f == "first" && p == "p.rs" { 2 } else { 0 },
        &mut invoked,
    );
    assert_eq!(exit.status, 1);
    assert_eq!(exit.errors.len(), 1);
    assert_eq!(exit.errors[0].path, "p.rs");
    assert_eq!(exit.errors[0].filter_name, "first");
    assert!(matches!(exit.errors[0].kind, ErrorKind::UnexpectedExit { code: 2 }));
    let second: Vec<&String> = invoked.iter().filter(|(f, _)| f == "second").map(|(_, p)| p).collect();
    assert_eq!(second, vec!["p.rs", "q.rs"]);
}

#[test]
fn no_lint_filters_is_fatal_before_any_path() {
    let filters = vec![filter("fmt", FilterType::Tidy, RunMode::Files, &[0], &[])];
    let mut invoked = vec![];
    let exit = run_action(
        Action::Lint,
        &filters,
        resolve(&strings(&["a.rs"]), &vec![]),
        &|_, _| 0,
        &mut invoked,
    );
    assert_eq!(exit.status, 1);
    assert!(invoked.is_empty());
    match exit.fatal {
        Some(e @ PreciousError::NoFilters { .. }) => {
            assert_eq!(e.message(), "No linting filters defined in your config")
        }
        _ => panic!("expected a missing-filters error"),
    }
    let empty: Vec<Filter> = vec![];
    assert!(filters_for(&empty, Action::Tidy).is_err());
}

#[test]
fn excluded_files_never_resolve() {
    let candidates = strings(&["src/a.rs", "target/b.rs", "src/gen/c.rs", "README.md"]);
    let excludes = strings(&["target/**", "**/gen/*"]);
    let r = resolve(&candidates, &excludes).unwrap();
    assert_eq!(
        groups_as_pairs(&r),
        vec![(s("src"), strings(&["src/a.rs"])), (s("."), strings(&["README.md"]))]
    );
    assert!(resolve(&strings(&["target/x"]), &excludes).is_none());
}

#[test]
fn dirs_and_files_entries_cover_the_same_files() {
    let groups = group_by_dir(&strings(&["a/x", "b/y", "a/z", "top"]));
    let dirs = path_map(RunMode::Dirs, &groups);
    let files = path_map(RunMode::Files, &groups);
    let mut from_dirs: Vec<String> = dirs.iter().flat_map(|e| e.group.files.clone()).collect();
    let mut from_files = keys(&files);
    from_dirs.sort();
    from_files.sort();
    assert_eq!(from_dirs, from_files);
    assert_eq!(keys(&dirs), strings(&["a", "b", "."]));
    assert_eq!(files[1].key, "a/z");
    assert_eq!(files[1].group.files, strings(&["a/x", "a/z"]));
}

#[test]
fn root_mode_has_one_entry_or_none() {
    let groups = group_by_dir(&strings(&["a/x", "b/y"]));
    let root = path_map(RunMode::Root, &groups);
    assert_eq!(root.len(), 1);
    assert_eq!(root[0].key, ".");
    assert_eq!(root[0].group.files, strings(&["a/x", "b/y"]));
    assert!(path_map(RunMode::Root, &vec![]).is_empty());
}

#[test]
fn errors_do_not_depend_on_completion_order() {
    let f = filter("linter", FilterType::Lint, RunMode::Files, &[0], &[1]);
    let groups = group_by_dir(&strings(&["a", "b", "c"]));
    let entries = path_map(RunMode::Files, &groups);
    let invs = vec![exited(1), exited(0), exited(7)];
    let forward = filter_errors(&f, Action::Lint, &entries, &invs);
    let rev_entries: Vec<Entry> = entries
        .iter()
        .rev()
        .map(|e| Entry { key: e.key.clone(), group: PathGroup { dir: e.group.dir.clone(), files: e.group.files.clone() } })
        .collect();
    let rev_invs = vec![exited(7), exited(0), exited(1)];
    let backward = filter_errors(&f, Action::Lint, &rev_entries, &rev_invs);
    let mut a: Vec<String> = forward.iter().map(|e| e.path.clone()).collect();
    let mut b: Vec<String> = backward.iter().map(|e| e.path.clone()).collect();
    a.sort();
    b.sort();
    assert_eq!(a, strings(&["a", "c"]));
    assert_eq!(a, b);
}

#[test]
fn grouping_edge_cases() {
    assert!(group_by_dir(&vec![]).is_empty());
    let g = group_by_dir(&strings(&["d/f", "d/f"]));
    assert_eq!(groups_as_pairs(&g), vec![(s("d"), strings(&["d/f"]))]);
    assert_eq!(parent_dir("a/b/c.rs"), "a/b");
    assert_eq!(parent_dir("c.rs"), ".");
    assert_eq!(parent_dir("/c.rs"), "");
    let _ = group("x", &["x/y"]);
}

#[test]
fn glob_semantics() {
    assert!(glob_match("*.rs", "main.rs"));
    assert!(!glob_match("*.rs", "src/main.rs"));
    assert!(glob_match("**/*.rs", "main.rs"));
    assert!(glob_match("**/*.rs", "src/deep/main.rs"));
    assert!(glob_match("src/?.rs", "src/a.rs"));
    assert!(!glob_match("src/?.rs", "src/ab.rs"));
    assert!(glob_match("target/**", "target/debug/x"));
    assert!(!glob_match("abc", "abd"));
    assert!(matches_any(&strings(&["*.md", "*.txt"]), "notes.txt"));
    assert!(!matches_any(&vec![], "notes.txt"));
}

#[test]
fn filter_exit_code_semantics() {
    let f = filter("t", FilterType::Both, RunMode::Files, &[0], &[1]);
    assert_eq!(f.lint(&exited(0)).ok(), Some(Some(true)));
    assert_eq!(f.lint(&exited(1)).ok(), Some(Some(false)));
    assert!(matches!(f.lint(&exited(3)), Err(ErrorKind::UnexpectedExit { code: 3 })));
    assert_eq!(f.lint(&Invocation::NotApplicable).ok(), Some(None));
    assert_eq!(f.tidy(&Invocation::Exited { code: 0, changed: true }).ok(), Some(Some(true)));
    assert!(matches!(f.tidy(&exited(1)), Err(ErrorKind::UnexpectedExit { code: 1 })));
    let launch = Invocation::LaunchFailed { message: s("no such tool") };
    match f.tidy(&launch) {
        Err(ErrorKind::LaunchFailed { message }) => assert_eq!(message, "no such tool"),
        _ => panic!("expected a launch failure"),
    }
    assert!(f.handles(Action::Tidy) && f.handles(Action::Lint));
    assert!(!filter("t", FilterType::Tidy, RunMode::Files, &[0], &[]).handles(Action::Lint));
    assert!(f.run_mode_is(RunMode::Files) && !f.run_mode_is(RunMode::Root));
    assert_eq!(f.config_key(), "commands.t");
    let mut g = filter("g", FilterType::Lint, RunMode::Files, &[0], &[1]);
    g.includes = strings(&["**/*.rs"]);
    g.excludes = strings(&["vendor/**"]);
    assert!(g.wants("src/a.rs"));
    assert!(!g.wants("vendor/a.rs"));
    assert!(!g.wants("README.md"));
    let e = entry_error(&f, Action::Tidy, &s("p"), &exited(0));
    assert!(e.is_none());
    let e = entry_error(&f, Action::Lint, &s("p"), &launch).unwrap();
    assert!(matches!(e.kind, ErrorKind::LaunchFailed { .. }));
}

#[test]
fn jobs_argument() {
    assert_eq!(parse_jobs(None).ok(), Some(0));
    assert_eq!(parse_jobs(Some("4")).ok(), Some(4));
    assert_eq!(parse_jobs(Some("+12")).ok(), Some(12));
    assert_eq!(parse_usize("18446744073709551615"), Some(18446744073709551615));
    assert_eq!(parse_usize("18446744073709551616"), None);
    assert_eq!(parse_usize(""), None);
    assert_eq!(parse_usize("+"), None);
    match parse_jobs(Some("four")) {
        Err(e @ PreciousError::InvalidIntegerArgument { .. }) => assert_eq!(
            e.message(),
            "Could not parse --jobs argument, \"four\", as an integer"
        ),
        _ => panic!("expected an invalid integer error"),
    }
}

#[test]
fn root_selection() {
    let cwd = s("/p/src");
    let ancestors = strings(&["/p/src", "/p", "/"]);
    assert_eq!(select_root(&cwd, false, &ancestors, &vec![false, true, true]).ok(), Some(s("/p")));
    match select_root(&cwd, false, &ancestors, &vec![false, false, false]) {
        Err(e @ PreciousError::CannotFindRoot { .. }) => assert_eq!(
            e.message(),
            "Could not find a VCS checkout root starting from /p/src"
        ),
        _ => panic!("expected a missing root error"),
    }
    assert_eq!(default_config_file(&s("/p")), "/p/precious.toml");
}

#[test]
fn modes_from_flags_and_text() {
    assert_eq!(mode_and_paths(true, true, false, vec![]).0, Mode::All);
    assert_eq!(mode_and_paths(false, true, true, vec![]).0, Mode::GitModified);
    assert_eq!(mode_and_paths(false, false, true, vec![]).0, Mode::GitStaged);
    assert_eq!(Mode::All.description(), "all files in the project");
    assert_eq!(
        Mode::GitStagedWithStash.description(),
        "files staged for a git commit, stashing unstaged content"
    );
    assert!(Mode::GitStagedWithStash.uses_vcs());
    assert!(!Mode::FromCli.uses_vcs());
}

#[test]
fn stash_is_restored_when_listing_fails() {
    let (st, act) = start(Mode::GitStagedWithStash, vec![]);
    assert!(matches!(act, ResolveAction::StashUnstaged));
    let (st, act) = step(st, VcsEvent::Succeeded);
    assert!(matches!(act, ResolveAction::ListStaged));
    let (st, act) = step(st, VcsEvent::Failed { message: s("diff broke") });
    assert!(matches!(act, ResolveAction::PopStash));
    let (st, act) = step(st, VcsEvent::Succeeded);
    assert!(matches!(st, ResolveState::Done));
    match act {
        ResolveAction::Finish { result: Err(ResolveError::ListFailed { message }) } => {
            assert_eq!(message, "diff broke")
        }
        _ => panic!("expected the listing failure after the pop"),
    }
}

#[test]
fn stash_round_trip_and_pop_failure() {
    let (st, _) = start(Mode::GitStagedWithStash, vec![]);
    let (st, _) = step(st, VcsEvent::Succeeded);
    let (st, act) = step(st, VcsEvent::Listed { files: strings(&["a.rs"]) });
    assert!(matches!(act, ResolveAction::PopStash));
    let (_, act) = step(st, VcsEvent::Succeeded);
    match act {
        ResolveAction::Finish { result: Ok(files) } => assert_eq!(files, strings(&["a.rs"])),
        _ => panic!("expected the staged files"),
    }
    let (st, _) = start(Mode::GitStagedWithStash, vec![]);
    let (st, _) = step(st, VcsEvent::Succeeded);
    let (st, _) = step(st, VcsEvent::Listed { files: strings(&["a.rs"]) });
    let (_, act) = step(st, VcsEvent::Failed { message: s("conflict") });
    assert!(matches!(act, ResolveAction::Finish { result: Err(ResolveError::PopFailed { .. }) }));
    let (_, act) = start(Mode::FromCli, strings(&["src"]));
    assert!(matches!(act, ResolveAction::Walk { .. }));
    let (st, act) = start(Mode::GitModified, vec![]);
    assert!(matches!(act, ResolveAction::ListModified));
    let (st, _) = step(st, VcsEvent::Failed { message: s("no git") });
    let (_, act) = step(st, VcsEvent::Succeeded);
    assert!(matches!(act, ResolveAction::Idle));
}

#[test]
fn stash_failure_is_reported() {
    let (st, _) = start(Mode::GitStagedWithStash, vec![]);
    let (_, act) = step(st, VcsEvent::Failed { message: s("locked") });
    assert!(matches!(act, ResolveAction::Finish { result: Err(ResolveError::StashFailed { .. }) }));
}

#[test]
fn file_checks() {
    assert!(assert_file_exists(&s("a"), true).is_ok());
    assert_eq!(assert_file_exists(&s("a"), false).err(), Some(s("file a does not exist")));
    assert!(assert_file_is_executable(&s("x"), 0o755).is_ok());
    assert!(assert_file_is_executable(&s("x"), 0o001).is_ok());
    assert_eq!(assert_file_is_executable(&s("x"), 0o644).err(), Some(s("file x is not executable")));
}

#[test]
fn exits() {
    let f = filter("t", FilterType::Lint, RunMode::Dirs, &[0], &[1]);
    let mut g = filter("g", FilterType::Lint, RunMode::Files, &[0], &[1]);
    g.includes = strings(&["*.rs"]);
    let entries = path_map(RunMode::Dirs, &group_by_dir(&strings(&["a.rs", "b.md"])));
    assert!(applies(&f, &entries[0]));
    let files = path_map(RunMode::Files, &group_by_dir(&strings(&["a.rs", "b.md"])));
    assert!(applies(&g, &files[0]));
    assert!(!applies(&g, &files[1]));
    let e = make_exit(vec![]);
    assert_eq!(e.status, 0);
    assert!(e.message.is_none());
    let e = no_files_exit();
    assert_eq!(e.status, 0);
}
