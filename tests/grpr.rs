use std::cell::RefCell;

use grpr::action::{
    create_git_processor, get_command_from_cli, outcome_of, ExecutionError, RepositoryAction,
};
use grpr::detect::{is_git_repo, marker_path, process_detected, process_git_dir};
use grpr::dispatch::{
    announce_line, detect_markers, dispatch, error_line, failure_count, repository_paths,
    select_repositories, visit, DirEntry, Outcome,
};

fn entry(path: &str, is_dir: bool) -> DirEntry {
    DirEntry { path: path.to_string(), is_dir }
}

fn ok_executor(_dir: &str, _tokens: &Vec<String>) -> Result<(), ExecutionError> {
    Ok(())
}

fn words(v: &[&str]) -> Vec<String> {
    v.iter().map(|s| s.to_string()).collect()
}

/// The walk of a root holding `a/.git/`, `b/` and `c/.git/`, with the markers found.
fn three_dir_tree() -> (Vec<DirEntry>, Vec<bool>) {
    let entries = vec![
        entry("root", true),
        entry("root/a", true),
        entry("root/a/.git", true),
        entry("root/b", true),
        entry("root/b/readme", false),
        entry("root/c", true),
        entry("root/c/.git", true),
    ];
    let markers = vec![false, true, false, false, false, true, false];
    (entries, markers)
}

#[test]
fn test_create_git_processor_runs_command() {
    let seen: RefCell<Vec<(String, Vec<String>)>> = RefCell::new(Vec::new());
    let executor = |dir: &str, tokens: &Vec<String>| -> Result<(), ExecutionError> {
        seen.borrow_mut().push((dir.to_string(), tokens.clone()));
        Ok(())
    };
    let processor = create_git_processor("--version".to_string()).unwrap();
    let result = processor.run(".", &executor);
    assert!(result.is_ok());
    assert_eq!(
        *seen.borrow(),
        vec![(".".to_string(), vec!["--version".to_string()])]
    );
}

#[test]
fn test_process_git_dir_without_git() {
    let processor = |_: &str| -> Result<(), String> { Ok(()) };
    assert!(process_git_dir("no/such/directory/anywhere", &processor).is_ok());
}

#[test]
fn process_git_dir_skips_a_directory_without_marker() {
    let processor = |_: &str| -> Result<(), String> { Err("called".to_string()) };
    assert_eq!(process_git_dir("no/such/directory/anywhere", &processor), Ok(()));
}

#[test]
fn is_git_repo_is_false_without_marker() {
    assert!(!is_git_repo("no/such/directory/anywhere"));
}

#[test]
fn test_get_command_from_cli_default() {
    let cmd = get_command_from_cli(&vec![]);
    assert_eq!(cmd, "status");
}

#[test]
fn test_get_command_from_cli_join() {
    let cmd = get_command_from_cli(&words(&["pull", "origin", "master"]));
    assert_eq!(cmd, "pull origin master");
}

#[test]
fn get_command_from_cli_single_token() {
    assert_eq!(get_command_from_cli(&words(&["fetch"])), "fetch");
}

#[test]
fn marker_path_adds_separator_when_needed() {
    assert_eq!(marker_path("repo"), "repo/.git");
    assert_eq!(marker_path("repo/"), "repo/.git");
    assert_eq!(marker_path(""), ".git");
    assert_eq!(marker_path("/"), "/.git");
}

#[test]
fn create_git_processor_splits_at_whitespace() {
    let action = create_git_processor("  pull\torigin   main \n".to_string()).unwrap();
    assert_eq!(action.command, words(&["pull", "origin", "main"]));
}

#[test]
fn create_git_processor_refuses_empty_command() {
    assert_eq!(
        create_git_processor("".to_string()).unwrap_err(),
        "Empty git command"
    );
    assert_eq!(
        create_git_processor(" \t ".to_string()).unwrap_err(),
        "Empty git command"
    );
}

#[test]
fn outcome_of_success() {
    assert_eq!(outcome_of("repo", Ok(())), Ok(()));
}

#[test]
fn outcome_of_non_zero_exit_names_repository() {
    assert_eq!(
        outcome_of("work/repo", Err(ExecutionError::NonZeroExit)),
        Err("Git command failed in work/repo".to_string())
    );
}

#[test]
fn outcome_of_spawn_failure_names_repository_and_cause() {
    let e = ExecutionError::SpawnFailed {
        reason: "not found".to_string(),
    };
    assert_eq!(
        outcome_of("work/repo", Err(e)),
        Err("Failed to run git command in work/repo: not found".to_string())
    );
}

#[test]
fn run_reports_failure_with_path() {
    let action = RepositoryAction {
        command: words(&["status"]),
    };
    let failing = |_: &str, _: &Vec<String>| -> Result<(), ExecutionError> {
        Err(ExecutionError::NonZeroExit)
    };
    let r = action.run("root/c", &failing);
    assert!(r.unwrap_err().contains("root/c"));
    assert_eq!(action.run("root/a", &ok_executor), Ok(()));
}

#[test]
fn process_detected_calls_processor_only_for_repositories() {
    let processor = |p: &str| -> Result<(), String> { Err(format!("ran in {}", p)) };
    assert_eq!(process_detected(false, "x", &processor), Ok(()));
    assert_eq!(
        process_detected(true, "x", &processor),
        Err("ran in x".to_string())
    );
}

#[test]
fn select_repositories_keeps_marked_directories_in_order() {
    let (entries, markers) = three_dir_tree();
    assert_eq!(
        select_repositories(&entries, &markers),
        words(&["root/a", "root/c"])
    );
}

#[test]
fn select_repositories_ignores_marked_files() {
    let entries = vec![entry("x", false), entry("y", true)];
    let markers = vec![true, false];
    assert!(select_repositories(&entries, &markers).is_empty());
}

#[test]
fn select_repositories_of_empty_walk() {
    assert!(select_repositories(&vec![], &vec![]).is_empty());
}

#[test]
fn root_repository_is_dispatched() {
    let entries = vec![entry("root", true)];
    let repos = select_repositories(&entries, &vec![true]);
    assert_eq!(repos, words(&["root"]));
    let outs = dispatch(&repos, &|_: &str| -> Result<(), String> { Ok(()) });
    assert_eq!(outs.len(), 1);
    assert_eq!(outs[0].path, "root");
    assert_eq!(outs[0].result, Ok(()));
}

#[test]
fn root_repository_heads_nested_ones() {
    let entries = vec![entry("root", true), entry("root/.git", true), entry("root/x", true)];
    let repos = select_repositories(&entries, &vec![true, false, true]);
    assert_eq!(repos, words(&["root", "root/x"]));
}

#[test]
fn dispatch_all_succeed_over_two_repositories() {
    let (entries, markers) = three_dir_tree();
    let repos = select_repositories(&entries, &markers);
    let action = create_git_processor("status".to_string()).unwrap();
    let visited: RefCell<Vec<String>> = RefCell::new(Vec::new());
    let run = |p: &str| -> Result<(), String> {
        visited.borrow_mut().push(p.to_string());
        action.run(p, &ok_executor)
    };
    let outs = dispatch(&repos, &run);
    assert_eq!(outs.len(), 2);
    assert_eq!(outs[0].path, "root/a");
    assert_eq!(outs[1].path, "root/c");
    assert!(outs.iter().all(|o| o.result.is_ok()));
    assert_eq!(*visited.borrow(), words(&["root/a", "root/c"]));
    assert_eq!(failure_count(&outs), 0);
}

#[test]
fn dispatch_isolates_one_failing_repository() {
    let (entries, markers) = three_dir_tree();
    let repos = select_repositories(&entries, &markers);
    let action = create_git_processor("status".to_string()).unwrap();
    let executor = |dir: &str, _: &Vec<String>| -> Result<(), ExecutionError> {
        if dir.ends_with("/c") {
            Err(ExecutionError::NonZeroExit)
        } else {
            Ok(())
        }
    };
    let run = |p: &str| -> Result<(), String> { action.run(p, &executor) };
    let outs = dispatch(&repos, &run);
    assert_eq!(outs.len(), 2);
    assert_eq!(outs[0].result, Ok(()));
    let msg = outs[1].result.clone().unwrap_err();
    assert!(msg.contains("c"));
    assert!(msg.contains("root/c"));
    assert_eq!(failure_count(&outs), 1);
}

#[test]
fn dispatch_twice_gives_same_pattern() {
    let (entries, markers) = three_dir_tree();
    let run = |p: &str| -> Result<(), String> {
        if p == "root/a" {
            Err("failed".to_string())
        } else {
            Ok(())
        }
    };
    let first = dispatch(&select_repositories(&entries, &markers), &run);
    let second = dispatch(&select_repositories(&entries, &markers), &run);
    assert_eq!(first.len(), second.len());
    for (x, y) in first.iter().zip(second.iter()) {
        assert_eq!(x.path, y.path);
        assert_eq!(x.result.is_ok(), y.result.is_ok());
    }
}

#[test]
fn dispatch_with_many_failures_runs_every_repository() {
    let repos = words(&["r1", "r2", "r3", "r4"]);
    let run = |p: &str| -> Result<(), String> {
        if p == "r2" {
            Ok(())
        } else {
            Err(p.to_string())
        }
    };
    let outs = dispatch(&repos, &run);
    assert_eq!(outs.len(), 4);
    assert_eq!(failure_count(&outs), 3);
    assert_eq!(outs[2].result, Err("r3".to_string()));
}

#[test]
fn visit_keys_result_by_path() {
    let o = visit("root/a", &|p: &str| -> Result<(), String> { Err(p.to_string()) });
    assert_eq!(o.path, "root/a");
    assert_eq!(o.result, Err("root/a".to_string()));
}

#[test]
fn failure_count_of_no_outcomes_is_zero() {
    let outs: Vec<Outcome> = Vec::new();
    assert_eq!(failure_count(&outs), 0);
}

#[test]
fn detect_markers_never_marks_files() {
    let entries = vec![entry("no/such/file", false), entry("no/such/dir", true)];
    assert_eq!(detect_markers(&entries), vec![false, false]);
}

#[test]
fn repository_paths_without_markers_is_empty() {
    let entries = vec![entry("no/such/a", true), entry("no/such/b", false)];
    assert!(repository_paths(&entries).is_empty());
}

#[test]
fn report_lines() {
    assert_eq!(announce_line("root/a"), "Processing Git repository: root/a");
    assert_eq!(
        error_line("root/c", "Git command failed in root/c"),
        "Error processing root/c: Git command failed in root/c"
    );
}
