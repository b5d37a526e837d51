#![allow(dead_code)]
use turm::test_support::{
    cancellation_action as cancel_confirmation_action, chunk_string as chunked_string,
    validate_time_limit as validated_time_limit, watched_path as watched_output_path, AppDriver,
    TestJobSortField as JobSortField, TestSortDirection as SortDirection,
    TestWorkdirEntry as WorkdirEntry, TestWorkdirEntryKind as WorkdirEntryKind,
};
use turm::ui::{Key, KeyCode, KeyModifiers, TextInput};
use turm::{AppExit, AppMessage, ConfirmCancelChoice, Dialog, Focus, Job, OutputPanelMode, ScrollAnchor};

fn test_job(index: usize) -> Job {
    turm::test_support::test_job(index)
}

fn test_app(job_count: usize, selected: Option<usize>) -> AppDriver {
    AppDriver::new(job_count, selected)
}

fn app_with_jobs(jobs: Vec<Job>, selected: Option<usize>) -> AppDriver {
    AppDriver::with_jobs(jobs, selected)
}

fn visible_job_ids(app: &AppDriver) -> Vec<String> {
    app.visible_job_ids()
}

fn ids(values: &[&str]) -> Vec<String> {
    values.iter().map(|value| (*value).to_string()).collect()
}

fn filter_test_jobs() -> Vec<Job> {
    let mut alpha = test_job(0);
    alpha.job_id = "101512".to_string();
    alpha.array_id = "101512".to_string();
    alpha.name = "vasp-alpha".to_string();
    alpha.user = "chlo".to_string();
    alpha.partition = "gpu".to_string();
    alpha.state = "RUNNING".to_string();
    alpha.state_compact = "R".to_string();
    alpha.time = "7:00".to_string();

    let mut beta = test_job(1);
    beta.job_id = "202000".to_string();
    beta.array_id = "202000".to_string();
    beta.name = "relax-beta".to_string();
    beta.user = "alex".to_string();
    beta.partition = "debug".to_string();
    beta.state = "PENDING".to_string();
    beta.state_compact = "PD".to_string();
    beta.time = "00:10:00".to_string();

    let mut gamma = test_job(2);
    gamma.job_id = "303333".to_string();
    gamma.array_id = "303333".to_string();
    gamma.name = "analysis-gamma".to_string();
    gamma.user = "chlo".to_string();
    gamma.partition = "cpu".to_string();
    gamma.state = "COMPLETED".to_string();
    gamma.state_compact = "CG".to_string();
    gamma.time = "01:23:00".to_string();

    vec![alpha, beta, gamma]
}

fn key(char_key: char) -> Key {
    Key::new(KeyCode::Char(char_key), KeyModifiers::none())
}

fn special_key(code: KeyCode) -> Key {
    Key::new(code, KeyModifiers::none())
}

fn key_with_modifiers(char_key: char, modifiers: KeyModifiers) -> Key {
    Key::new(KeyCode::Char(char_key), modifiers)
}

fn open_filter(app: &mut AppDriver) {
    app.handle(AppMessage::Key(key('f')));
}

fn type_in_filter(app: &mut AppDriver, value: &str) {
    for ch in value.chars() {
        app.handle(AppMessage::Key(key(ch)));
    }
}

fn filtered_jobs_app() -> AppDriver {
    let mut app = app_with_jobs(filter_test_jobs(), Some(0));
    app.apply_job_filter("id:101512");
    app
}

fn app_with_output_lines(lines: &[&str]) -> AppDriver {
    let mut app = test_app(1, Some(0));
    app.set_output_mode(OutputPanelMode::Stdout);
    app.set_job_output(lines.join("\n"));
    app
}

fn copyable_jobs_app() -> AppDriver {
    let mut app = filtered_jobs_app();
    app.app.jobs.jobs[0].stdout = Some("/scratch/chlo/vasp-alpha/stdout.log".to_string());
    app.app.jobs.jobs[0].stderr = Some("/scratch/chlo/vasp-alpha/stderr.log".to_string());
    app
}

fn copyable_jobs_app_with_output_path(path: &str) -> AppDriver {
    let mut app = filtered_jobs_app();
    app.app.jobs.jobs[0].stdout = Some(path.to_string());
    app.app.jobs.jobs[0].stderr = Some(path.to_string());
    app
}

#[test]
fn default_output_mode_is_workdir() {
    let app = test_app(1, Some(0));

    assert_eq!(app.output_mode(), OutputPanelMode::Workdir);
}

#[test]
fn o_does_not_cycle_while_filter_dialog_is_open() {
    let mut app = test_app(1, Some(0));
    open_filter(&mut app);

    app.handle(AppMessage::Key(key('o')));

    assert_eq!(app.output_mode(), OutputPanelMode::Workdir);
    match app.dialog() {
        Some(Dialog::FilterJobs { input }) => assert_eq!(input.value(), "o"),
        _ => panic!("expected filter dialog"),
    }
}

#[test]
fn app_rendering_test_chunked_string() {
    let input = "abcdefghij";
    let expected = vec!["abcd", "ef", "gh", "ij"];
    assert_eq!(chunked_string(input, 4, 2), expected);

    let input = "123456789";
    let expected = vec!["1234", "56", "78", "9"];
    assert_eq!(chunked_string(input, 4, 2), expected);

    let input = "abc";
    let expected = vec!["abc"];
    assert_eq!(chunked_string(input, 4, 2), expected);

    let input = "abcde";
    let expected = vec!["abcd", "e"];
    assert_eq!(chunked_string(input, 4, 2), expected);

    let input = "";
    let expected: Vec<&str> = vec![""];
    assert_eq!(chunked_string(input, 4, 2), expected);

    let input = "123456789";
    let expected = vec!["1234", "56789"];
    assert_eq!(chunked_string(input, 4, 0), expected);

    let input = "123456789";
    let expected = vec!["12", "34", "56", "78", "9"];
    assert_eq!(chunked_string(input, 0, 2), expected);

    let input = "123456789";
    let expected = vec!["123456789"];
    assert_eq!(chunked_string(input, 0, 0), expected);
}

