#![allow(dead_code)]
use turm::test_support::{
    cancellation_action as cancel_confirmation_action, chunk_string as chunked_string,
    validate_time_limit as validated_time_limit, watched_path as watched_output_path, AppDriver,
    TestJobSortField as JobSortField, TestSortDirection as SortDirection,
    TestWorkdirEntry as WorkdirEntry, TestWorkdirEntryKind as WorkdirEntryKind,
};
use turm::ui::{CancelConfirmationAction, Key, KeyCode, KeyModifiers, TextInput};
use turm::{AppExit, AppMessage, ConfirmCancelChoice, Dialog, Focus, Job, OutputPanelMode, ScrollAnchor};

fn test_job(index: usize) -> Job {
    turm::test_support::test_job(index)
}

fn test_app(job_count: usize, selected: Option<usize>) -> AppDriver {
    AppDriver::new(job_count, selected)
}

fn app_with_jobs(jobs: Vec<Job>, selected: Option<usize>) -> AppDriver {
    AppDriver::with_jobs(jobs, selected)
}

fn visible_job_ids(app: &AppDriver) -> Vec<String> {
    app.visible_job_ids()
}

fn ids(values: &[&str]) -> Vec<String> {
    values.iter().map(|value| (*value).to_string()).collect()
}

fn filter_test_jobs() -> Vec<Job> {
    let mut alpha = test_job(0);
    alpha.job_id = "101512".to_string();
    alpha.array_id = "101512".to_string();
    alpha.name = "vasp-alpha".to_string();
    alpha.user = "chlo".to_string();
    alpha.partition = "gpu".to_string();
    alpha.state = "RUNNING".to_string();
    alpha.state_compact = "R".to_string();
    alpha.time = "7:00".to_string();

    let mut beta = test_job(1);
    beta.job_id = "202000".to_string();
    beta.array_id = "202000".to_string();
    beta.name = "relax-beta".to_string();
    beta.user = "alex".to_string();
    beta.partition = "debug".to_string();
    beta.state = "PENDING".to_string();
    beta.state_compact = "PD".to_string();
    beta.time = "00:10:00".to_string();

    let mut gamma = test_job(2);
    gamma.job_id = "303333".to_string();
    gamma.array_id = "303333".to_string();
    gamma.name = "analysis-gamma".to_string();
    gamma.user = "chlo".to_string();
    gamma.partition = "cpu".to_string();
    gamma.state = "COMPLETED".to_string();
    gamma.state_compact = "CG".to_string();
    gamma.time = "01:23:00".to_string();

    vec![alpha, beta, gamma]
}

fn key(char_key: char) -> Key {
    Key::new(KeyCode::Char(char_key), KeyModifiers::none())
}

fn special_key(code: KeyCode) -> Key {
    Key::new(code, KeyModifiers::none())
}

fn key_with_modifiers(char_key: char, modifiers: KeyModifiers) -> Key {
    Key::new(KeyCode::Char(char_key), modifiers)
}

fn open_filter(app: &mut AppDriver) {
    app.handle(AppMessage::Key(key('f')));
}

fn type_in_filter(app: &mut AppDriver, value: &str) {
    for ch in value.chars() {
        app.handle(AppMessage::Key(key(ch)));
    }
}

fn filtered_jobs_app() -> AppDriver {
    let mut app = app_with_jobs(filter_test_jobs(), Some(0));
    app.apply_job_filter("id:101512");
    app
}

fn app_with_output_lines(lines: &[&str]) -> AppDriver {
    let mut app = test_app(1, Some(0));
    app.set_output_mode(OutputPanelMode::Stdout);
    app.set_job_output(lines.join("\n"));
    app
}

fn copyable_jobs_app() -> AppDriver {
    let mut app = filtered_jobs_app();
    app.app.jobs.jobs[0].stdout = Some("/scratch/chlo/vasp-alpha/stdout.log".to_string());
    app.app.jobs.jobs[0].stderr = Some("/scratch/chlo/vasp-alpha/stderr.log".to_string());
    app
}

fn copyable_jobs_app_with_output_path(path: &str) -> AppDriver {
    let mut app = filtered_jobs_app();
    app.app.jobs.jobs[0].stdout = Some(path.to_string());
    app.app.jobs.jobs[0].stderr = Some(path.to_string());
    app
}

#[test]
fn app_dialogs_ctrl_t_still_opens_time_limit_dialog() {
    let mut app = test_app(2, Some(0));

    app.handle(AppMessage::Key(key_with_modifiers(
        't',
        KeyModifiers::control_only(),
    )));

    assert!(matches!(app.dialog(), Some(Dialog::EditTimeLimit { .. })));
}

#[test]
fn app_dialogs_test_validated_time_limit() {
    assert_eq!(validated_time_limit(&TextInput::new("".to_string())), None);
    assert_eq!(validated_time_limit(&TextInput::new("   ".to_string())), None);
    assert_eq!(
        validated_time_limit(&TextInput::new(" 01:00:00 ".to_string())),
        Some("01:00:00".to_string())
    );
}

#[test]
fn app_dialogs_ctrl_d_in_jobs_focus_opens_cancel_confirmation_popup() {
    let mut app = filtered_jobs_app();

    app.handle(AppMessage::Key(key_with_modifiers(
        'd',
        KeyModifiers::control_only(),
    )));

    match app.dialog() {
        Some(Dialog::ConfirmCancelJob {
            id,
            name,
            signal,
            selected,
            ..
        }) => {
            assert_eq!(id, "101512");
            assert_eq!(name, "vasp-alpha");
            assert_eq!(*signal, None);
            assert_eq!(*selected, ConfirmCancelChoice::No);
        }
        _ => panic!("expected confirm cancel dialog"),
    }
}

#[test]
fn d_toggles_details_panel() {
    let mut app = filtered_jobs_app();
    app.set_focus(Focus::Details);

    assert!(app.details_visible());
    app.handle(AppMessage::Key(key('d')));

    assert!(!app.details_visible());
}

#[test]
fn d_in_resources_focus_toggles_details_without_cancel_popup() {
    let mut app = filtered_jobs_app();
    app.set_focus(Focus::Resources);

    let before = app.details_visible();
    app.handle(AppMessage::Key(key('d')));

    assert!(app.dialog().is_none());
    assert_ne!(app.details_visible(), before);
}

#[test]
fn app_dialogs_c_opens_copy_popup_and_uppercase_c_stays_unbound() {
    let mut app = copyable_jobs_app();

    app.handle(AppMessage::Key(key('c')));
    assert!(matches!(
        app.dialog(),
        Some(Dialog::CopyJobOutputDirectory { .. })
    ));

    app.set_dialog(None);
    app.handle(AppMessage::Key(key('C')));
    assert!(app.dialog().is_none());
}

#[test]
fn copy_popup_copies_directory_name_with_c() {
    let mut app = copyable_jobs_app();
    app.handle(AppMessage::Key(key('c')));
    app.handle(AppMessage::Key(key('c')));

    assert!(app.dialog().is_none());
    assert_eq!(app.pending_clipboard_copy(), Some("vasp-alpha"));
}

#[test]
fn app_dialogs_copy_popup_preserves_special_characters_in_directory_path() {
    let mut app = copyable_jobs_app_with_output_path(
        "/scratch/chlo/vasp+alpha %beta#gamma?delta&epsilon/stdout.log",
    );
    app.handle(AppMessage::Key(key('c')));
    app.handle(AppMessage::Key(key('d')));

    assert!(app.dialog().is_none());
    assert_eq!(
        app.pending_clipboard_copy(),
        Some("/scratch/chlo/vasp+alpha %beta#gamma?delta&epsilon")
    );
}

#[test]
fn copy_popup_copies_directory_url_with_d() {
    let mut app = copyable_jobs_app();
    app.handle(AppMessage::Key(key('c')));
    app.handle(AppMessage::Key(key('d')));

    assert!(app.dialog().is_none());
    assert_eq!(
        app.pending_clipboard_copy(),
        Some("/scratch/chlo/vasp-alpha")
    );
}

#[test]
fn ctrl_c_without_selection_does_not_open_copy_popup() {
    let mut app = copyable_jobs_app();
    app.handle(AppMessage::Key(key_with_modifiers(
        'c',
        KeyModifiers::control_only(),
    )));

    assert!(app.dialog().is_none());
}

#[test]
fn ctrl_d_in_log_focus_opens_cancel_popup_again() {
    let mut app = filtered_jobs_app();
    app.set_focus(Focus::Log);

    app.handle(AppMessage::Key(key_with_modifiers(
        'd',
        KeyModifiers::control_only(),
    )));

    assert!(matches!(
        app.dialog(),
        Some(Dialog::ConfirmCancelJob { .. })
    ));
}

#[test]
fn cancel_confirmation_defaults_to_no_and_enter_closes_safely() {
    let mut app = filtered_jobs_app();
    app.handle(AppMessage::Key(key_with_modifiers(
        'd',
        KeyModifiers::control_only(),
    )));
    app.handle(AppMessage::Key(special_key(KeyCode::Enter)));
    assert!(app.dialog().is_none());
}

#[test]
fn app_dialogs_cancel_confirmation_accepts_safe_close_keys() {
    for key_event in [key('n'), key('N'), special_key(KeyCode::Esc)] {
        let mut app = filtered_jobs_app();
        app.handle(AppMessage::Key(key_with_modifiers(
            'd',
            KeyModifiers::control_only(),
        )));

        app.handle(AppMessage::Key(key_event));
        assert!(app.dialog().is_none());
    }
}

#[test]
fn cancel_confirmation_arrow_keys_change_selection() {
    let mut app = filtered_jobs_app();
    app.handle(AppMessage::Key(key_with_modifiers(
        'd',
        KeyModifiers::control_only(),
    )));
    app.handle(AppMessage::Key(special_key(KeyCode::Right)));

    match app.dialog() {
        Some(Dialog::ConfirmCancelJob { selected, .. }) => {
            assert_eq!(*selected, ConfirmCancelChoice::Yes)
        }
        _ => panic!("expected confirm cancel dialog"),
    }

    app.handle(AppMessage::Key(special_key(KeyCode::Left)));
    match app.dialog() {
        Some(Dialog::ConfirmCancelJob { selected, .. }) => {
            assert_eq!(*selected, ConfirmCancelChoice::No)
        }
        _ => panic!("expected confirm cancel dialog"),
    }
}

#[test]
fn app_dialogs_cancel_confirmation_maps_yes_keys_without_running_scancel() {
    for key_event in [key('y'), key('Y')] {
        assert_eq!(
            cancel_confirmation_action(key_event, ConfirmCancelChoice::No),
            CancelConfirmationAction::Confirm
        );
    }
    assert_eq!(
        cancel_confirmation_action(special_key(KeyCode::Enter), ConfirmCancelChoice::Yes),
        CancelConfirmationAction::Confirm
    );
    assert_eq!(
        cancel_confirmation_action(special_key(KeyCode::Enter), ConfirmCancelChoice::No),
        CancelConfirmationAction::Cancel
    );
}

#[test]
fn r_opens_rename_dialog_with_existing_job_name() {
    let mut app = filtered_jobs_app();
    app.handle(AppMessage::Key(key('r')));

    match app.dialog() {
        Some(Dialog::EditJobName { id, input }) => {
            assert_eq!(id, "101512");
            assert_eq!(input.value(), "vasp-alpha");
        }
        _ => panic!("expected rename dialog"),
    }
}

#[test]
fn r_does_not_open_rename_dialog_in_resources_focus() {
    let mut app = filtered_jobs_app();
    app.set_focus(Focus::Resources);
    app.handle(AppMessage::Key(key('r')));

    assert!(app.dialog().is_none());
}

#[test]
fn r_in_details_focus_opens_rename_dialog() {
    let mut app = filtered_jobs_app();
    app.set_focus(Focus::Details);
    app.handle(AppMessage::Key(key('r')));

    assert!(matches!(app.dialog(), Some(Dialog::EditJobName { .. })));
}

#[test]
fn ctrl_t_opens_time_limit_dialog_in_resources_focus() {
    let mut app = filtered_jobs_app();
    app.set_focus(Focus::Resources);
    app.handle(AppMessage::Key(key_with_modifiers(
        't',
        KeyModifiers::control_only(),
    )));

    assert!(matches!(app.dialog(), Some(Dialog::EditTimeLimit { .. })));
}

#[test]
fn ctrl_t_in_details_focus_opens_time_limit_dialog() {
    let mut app = filtered_jobs_app();
    app.set_focus(Focus::Details);
    app.handle(AppMessage::Key(key_with_modifiers(
        't',
        KeyModifiers::control_only(),
    )));

    assert!(matches!(app.dialog(), Some(Dialog::EditTimeLimit { .. })));
}

#[test]
fn d_with_no_selected_job_does_not_panic_or_open_dialog() {
    let mut app = test_app(0, None);

    app.handle(AppMessage::Key(key('d')));

    assert!(app.dialog().is_none());
}

#[test]
fn app_dialogs_ctrl_d_in_filter_dialog_does_not_open_cancel_popup() {
    let mut app = filtered_jobs_app();
    open_filter(&mut app);

    app.handle(AppMessage::Key(key_with_modifiers(
        'd',
        KeyModifiers::control_only(),
    )));

    assert!(matches!(app.dialog(), Some(Dialog::FilterJobs { .. })));
}

