use turm::app::SlurmCommand;
use turm::clipboard::{base64_encode, osc52_sequence};
use turm::filter::JobFilter;
use turm::geometry::Rect;
use turm::keymap::{main_key_action, MainKeyAction};
use turm::output_panel::{sort_workdir_entries, WorkdirEntry, WorkdirEntryKind};
use turm::screen_layout::ui_areas;
use turm::sorting::{sort_jobs, JobSortField, SortDirection};
use turm::test_support::{test_job, AppDriver};
use turm::ui::{copy_job_output_directory_value, derive_workdir_path, Key, KeyCode, KeyModifiers, TextInput};
use turm::{Dialog, Focus, OutputPanelMode, SqueueArgs};

fn key(c: char) -> Key {
    Key::new(KeyCode::Char(c), KeyModifiers::none())
}

fn rect(r: Rect) -> (u16, u16, u16, u16) {
    (r.x, r.y, r.width, r.height)
}

fn no_args() -> SqueueArgs {
    SqueueArgs {
        account: None,
        federation: false,
        job: None,
        local: false,
        clusters: None,
        me: false,
        name: None,
        noconvert: false,
        partition: None,
        states: None,
        user: None,
        nodelist: None,
    }
}

#[test]
fn completed_jobs_sort_last_in_either_direction() {
    for dir in [SortDirection::Asc, SortDirection::Desc] {
        let mut done = test_job(0);
        done.name = "a".to_string();
        done.state_compact = "CD".to_string();
        let mut running = test_job(1);
        running.name = "b".to_string();
        let sorted = sort_jobs(vec![done, running], JobSortField::Name, dir);
        assert_eq!(sorted[0].name, "b");
        assert_eq!(sorted[1].name, "a");
    }
}

#[test]
fn output_modes_cycle_back_after_four_steps() {
    let start = OutputPanelMode::default_mode();
    let mut m = start;
    for _ in 0..4 {
        m = m.next();
    }
    assert_eq!(m, start);
    assert_ne!(start.next(), start);
}

#[test]
fn sort_direction_toggles_back() {
    assert_eq!(SortDirection::Asc.toggled().toggled(), SortDirection::Asc);
    assert_eq!(SortDirection::Asc.toggled(), SortDirection::Desc);
    assert_eq!(SortDirection::Desc.indicator(), "▼");
}

#[test]
fn base64_matches_the_standard_alphabet_and_padding() {
    assert_eq!(base64_encode(b""), "");
    assert_eq!(base64_encode(b"f"), "Zg==");
    assert_eq!(base64_encode(b"ab"), "YWI=");
    assert_eq!(base64_encode(b"hello"), "aGVsbG8=");
    assert_eq!(base64_encode(&[0xff, 0xfe, 0xfd]), "//79");
}

#[test]
fn osc52_wraps_the_encoded_text() {
    assert_eq!(osc52_sequence(b"hi"), "\u{1b}]52;c;aGk=\u{7}");
}

#[test]
fn squeue_arguments_default_to_the_group_and_all_users() {
    assert_eq!(no_args().to_vec(Some("grp".to_string())), vec!["--accounts=grp", "--allusers"]);
    assert_eq!(no_args().to_vec(None), vec!["--allusers"]);
    let mut mine = no_args();
    mine.me = true;
    assert!(mine.to_vec(Some("grp".to_string())).is_empty());
}

#[test]
fn squeue_arguments_keep_their_order_and_drop_all_states() {
    let mut a = no_args();
    a.account = Some("acct".to_string());
    a.user = Some("u".to_string());
    a.states = Some("ALL".to_string());
    a.partition = Some("gpu".to_string());
    a.local = true;
    assert_eq!(
        a.to_vec(Some("grp".to_string())),
        vec!["--accounts=acct", "--local", "--partition=gpu", "--user=u"]
    );
    a.states = Some("R,PD".to_string());
    assert!(a.to_vec(None).contains(&"--state=R,PD".to_string()));
}

#[test]
fn ui_areas_split_the_screen() {
    let areas = ui_areas(Rect { x: 0, y: 0, width: 100, height: 40 }, false, true).unwrap();
    assert_eq!(rect(areas.help), (0, 38, 100, 2));
    assert_eq!(areas.output.map(rect), Some((0, 28, 100, 10)));
    assert_eq!(rect(areas.resources), (0, 0, 35, 28));
    assert_eq!(rect(areas.jobs), (34, 0, 66, 28));
    assert_eq!(rect(areas.details), (65, 17, 34, 10));
}

#[test]
fn ui_areas_collapse_the_output_on_short_screens() {
    let areas = ui_areas(Rect { x: 0, y: 0, width: 100, height: 20 }, false, false).unwrap();
    assert_eq!(rect(areas.help), (0, 19, 100, 1));
    assert!(areas.output.is_none());
    assert_eq!(rect(areas.details), (0, 0, 0, 0));
}

fn entry(name: &str, kind: WorkdirEntryKind) -> WorkdirEntry {
    WorkdirEntry { name: name.to_string(), path: format!("/w/{name}"), kind }
}

#[test]
fn workdir_listing_puts_directories_first_then_names() {
    let sorted = sort_workdir_entries(vec![
        entry("b", WorkdirEntryKind::File),
        entry("z", WorkdirEntryKind::Directory),
        entry("a", WorkdirEntryKind::File),
        entry("c", WorkdirEntryKind::Directory),
    ]);
    let names: Vec<&str> = sorted.iter().map(|e| e.name.as_str()).collect();
    assert_eq!(names, vec!["c", "z", "a", "b"]);
}

#[test]
fn keys_map_to_actions_by_focus() {
    assert_eq!(main_key_action(key('j'), Focus::Jobs), MainKeyAction::Sort(JobSortField::Id));
    assert_eq!(main_key_action(key('j'), Focus::Resources), MainKeyAction::ResourcesNext);
    assert_eq!(main_key_action(key('k'), Focus::Resources), MainKeyAction::ResourcesPrevious);
}

#[test]
fn q_closes_the_interface_without_a_dialog() {
    let mut driver = AppDriver::new(2, Some(0));
    let outcome = driver.app.handle_key_event(key('q'));
    assert!(outcome.quit);
    assert!(!outcome.draw);
}

#[test]
fn a_failed_command_opens_its_report() {
    let mut driver = AppDriver::new(1, Some(0));
    driver.app.command_failed("scancel 1".to_string(), "denied".to_string());
    match &driver.app.dialog {
        Some(Dialog::CommandError { command, output }) => {
            assert_eq!(command, "scancel 1");
            assert_eq!(output, "denied");
        }
        _ => panic!("expected the command error dialog"),
    }
}

#[test]
fn filters_ignore_case() {
    let mut job = test_job(0);
    job.name = "Vasp-Alpha".to_string();
    assert!(JobFilter::parse("name:VASP").matches(&job));
    assert!(!JobFilter::parse("name:relax").matches(&job));
}

#[test]
fn workdir_falls_back_to_the_output_files_directory() {
    let mut job = test_job(0);
    job.stdout = Some("/scratch/run/out.log".to_string());
    assert_eq!(derive_workdir_path(&job), Some("/scratch/run".to_string()));
    job.workdir = Some("/home/u".to_string());
    assert_eq!(derive_workdir_path(&job), Some("/home/u".to_string()));
}

#[test]
fn copy_values_name_the_last_component() {
    assert_eq!(
        copy_job_output_directory_value("/scratch/run"),
        Some(("/scratch/run".to_string(), "run".to_string()))
    );
    assert_eq!(copy_job_output_directory_value(""), None);
}

#[test]
fn typing_inserts_at_the_cursor() {
    let mut input = TextInput::new("ab".to_string());
    input.handle_key(key('x'));
    assert_eq!(input.value(), "abx");
    assert_eq!(input.cursor, 3);
    input.handle_key(Key::new(KeyCode::Backspace, KeyModifiers::none()));
    assert_eq!(input.value(), "ab");
}

#[test]
fn slurm_commands_build_their_command_lines() {
    let cancel = SlurmCommand::Cancel { id: "42".to_string(), signal: Some("USR1".to_string()) };
    assert_eq!(cancel.argv(), vec!["scancel", "--signal=USR1", "42"]);
    let plain = SlurmCommand::Cancel { id: "42".to_string(), signal: None };
    assert_eq!(plain.argv(), vec!["scancel", "42"]);
    let limit = SlurmCommand::UpdateTimeLimit { id: "7".to_string(), time_limit: "1:00:00".to_string() };
    assert_eq!(limit.argv(), vec!["scontrol", "update", "JobId=7", "TimeLimit=1:00:00"]);
    let rename = SlurmCommand::UpdateJobName { id: "7".to_string(), name: "relax".to_string() };
    assert_eq!(rename.argv(), vec!["scontrol", "update", "JobId=7", "JobName=relax"]);
}
