use turm::clipboard::base64_encode;
use turm::sorting::{sort_jobs, JobSortField, SortDirection};
use turm::layout_text::{chunked_string, tres_chunks, truncate_with_ellipsis};
use turm::sacct::{filter_group_jobs, parse_sacct_jobs};
use turm::test_support::AppDriver;
use turm::ui::{Key, KeyCode, KeyModifiers};
use turm::{AppMessage, Focus, OutputPanelMode, ScrollAnchor};

#[test]
fn tres_lines_rejoin_to_the_nonempty_items() {
    let lines = tres_chunks("a=1,,b=22,c=3", 5);
    assert_eq!(lines, vec!["a=1", "b=22", "c=3"]);
    assert_eq!(lines.join(","), "a=1,b=22,c=3");
}

#[test]
fn chunks_rejoin_to_the_line() {
    let line = "abcdefghijklmnopq";
    let chunks = chunked_string(line, 5, 3);
    assert_eq!(chunks, vec!["abcde", "fgh", "ijk", "lmn", "opq"]);
    assert_eq!(chunks.concat(), line);
}

#[test]
fn truncation_fits_its_room() {
    let cut = truncate_with_ellipsis(&"abcdef".chars().collect::<Vec<_>>(), 3);
    assert_eq!(cut.iter().collect::<String>(), "ab…");
    let whole = truncate_with_ellipsis(&"abc".chars().collect::<Vec<_>>(), 3);
    assert_eq!(whole.iter().collect::<String>(), "abc");
}

#[test]
fn job_ids_round_trip_through_parsing() {
    let jobs = parse_sacct_jobs(
        "77_3|77_3|step|RUNNING|chlo|00:00:10|01:00:00|Unknown|cpu=1|debug|n1|||None|/w|\n",
    );
    assert_eq!(jobs[0].id(), "77_3");
}

#[test]
fn group_listing_keeps_active_and_own_jobs() {
    let jobs = parse_sacct_jobs(
        "1|1|a|RUNNING|other|00:00:01|01:00:00|Unknown|cpu=1|debug|n1|||None|/w|\n\
2|2|b|COMPLETED|other|00:00:01|01:00:00|Unknown|cpu=1|debug|n1|||None|/w|\n\
3|3|c|COMPLETED|me|00:00:01|01:00:00|Unknown|cpu=1|debug|n1|||None|/w|\n",
    );
    let kept = filter_group_jobs(jobs, "me");
    let names: Vec<&str> = kept.iter().map(|j| j.name.as_str()).collect();
    assert_eq!(names, vec!["a", "c"]);
}

#[test]
fn output_offset_stays_within_the_text() {
    let mut app = AppDriver::new(1, Some(0));
    let _ = app.render(120, 40);
    app.set_output_mode(OutputPanelMode::Stdout);
    app.set_focus(Focus::Log);
    app.set_job_output((0..40).map(|i| format!("l{i}")).collect::<Vec<_>>().join("\n"));
    app.set_output_anchor(ScrollAnchor::Top);
    for _ in 0..100 {
        app.handle(AppMessage::Key(Key::new(KeyCode::PageDown, KeyModifiers::none())));
    }
    assert!(app.output_offset() <= app.max_output_offset());
    assert_eq!(app.output_offset(), app.max_output_offset());
}

#[test]
fn chunks_have_the_sizes_asked_for() {
    let chunks = chunked_string("abcdefghijk", 4, 3);
    let sizes: Vec<usize> = chunks.iter().map(|c| c.chars().count()).collect();
    assert_eq!(sizes, vec![4, 3, 3, 1]);
    assert!(chunks.iter().all(|c| !c.is_empty()));
    let no_step = chunked_string("abcdefghijk", 4, 0);
    assert_eq!(no_step, vec!["abcd", "efghijk"]);
    assert_eq!(chunked_string("", 4, 2), vec![""]);
}

#[test]
fn base64_has_four_digits_per_three_bytes() {
    assert_eq!(base64_encode(b"Man"), "TWFu");
    assert_eq!(base64_encode(b"Ma"), "TWE=");
    assert_eq!(base64_encode(b"M"), "TQ==");
    assert_eq!(base64_encode(b"hello!!").len(), 12);
    assert_eq!(base64_encode(b""), "");
}

fn job_named(id: &str, name: &str) -> turm::Job {
    let mut j = turm::test_support::test_job(0);
    j.job_id = id.to_string();
    j.array_id = id.to_string();
    j.name = name.to_string();
    j
}

#[test]
fn sorting_keeps_the_order_of_equal_jobs() {
    let names = |js: &Vec<turm::Job>| js.iter().map(|j| j.name.clone()).collect::<Vec<_>>();
    let jobs = vec![job_named("7", "x"), job_named("3", "a"), job_named("7", "y")];
    assert_eq!(names(&sort_jobs(jobs, JobSortField::Id, SortDirection::Asc)), vec!["a", "x", "y"]);
    let jobs = vec![job_named("7", "y"), job_named("3", "a"), job_named("7", "x")];
    assert_eq!(names(&sort_jobs(jobs, JobSortField::Id, SortDirection::Desc)), vec!["y", "x", "a"]);
}

#[test]
fn keys_outside_a_dialog_queue_no_command_and_keep_the_focus() {
    let mut app = AppDriver::new(4, Some(0));
    let _ = app.render(120, 40);
    for c in ['j', 'n', 'p', 's'] {
        app.handle(AppMessage::Key(Key::new(KeyCode::Char(c), KeyModifiers::none())));
        assert_eq!(app.focus(), Focus::Jobs);
        assert!(app.app.pending_command.is_none());
    }
}

#[test]
fn q_in_a_dialog_does_not_quit() {
    let mut app = AppDriver::new(3, Some(0));
    app.handle(AppMessage::Key(Key::new(KeyCode::Char('f'), KeyModifiers::none())));
    let outcome = app.handle_input_event(Key::new(KeyCode::Char('q'), KeyModifiers::none()));
    assert_eq!(outcome, (false, true));
    assert!(app.app.pending_exit.is_none());
}

#[test]
fn moving_to_another_job_follows_the_end_of_its_file() {
    let mut app = AppDriver::new(4, Some(0));
    app.set_output_mode(OutputPanelMode::Stdout);
    app.set_output_anchor(ScrollAnchor::Top);
    app.set_output_offset(5);
    app.handle(AppMessage::Key(Key::new(KeyCode::Down, KeyModifiers::none())));
    assert_eq!(app.selected_job_index(), Some(1));
    assert_eq!(app.output_anchor(), ScrollAnchor::Bottom);
    assert_eq!(app.output_offset(), 0);
}

#[test]
fn output_pattern_tokens_are_found_left_to_right() {
    let chars = |s: &str| s.chars().collect::<Vec<char>>();
    let ctx = turm::sacct::PathContext {
        array_master: chars("77"),
        array_index: chars("3"),
        id: chars("80"),
        host: chars("n1,n2"),
        user: chars("chlo"),
        name: chars("job"),
    };
    let out = turm::sacct::expand_tokens_chars(&chars("a%%%A_%a%q%x-%N.%j%"), &ctx);
    assert_eq!(out.iter().collect::<String>(), "a%77_3%qjob-n1.80%");
}

#[test]
fn copied_rows_lose_trailing_blanks_and_join_by_lines() {
    let rows = vec!["ab  ".chars().collect::<Vec<char>>(), "".chars().collect(), " c\t".chars().collect()];
    assert_eq!(turm::selection::copied_text(&rows), "ab\n\n c");
}
