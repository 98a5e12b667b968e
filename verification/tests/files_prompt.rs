use crossterm::{InputEvent, KeyEvent};
use glint::color::reset_display;
use glint::git::{GitStatus, GitStatusItem, GitStatusType};
use glint::prompt::files_prompt::{
    row_line, shown_rows, summary_line, FileRow, FilesPrompt, FilesPromptResult, KeyPress, Row,
    Step, MAX_ROWS,
};
use glint::term_buffer::{Batch, DrawOp};
use glint::{Config, TermBuffer};

const SPACE: KeyPress = KeyPress::Char(' ');

fn status(names: &[&str]) -> GitStatus {
    GitStatus(names.iter().map(|name| GitStatusItem::new(name.to_string())).collect())
}

fn numbered(count: usize) -> GitStatus {
    GitStatus((0..count).map(|i| GitStatusItem::new(format!("file{}.txt", i))).collect())
}

fn flags(prompt: &FilesPrompt) -> Vec<bool> {
    (0..prompt.options().len()).map(|i| prompt.is_checked(i)).collect()
}

fn press(prompt: &mut FilesPrompt, keys: &[KeyPress]) {
    for key in keys {
        assert!(matches!(prompt.handle_key(*key), Step::Redraw));
    }
}

fn appended(batch: &Batch) -> Vec<String> {
    batch
        .ops
        .iter()
        .map(|op| match op {
            DrawOp::Append { text, .. } => text.clone(),
            other => panic!("not an append: {:?}", other),
        })
        .collect()
}

#[test]
fn starts_unchecked_with_focus_on_select_all() {
    let config = Config::default();
    let prompt = FilesPrompt::new(&config, status(&["a.txt", "b.txt"]));
    assert_eq!(flags(&prompt), vec![false, false]);
    assert_eq!(prompt.focused_index(), 0);
    assert_eq!(prompt.focused_row(), Row::SelectAll);
    assert!(!prompt.all_checked());
    assert!(prompt.selected().is_empty());
    assert_eq!(prompt.settings().types.len(), 11);
}

#[test]
fn space_on_select_all_checks_all_then_unchecks_all() {
    let config = Config::default();
    let mut prompt = FilesPrompt::new(&config, status(&["a.txt", "b.txt", "c.txt"]));
    press(&mut prompt, &[KeyPress::Down, SPACE, KeyPress::Up]);
    assert_eq!(flags(&prompt), vec![true, false, false]);

    press(&mut prompt, &[SPACE]);
    assert_eq!(flags(&prompt), vec![true, true, true]);
    assert!(prompt.all_checked());

    press(&mut prompt, &[SPACE]);
    assert_eq!(flags(&prompt), vec![false, false, false]);

    press(&mut prompt, &[SPACE]);
    assert_eq!(flags(&prompt), vec![true, true, true]);
}

#[test]
fn space_on_a_file_toggles_that_file_only() {
    let config = Config::default();
    let mut prompt = FilesPrompt::new(&config, status(&["a.txt", "b.txt", "c.txt"]));
    press(&mut prompt, &[KeyPress::Down, KeyPress::Down, SPACE]);
    assert_eq!(prompt.focused_row(), Row::File(1));
    assert_eq!(flags(&prompt), vec![false, true, false]);
    press(&mut prompt, &[KeyPress::Down, SPACE]);
    assert_eq!(flags(&prompt), vec![false, true, true]);
    press(&mut prompt, &[SPACE]);
    assert_eq!(flags(&prompt), vec![false, true, false]);
    assert_eq!(prompt.focused_index(), 3);
}

#[test]
fn focus_stops_at_both_ends() {
    let config = Config::default();
    let mut prompt = FilesPrompt::new(&config, status(&["a.txt", "b.txt"]));
    press(&mut prompt, &[KeyPress::Up]);
    assert_eq!(prompt.focused_index(), 0);
    press(&mut prompt, &[KeyPress::Down, KeyPress::Down]);
    assert_eq!(prompt.focused_index(), 2);
    press(&mut prompt, &[KeyPress::Down]);
    assert_eq!(prompt.focused_index(), 2);
    press(&mut prompt, &[KeyPress::Up]);
    assert_eq!(prompt.focused_index(), 1);
    press(&mut prompt, &[KeyPress::Up, KeyPress::Down]);
    assert_eq!(prompt.focused_index(), 1);
    press(&mut prompt, &[KeyPress::Down, KeyPress::Up]);
    assert_eq!(prompt.focused_index(), 1);
}

#[test]
fn empty_list_has_only_the_select_all_row() {
    let config = Config::default();
    let mut prompt = FilesPrompt::new(&config, status(&[]));
    press(&mut prompt, &[KeyPress::Down, KeyPress::Up, SPACE]);
    assert_eq!(prompt.focused_index(), 0);
    assert!(prompt.all_checked());
    match prompt.handle_key(KeyPress::Enter) {
        Step::Finished(FilesPromptResult::Files(names)) => assert!(names.is_empty()),
        other => panic!("unexpected step: {:?}", other),
    }
}

#[test]
fn enter_yields_the_checked_files_in_order() {
    let config = Config::default();
    let mut prompt = FilesPrompt::new(&config, status(&["a.txt", "b.txt", "c.txt"]));
    press(&mut prompt, &[KeyPress::Down, SPACE, KeyPress::Down, KeyPress::Down, SPACE]);
    assert_eq!(flags(&prompt), vec![true, false, true]);
    match prompt.handle_key(KeyPress::Enter) {
        Step::Finished(FilesPromptResult::Files(names)) => {
            assert_eq!(names, vec!["a.txt", "c.txt"])
        }
        other => panic!("unexpected step: {:?}", other),
    }
    press(&mut prompt, &[KeyPress::Up, KeyPress::Up, KeyPress::Up]);
    match prompt.handle_key(KeyPress::Enter) {
        Step::Finished(FilesPromptResult::Files(names)) => {
            assert_eq!(names, vec!["a.txt", "c.txt"])
        }
        other => panic!("unexpected step: {:?}", other),
    }
    assert_eq!(flags(&prompt), vec![true, false, true]);
}

#[test]
fn escape_and_abort_end_the_run() {
    let config = Config::default();
    let mut prompt = FilesPrompt::new(&config, status(&["a.txt"]));
    assert!(matches!(
        prompt.handle_key(KeyPress::Esc),
        Step::Finished(FilesPromptResult::Escape)
    ));
    assert!(matches!(
        prompt.handle_key(KeyPress::Ctrl('c')),
        Step::Finished(FilesPromptResult::Terminate)
    ));
    assert_eq!(prompt.focused_index(), 0);
    assert_eq!(flags(&prompt), vec![false]);
}

#[test]
fn other_keys_are_ignored() {
    let config = Config::default();
    let mut prompt = FilesPrompt::new(&config, status(&["a.txt", "b.txt"]));
    press(&mut prompt, &[KeyPress::Down, SPACE]);
    for key in [
        KeyPress::Other,
        KeyPress::Char('x'),
        KeyPress::Char('D'),
        KeyPress::Ctrl('d'),
        KeyPress::Ctrl(' '),
        KeyPress::Char('c'),
    ] {
        assert!(matches!(prompt.handle_key(key), Step::Ignored));
    }
    assert_eq!(prompt.focused_index(), 1);
    assert_eq!(flags(&prompt), vec![true, false]);
}

#[test]
fn diff_names_the_focused_file_or_none() {
    let config = Config::default();
    let mut prompt = FilesPrompt::new(&config, status(&["a.txt", "b.txt"]));
    match prompt.handle_key(KeyPress::Char('d')) {
        Step::Diff(names) => assert!(names.is_empty()),
        other => panic!("unexpected step: {:?}", other),
    }
    press(&mut prompt, &[KeyPress::Down, KeyPress::Down]);
    match prompt.handle_key(KeyPress::Char('d')) {
        Step::Diff(names) => assert_eq!(names, vec!["b.txt"]),
        other => panic!("unexpected step: {:?}", other),
    }
    assert_eq!(prompt.focused_index(), 2);
    assert_eq!(flags(&prompt), vec![false, false]);
}

#[test]
fn terminal_events_are_told_apart() {
    let config = Config::default();
    let mut prompt = FilesPrompt::new(&config, status(&["a.txt", "b.txt"]));
    assert!(matches!(
        prompt.handle_event(&InputEvent::Keyboard(KeyEvent::Down)),
        Step::Redraw
    ));
    assert_eq!(prompt.focused_index(), 1);
    assert!(matches!(
        prompt.handle_event(&InputEvent::Keyboard(KeyEvent::Char(' '))),
        Step::Redraw
    ));
    assert_eq!(flags(&prompt), vec![true, false]);
    assert!(matches!(
        prompt.handle_event(&InputEvent::Keyboard(KeyEvent::Up)),
        Step::Redraw
    ));
    assert_eq!(prompt.focused_index(), 0);
    assert!(matches!(
        prompt.handle_event(&InputEvent::Keyboard(KeyEvent::Char('d'))),
        Step::Diff(_)
    ));
    assert!(matches!(
        prompt.handle_event(&InputEvent::Keyboard(KeyEvent::Left)),
        Step::Ignored
    ));
    assert!(matches!(
        prompt.handle_event(&InputEvent::Keyboard(KeyEvent::Alt('c'))),
        Step::Ignored
    ));
    assert!(matches!(prompt.handle_event(&InputEvent::Unknown), Step::Ignored));
    assert!(matches!(
        prompt.handle_event(&InputEvent::Keyboard(KeyEvent::Esc)),
        Step::Finished(FilesPromptResult::Escape)
    ));
    assert!(matches!(
        prompt.handle_event(&InputEvent::Keyboard(KeyEvent::Ctrl('c'))),
        Step::Finished(FilesPromptResult::Terminate)
    ));
    match prompt.handle_event(&InputEvent::Keyboard(KeyEvent::Enter)) {
        Step::Finished(FilesPromptResult::Files(names)) => assert_eq!(names, vec!["a.txt"]),
        other => panic!("unexpected step: {:?}", other),
    }
}

#[test]
fn rows_are_derived_from_the_state() {
    let config = Config::default();
    let files = GitStatus::parse(&vec![" M a.txt".to_owned(), "?? b.txt".to_owned()]);
    let mut prompt = FilesPrompt::new(&config, files);
    press(&mut prompt, &[KeyPress::Down, SPACE]);

    let all = prompt.row(0);
    assert_eq!(all.name, "<all>");
    assert_eq!(all.status, GitStatusType::Unchanged);
    assert!(!all.checked);
    assert!(!all.focused);

    let first = prompt.row(1);
    assert_eq!(first.name, "a.txt");
    assert_eq!(first.status, GitStatusType::Modified);
    assert!(first.checked);
    assert!(first.focused);

    let second = prompt.row(2);
    assert_eq!(second.name, "b.txt");
    assert_eq!(second.status, GitStatusType::Untracked);
    assert!(!second.checked);
    assert!(!second.focused);
}

#[test]
fn row_line_joins_the_parts() {
    assert_eq!(row_line("[x]", "+", "a.txt"), "[x] + a.txt\u{1b}[0m");
    assert_eq!(reset_display(), "\u{1b}[0m");
}

#[test]
fn rendered_row_carries_the_colours() {
    let focused = FileRow {
        name: "a.txt".to_owned(),
        status: GitStatusType::Modified,
        checked: true,
        focused: true,
    };
    assert_eq!(focused.mark(), "☑");
    assert_eq!(
        focused.render(),
        "\u{1b}[38;5;12m☑\u{1b}[0m \u{1b}[38;2;96;112;218m•\u{1b}[0m \u{1b}[38;5;12ma.txt\u{1b}[0m\u{1b}[0m"
    );

    let plain = FileRow {
        name: "<all>".to_owned(),
        status: GitStatusType::Unchanged,
        checked: false,
        focused: false,
    };
    assert_eq!(plain.mark(), "□");
    assert_eq!(
        plain.render(),
        "\u{1b}[38;5;15m□\u{1b}[0m \u{1b}[38;5;15m \u{1b}[0m \u{1b}[38;5;15m<all>\u{1b}[0m\u{1b}[0m"
    );
}

#[test]
fn status_signs() {
    let row = |status| FileRow { name: String::new(), status, checked: false, focused: false };
    assert_eq!(row(GitStatusType::Untracked).status_sign().0, "+");
    assert_eq!(row(GitStatusType::Modified).status_sign().0, "•");
    assert_eq!(row(GitStatusType::Deleted).status_sign().0, "-");
    assert_eq!(row(GitStatusType::Added).status_sign().0, " ");
    assert_eq!(row(GitStatusType::Renamed).status_sign().0, " ");
    assert_eq!(row(GitStatusType::Unchanged).status_sign().0, " ");
}

#[test]
fn draw_lays_out_banner_instructions_and_rows() {
    let config = Config::default();
    let mut prompt = FilesPrompt::new(&config, status(&["a.txt", "b.txt"]));
    press(&mut prompt, &[KeyPress::Down, KeyPress::Down]);
    let banner = vec!["one".to_owned(), "two".to_owned()];
    let mut buffer = TermBuffer::new();
    let batch = prompt.draw(&banner, &mut buffer);

    let frame = appended(&batch);
    assert_eq!(frame.len(), 8);
    assert_eq!(frame[0], "one");
    assert_eq!(frame[1], "two");
    assert_eq!(frame[2], "");
    assert_eq!(frame[3], "Toggle files to commit (with <space>, or tap 'd' for diff):");
    assert_eq!(frame[4], format!("{}\u{1b}[0m", "-".repeat(59)));
    assert_eq!(frame[5], prompt.row(0).render());
    assert_eq!(frame[6], prompt.row(1).render());
    assert_eq!(frame[7], prompt.row(2).render());
    assert_eq!(batch.cursor, (0, 7));
    assert_eq!(buffer.lines(), 0);
}

#[test]
fn draw_again_writes_only_the_rows_that_changed() {
    let config = Config::default();
    let mut prompt = FilesPrompt::new(&config, status(&["a.txt", "b.txt"]));
    let banner = vec!["one".to_owned()];
    let mut buffer = TermBuffer::new();
    prompt.draw(&banner, &mut buffer);

    let same = prompt.draw(&banner, &mut buffer);
    assert!(same.ops.is_empty());
    assert_eq!(same.cursor, (0, 4));

    press(&mut prompt, &[KeyPress::Down]);
    let moved = prompt.draw(&banner, &mut buffer);
    assert_eq!(moved.ops.len(), 2);
    assert!(matches!(&moved.ops[0], DrawOp::Overwrite { row: 4, .. }));
    assert!(matches!(&moved.ops[1], DrawOp::Overwrite { row: 5, .. }));
    assert_eq!(moved.cursor, (0, 5));

    press(&mut prompt, &[SPACE]);
    let toggled = prompt.draw(&banner, &mut buffer);
    assert_eq!(toggled.ops.len(), 1);
    assert!(
        matches!(&toggled.ops[0], DrawOp::Overwrite { row: 5, text } if *text == prompt.row(1).render())
    );
}

#[test]
fn twenty_files_show_twelve_and_count_the_rest() {
    assert_eq!(MAX_ROWS, 15);
    let config = Config::default();
    let prompt = FilesPrompt::new(&config, numbered(20));
    let mut buffer = TermBuffer::new();
    let frame = appended(&prompt.draw(&Vec::new(), &mut buffer));
    assert_eq!(frame.len(), 3 + 1 + 12 + 1);
    assert_eq!(frame[3], prompt.row(0).render());
    assert_eq!(frame[4], prompt.row(1).render());
    assert_eq!(frame[15], prompt.row(12).render());
    assert_eq!(frame[16], "and 8 more");
}

#[test]
fn fifteen_files_are_all_shown() {
    let config = Config::default();
    let prompt = FilesPrompt::new(&config, numbered(15));
    let mut buffer = TermBuffer::new();
    let frame = appended(&prompt.draw(&Vec::new(), &mut buffer));
    assert_eq!(frame.len(), 3 + 1 + 15);
    assert_eq!(frame[18], prompt.row(15).render());
}

#[test]
fn sixteen_files_show_twelve_and_count_four() {
    let config = Config::default();
    let prompt = FilesPrompt::new(&config, numbered(16));
    let mut buffer = TermBuffer::new();
    let frame = appended(&prompt.draw(&Vec::new(), &mut buffer));
    assert_eq!(frame.len(), 3 + 1 + 12 + 1);
    assert_eq!(frame[16], "and 4 more");
}

#[test]
fn shown_rows_and_summary() {
    assert_eq!(shown_rows(0), 0);
    assert_eq!(shown_rows(15), 15);
    assert_eq!(shown_rows(16), 12);
    assert_eq!(shown_rows(20), 12);
    assert_eq!(summary_line(8), "and 8 more");
    assert_eq!(summary_line(120), "and 120 more");
}

#[test]
fn script_ends_with_the_first_key_that_ends_it() {
    let config = Config::default();
    let mut prompt = FilesPrompt::new(&config, status(&["a.txt", "b.txt", "c.txt"]));
    let keys = vec![
        KeyPress::Down,
        SPACE,
        KeyPress::Char('d'),
        KeyPress::Other,
        KeyPress::Down,
        KeyPress::Down,
        SPACE,
        KeyPress::Enter,
        KeyPress::Esc,
    ];
    match prompt.play(&keys) {
        Some(FilesPromptResult::Files(names)) => assert_eq!(names, vec!["a.txt", "c.txt"]),
        other => panic!("unexpected ending: {:?}", other),
    }
    assert_eq!(prompt.focused_index(), 3);
}

#[test]
fn script_without_a_final_key_does_not_end() {
    let config = Config::default();
    let mut prompt = FilesPrompt::new(&config, status(&["a.txt"]));
    assert!(prompt.play(&vec![KeyPress::Down, SPACE, KeyPress::Char('q')]).is_none());
    assert!(prompt.play(&Vec::new()).is_none());
    assert_eq!(flags(&prompt), vec![true]);
    assert!(matches!(
        prompt.play(&vec![KeyPress::Up, KeyPress::Esc, KeyPress::Enter]),
        Some(FilesPromptResult::Escape)
    ));
    assert!(matches!(
        prompt.play(&vec![KeyPress::Ctrl('c'), KeyPress::Enter]),
        Some(FilesPromptResult::Terminate)
    ));
}

#[test]
fn script_leaves_the_state_of_the_keys_it_handled() {
    let config = Config::default();
    let mut prompt = FilesPrompt::new(&config, status(&["a.txt", "b.txt", "c.txt"]));
    let keys = vec![KeyPress::Down, KeyPress::Down, SPACE, KeyPress::Esc, KeyPress::Up, SPACE];
    assert!(matches!(prompt.play(&keys), Some(FilesPromptResult::Escape)));
    assert_eq!(prompt.focused_index(), 2);
    assert_eq!(flags(&prompt), vec![false, true, false]);

    assert!(prompt.play(&vec![KeyPress::Up, SPACE, KeyPress::Other]).is_none());
    assert_eq!(prompt.focused_index(), 1);
    assert_eq!(flags(&prompt), vec![true, true, false]);
}

#[test]
fn rendered_row_takes_its_colours_from_focus_and_status() {
    let row = |status, focused| FileRow { name: "f".to_owned(), status, checked: false, focused };
    assert_eq!(
        row(GitStatusType::Untracked, false).render(),
        "\u{1b}[38;5;15m□\u{1b}[0m \u{1b}[38;2;96;218;177m+\u{1b}[0m \u{1b}[38;5;15mf\u{1b}[0m\u{1b}[0m"
    );
    assert_eq!(
        row(GitStatusType::Deleted, true).render(),
        "\u{1b}[38;5;12m□\u{1b}[0m \u{1b}[38;2;218;96;118m-\u{1b}[0m \u{1b}[38;5;12mf\u{1b}[0m\u{1b}[0m"
    );
    assert_eq!(
        row(GitStatusType::Added, true).render(),
        "\u{1b}[38;5;12m□\u{1b}[0m \u{1b}[38;5;15m \u{1b}[0m \u{1b}[38;5;12mf\u{1b}[0m\u{1b}[0m"
    );
}
