use miv::command::{Command, CommandResult, Commands};
use miv::editor::{prompt_step, Editor, KeyOutcome, PromptStatus, StatusMessage, QUIT_TIMES};
use miv::highlighting::Color;
use miv::highlighting::Type;
use miv::keymaps::{convert_keypress_to_action, Action, Count, Direction, MovementType};
use miv::mode::CursorStyle;
use miv::terminal::Size;
use miv::{Document, Key, Mode, Position, PossibleModes, SearchDirection, Settings, Terminal};

fn editor_over(doc: Document) -> Editor {
    Editor::new(doc, Terminal::new(80, 12), Settings::default(), String::new())
}

fn editor_with_text(text: &str) -> Editor {
    editor_over(Document::from_text("t.txt", text))
}

fn line(e: &Editor, i: usize) -> String {
    e.document.row(i).expect("row exists").contents()
}

fn cursor(e: &Editor) -> (usize, usize) {
    let p = e.cursor_position();
    (p.x, p.y)
}

#[test]
fn typing_in_insert_mode_inserts_at_cursor_and_returns_to_normal() {
    // From Normal, `i`, then "hi", then Esc: the text lands at the
    // original cursor and the final mode is Normal again.
    let mut e = editor_over(Document::default());
    e.process_keypress(Key::Char('i'));
    assert_eq!(e.current_mode(), PossibleModes::Insert);
    e.process_keypress(Key::Char('h'));
    e.process_keypress(Key::Char('i'));
    e.process_keypress(Key::Esc);
    assert_eq!(e.current_mode(), PossibleModes::Normal);
    assert_eq!(line(&e, 0), "hi");
    assert!(e.document.is_dirty());
}

#[test]
fn insertion_lands_at_the_cursor_mid_line() {
    let mut e = editor_with_text("abc");
    e.process_keypress(Key::Char('l'));
    e.process_keypress(Key::Char('l'));
    e.process_keypress(Key::Char('i'));
    e.process_keypress(Key::Char('h'));
    e.process_keypress(Key::Char('i'));
    e.process_keypress(Key::Esc);
    assert_eq!(line(&e, 0), "abhic");
    assert_eq!(e.current_mode(), PossibleModes::Normal);
}

#[test]
fn dirty_document_takes_three_quit_signals() {
    let mut e = editor_with_text("x");
    e.process_keypress(Key::Char('i'));
    e.process_keypress(Key::Char('y'));
    e.process_keypress(Key::Esc);
    assert!(e.document.is_dirty());
    assert_eq!(e.quit_times(), QUIT_TIMES);

    e.process_keypress(Key::Ctrl('q'));
    assert!(!e.should_quit());
    assert_eq!(e.quit_times(), 1);
    assert_eq!(
        e.status_text().as_str(),
        "WARNING: File has unsaved changes. Press Ctrl-Q 2 more times to quit."
    );

    e.process_keypress(Key::Ctrl('q'));
    assert!(!e.should_quit());
    assert_eq!(e.quit_times(), 0);
    assert_eq!(
        e.status_text().as_str(),
        "WARNING: File has unsaved changes. Press Ctrl-Q 1 more times to quit."
    );

    e.process_keypress(Key::Ctrl('q'));
    assert!(e.should_quit());
}

#[test]
fn clean_document_quits_on_first_signal() {
    let mut e = editor_with_text("x");
    e.process_keypress(Key::Ctrl('q'));
    assert!(e.should_quit());
}

#[test]
fn horizontal_movement_wraps_at_line_boundaries() {
    let mut e = editor_with_text("ab\ncd");
    // Left at the document start stays put.
    e.process_keypress(Key::Left);
    assert_eq!(cursor(&e), (0, 0));
    // Right at the end of a line moves to the start of the next one.
    e.process_keypress(Key::Char('$'));
    assert_eq!(cursor(&e), (2, 0));
    e.process_keypress(Key::Right);
    assert_eq!(cursor(&e), (0, 1));
    // Left at the start of a line moves to the end of the previous one.
    e.process_keypress(Key::Left);
    assert_eq!(cursor(&e), (2, 0));
}

#[test]
fn vertical_movement_clamps_to_document_bounds() {
    let mut e = editor_with_text("ab\ncd");
    e.process_keypress(Key::Up);
    assert_eq!(cursor(&e), (0, 0));
    e.process_keypress(Key::Down);
    assert_eq!(cursor(&e), (0, 1));
    e.process_keypress(Key::Down);
    assert_eq!(cursor(&e), (0, 2));
    // One past the last line is the limit.
    e.process_keypress(Key::Down);
    assert_eq!(cursor(&e), (0, 2));
}

#[test]
fn home_and_end_keys_jump_within_the_line() {
    let mut e = editor_with_text("abcd");
    e.process_keypress(Key::End);
    assert_eq!(cursor(&e), (4, 0));
    e.process_keypress(Key::Home);
    assert_eq!(cursor(&e), (0, 0));
    e.process_keypress(Key::Char('$'));
    assert_eq!(cursor(&e), (4, 0));
    e.process_keypress(Key::Char('0'));
    assert_eq!(cursor(&e), (0, 0));
}

#[test]
fn page_movement_jumps_by_viewport_height() {
    let text = vec!["x"; 30].join("\n");
    let mut e = editor_with_text(&text);
    // Terminal::new(80, 12) leaves a 10-row viewport.
    e.process_keypress(Key::PageDown);
    assert_eq!(cursor(&e), (0, 10));
    e.process_keypress(Key::PageDown);
    assert_eq!(cursor(&e), (0, 20));
    e.process_keypress(Key::PageUp);
    assert_eq!(cursor(&e), (0, 10));
    e.process_keypress(Key::PageUp);
    assert_eq!(cursor(&e), (0, 0));
}

#[test]
fn page_down_clamps_to_document_height() {
    let mut e = editor_with_text("a\nb");
    e.process_keypress(Key::PageDown);
    assert_eq!(cursor(&e), (0, 2));
}

#[test]
fn cursor_column_is_pulled_back_to_shorter_lines() {
    let mut e = editor_with_text("abcd\nx");
    e.process_keypress(Key::End);
    assert_eq!(cursor(&e), (4, 0));
    e.process_keypress(Key::Down);
    e.process_keypress(Key::Right);
    // The column was clamped to the short line's end before moving.
    assert_eq!(cursor(&e), (0, 2));
}

#[test]
fn scrolling_follows_the_cursor_down_and_back_up() {
    let text = vec!["x"; 30].join("\n");
    let mut e = editor_with_text(&text);
    e.process_keypress(Key::PageDown);
    e.process_keypress(Key::PageDown);
    // Cursor is on row 20 and the window is 10 tall.
    let off = e.offset();
    assert_eq!(off.y, 11);
    e.process_keypress(Key::PageUp);
    e.process_keypress(Key::PageUp);
    assert_eq!(e.offset().y, 0);
}

#[test]
fn normal_mode_a_steps_right_then_enters_insert() {
    let mut e = editor_with_text("ab");
    e.process_keypress(Key::Char('a'));
    assert_eq!(e.current_mode(), PossibleModes::Insert);
    assert_eq!(cursor(&e), (1, 0));
}

#[test]
fn normal_mode_o_opens_a_line_below() {
    let mut e = editor_with_text("ab\ncd");
    e.process_keypress(Key::Char('o'));
    assert_eq!(e.current_mode(), PossibleModes::Insert);
    assert_eq!(e.document.len(), 3);
    assert_eq!(line(&e, 1), "");
    assert_eq!(line(&e, 2), "cd");
}

#[test]
fn normal_mode_v_enters_visual_and_esc_leaves_it() {
    let mut e = editor_with_text("ab");
    e.process_keypress(Key::Char('v'));
    assert_eq!(e.current_mode(), PossibleModes::Visual);
    e.process_keypress(Key::Esc);
    assert_eq!(e.current_mode(), PossibleModes::Normal);
}

#[test]
fn unrecognized_normal_key_enters_operator_pending() {
    let mut e = editor_with_text("ab");
    e.process_keypress(Key::Char('x'));
    assert_eq!(e.current_mode(), PossibleModes::OperatorPending);
    e.process_keypress(Key::Esc);
    assert_eq!(e.current_mode(), PossibleModes::Normal);
}

#[test]
fn hjkl_move_like_the_arrows() {
    let mut e = editor_with_text("ab\ncd");
    e.process_keypress(Key::Char('j'));
    assert_eq!(cursor(&e), (0, 1));
    e.process_keypress(Key::Char('l'));
    assert_eq!(cursor(&e), (1, 1));
    e.process_keypress(Key::Char('k'));
    assert_eq!(cursor(&e), (1, 0));
    e.process_keypress(Key::Char('h'));
    assert_eq!(cursor(&e), (0, 0));
}

#[test]
fn ctrl_d_and_ctrl_u_page_in_normal_mode() {
    let text = vec!["x"; 30].join("\n");
    let mut e = editor_with_text(&text);
    e.process_keypress(Key::Ctrl('d'));
    assert_eq!(cursor(&e), (0, 10));
    e.process_keypress(Key::Ctrl('u'));
    assert_eq!(cursor(&e), (0, 0));
}

#[test]
fn insert_mode_enter_breaks_the_line() {
    let mut e = editor_with_text("abcd");
    e.process_keypress(Key::Char('i'));
    e.process_keypress(Key::Right);
    e.process_keypress(Key::Right);
    e.process_keypress(Key::Enter);
    assert_eq!(e.document.len(), 2);
    assert_eq!(line(&e, 0), "ab");
    assert_eq!(line(&e, 1), "cd");
}

#[test]
fn insert_mode_backspace_deletes_to_the_left() {
    let mut e = editor_with_text("abc");
    e.process_keypress(Key::Char('i'));
    e.process_keypress(Key::Right);
    e.process_keypress(Key::Backspace);
    assert_eq!(line(&e, 0), "bc");
    assert_eq!(cursor(&e), (0, 0));
}

#[test]
fn insert_mode_backspace_at_document_start_does_nothing() {
    let mut e = editor_with_text("abc");
    e.process_keypress(Key::Char('i'));
    e.process_keypress(Key::Backspace);
    assert_eq!(line(&e, 0), "abc");
    assert!(!e.document.is_dirty());
}

#[test]
fn insert_mode_backspace_at_line_start_joins_lines() {
    let mut e = editor_with_text("ab\ncd");
    e.process_keypress(Key::Char('j'));
    e.process_keypress(Key::Char('i'));
    e.process_keypress(Key::Backspace);
    assert_eq!(e.document.len(), 1);
    assert_eq!(line(&e, 0), "abcd");
    assert_eq!(cursor(&e), (2, 0));
}

#[test]
fn insert_mode_delete_removes_under_the_cursor() {
    let mut e = editor_with_text("abc");
    e.process_keypress(Key::Char('i'));
    e.process_keypress(Key::Delete);
    assert_eq!(line(&e, 0), "bc");
    assert_eq!(cursor(&e), (0, 0));
}

#[test]
fn insert_mode_tab_inserts_the_configured_spaces() {
    let mut e = editor_with_text("ab");
    e.process_keypress(Key::Char('i'));
    e.process_keypress(Key::Tab);
    assert_eq!(line(&e, 0), "    ab");
    assert_eq!(cursor(&e), (4, 0));
}

#[test]
fn search_step_moves_the_cursor_to_a_match() {
    let mut e = editor_with_text("xxabcyy\nzzz");
    let dir = e.search_step(Key::Char('c'), "abc", SearchDirection::Forward);
    assert_eq!(dir, SearchDirection::Forward);
    assert_eq!(cursor(&e), (2, 0));
}

#[test]
fn search_step_right_nudges_past_the_current_match_and_undoes_a_fruitless_nudge() {
    let mut e = editor_with_text("xxabcyy\nzzz");
    e.search_step(Key::Char('c'), "abc", SearchDirection::Forward);
    assert_eq!(cursor(&e), (2, 0));
    // No second occurrence: the nudge right is rolled back.
    let dir = e.search_step(Key::Right, "abc", SearchDirection::Forward);
    assert_eq!(dir, SearchDirection::Forward);
    assert_eq!(cursor(&e), (2, 0));
}

#[test]
fn search_step_left_switches_to_backward() {
    let mut e = editor_with_text("ab\nab");
    e.process_keypress(Key::Char('j'));
    e.process_keypress(Key::Char('$'));
    let dir = e.search_step(Key::Left, "ab", SearchDirection::Forward);
    assert_eq!(dir, SearchDirection::Backward);
    assert_eq!(cursor(&e), (0, 1));
}

#[test]
fn prompt_step_collects_and_edits_the_line() {
    let mut line = String::new();
    assert_eq!(prompt_step(&mut line, Key::Char('h')), PromptStatus::Pending);
    assert_eq!(prompt_step(&mut line, Key::Char('i')), PromptStatus::Pending);
    assert_eq!(line, "hi");
    assert_eq!(prompt_step(&mut line, Key::Backspace), PromptStatus::Pending);
    assert_eq!(line, "h");
    assert_eq!(prompt_step(&mut line, Key::Enter), PromptStatus::Accept);
    assert_eq!(line, "h");
}

#[test]
fn prompt_step_backspace_on_empty_line_keeps_it_empty() {
    let mut line = String::new();
    assert_eq!(prompt_step(&mut line, Key::Backspace), PromptStatus::Pending);
    assert_eq!(line, "");
}

#[test]
fn prompt_step_esc_cancels_and_clears() {
    let mut line = String::from("abc");
    assert_eq!(prompt_step(&mut line, Key::Esc), PromptStatus::Cancel);
    assert_eq!(line, "");
}

#[test]
fn prompt_step_ignores_navigation_keys() {
    let mut line = String::from("ab");
    assert_eq!(prompt_step(&mut line, Key::Right), PromptStatus::Pending);
    assert_eq!(line, "ab");
}

#[test]
fn execute_command_quit_and_aliases() {
    for cmd in ["q", "quit"] {
        let mut e = editor_with_text("x");
        assert_eq!(e.execute_command(cmd), CommandResult::Quit);
        assert!(e.should_quit());
    }
}

#[test]
fn execute_command_save_and_aliases() {
    for cmd in ["w", "save"] {
        let mut e = editor_with_text("x");
        assert_eq!(e.execute_command(cmd), CommandResult::Save);
        assert!(!e.should_quit());
    }
}

#[test]
fn execute_command_reports_unknown_commands() {
    let mut e = editor_with_text("x");
    assert_eq!(e.execute_command("frobnicate"), CommandResult::Unrecognized);
    assert_eq!(e.status_text().as_str(), "Not an editor command: frobnicate");
}

#[test]
fn colon_asks_for_the_command_prompt() {
    let mut e = editor_with_text("x");
    assert_eq!(e.process_keypress(Key::Char(':')), KeyOutcome::CommandPrompt);
    assert_eq!(e.current_mode(), PossibleModes::Normal);
}

#[test]
fn ctrl_s_and_ctrl_f_ask_the_application_to_act() {
    let mut e = editor_with_text("x");
    assert_eq!(e.process_keypress(Key::Ctrl('s')), KeyOutcome::Save);
    assert_eq!(e.process_keypress(Key::Ctrl('f')), KeyOutcome::SearchPrompt);
    assert_eq!(e.process_keypress(Key::Char('j')), KeyOutcome::Done);
}

#[test]
fn cancel_prompt_restores_the_saved_cursor() {
    let mut e = editor_with_text("abcd\nefgh");
    let saved = e.cursor_position();
    e.process_keypress(Key::Char('j'));
    e.process_keypress(Key::Char('l'));
    assert_ne!(cursor(&e), (saved.x, saved.y));
    e.cancel_prompt(saved);
    assert_eq!(cursor(&e), (0, 0));
}

#[test]
fn report_save_result_success_cleans_and_reports() {
    let mut e = editor_with_text("x");
    e.process_keypress(Key::Char('i'));
    e.process_keypress(Key::Char('y'));
    e.process_keypress(Key::Esc);
    assert!(e.document.is_dirty());
    e.report_save_result(true);
    assert!(!e.document.is_dirty());
    assert_eq!(e.status_text().as_str(), "File saved successfully.");
}

#[test]
fn report_save_result_failure_stays_dirty() {
    let mut e = editor_with_text("x");
    e.process_keypress(Key::Char('i'));
    e.process_keypress(Key::Char('y'));
    e.process_keypress(Key::Esc);
    e.report_save_result(false);
    assert!(e.document.is_dirty());
    assert_eq!(e.status_text().as_str(), "ERROR: Could not save file!");
}

#[test]
fn report_save_aborted_sets_the_message() {
    let mut e = editor_with_text("x");
    e.report_save_aborted();
    assert_eq!(e.status_text().as_str(), "File save aborted.");
}

#[test]
fn new_editor_starts_in_normal_mode_with_full_quit_count() {
    let e = editor_over(Document::default());
    assert!(!e.should_quit());
    assert_eq!(e.current_mode(), PossibleModes::Normal);
    assert_eq!(e.quit_times(), QUIT_TIMES);
    assert_eq!(cursor(&e), (0, 0));
    let off = e.offset();
    assert_eq!((off.x, off.y), (0, 0));
}

#[test]
fn status_message_keeps_its_text() {
    let m = StatusMessage::from("hello".to_string());
    assert_eq!(m.text, "hello");
    let mut e = editor_with_text("x");
    e.set_status("look here".to_string());
    assert_eq!(e.status_text().as_str(), "look here");
}

#[test]
fn mode_switch_returns_the_cursor_shape_hint() {
    let mut m = Mode::default();
    assert_eq!(m.current_mode, PossibleModes::Normal);
    assert_eq!(m.switch(PossibleModes::Insert), CursorStyle::BlinkingBar);
    assert_eq!(m.current_mode, PossibleModes::Insert);
    assert_eq!(m.switch(PossibleModes::Visual), CursorStyle::SteadyBlock);
    assert_eq!(m.switch(PossibleModes::OperatorPending), CursorStyle::SteadyUnderScore);
    assert_eq!(m.switch(PossibleModes::Normal), CursorStyle::BlinkingBlock);
    // Prompt-driven modes leave the machine in Normal.
    assert_eq!(m.switch(PossibleModes::Command), CursorStyle::BlinkingBlock);
    assert_eq!(m.current_mode, PossibleModes::Normal);
}

#[test]
fn mode_labels_and_colors_cover_every_mode() {
    let modes = [
        (PossibleModes::Normal, "Normal", Color::Blue),
        (PossibleModes::Insert, "Insert", Color::Red),
        (PossibleModes::Visual, "Visual", Color::Green),
        (PossibleModes::Command, "Command", Color::Magenta),
        (PossibleModes::Search, "Search", Color::Yellow),
        (PossibleModes::OperatorPending, "Operator pending", Color::Cyan),
    ];
    for (mode, label, color) in modes {
        assert_eq!(mode.label(), label);
        assert_eq!(mode.to_color(), color);
    }
}

#[test]
fn token_kinds_map_to_ansi_escape_codes() {
    assert_eq!(Type::Match.to_color(), "\x1b[7m\x1b[33m");
    assert_eq!(Type::Number.to_color(), "\x1b[31m");
    assert_eq!(Type::String.to_color(), "\x1b[32m");
    assert_eq!(Type::Character.to_color(), "\x1b[33m");
    assert_eq!(Type::Comment.to_color(), "\x1b[34m");
    assert_eq!(Type::MultilineComment.to_color(), "\x1b[35m");
    assert_eq!(Type::PrimaryKeywords.to_color(), "\x1b[36m");
    assert_eq!(Type::SecondaryKeywords.to_color(), "\x1b[36m");
    assert_eq!(Type::Plain.to_color(), "\x1b[0m");
}

#[test]
fn command_registry_holds_quit_and_save() {
    let commands = Commands::new();
    assert_eq!(commands.commands.len(), 2);
    assert_eq!(commands.commands[0].name, "quit");
    assert_eq!(commands.commands[0].aliases, vec!["q".to_string()]);
    assert_eq!(commands.commands[1].name, "save");
    assert_eq!(commands.commands[1].aliases, vec!["w".to_string()]);
}

#[test]
fn command_new_keeps_its_fields() {
    let c = Command::new("quit".to_string(), vec!["q".to_string()], vec![]);
    assert_eq!(c.name, "quit");
    assert_eq!(c.aliases, vec!["q".to_string()]);
    assert!(c.args.is_empty());
}

#[test]
fn default_settings_match_the_built_in_configuration() {
    let s = Settings::default();
    assert_eq!(s.editor.indent_size, 4);
    assert_eq!(s.editor.tab_size, 4);
    assert_eq!(s.editor.line_numbers, "relative");
    assert_eq!(s.appearance.theme, "base16-ocean.dark");
    assert!(!s.general.debug);
    assert_eq!(s.general.log_level, "info");
}

#[test]
fn terminal_reserves_two_rows_for_the_bars() {
    let t = Terminal::new(80, 26);
    let Size { width, height } = *t.size();
    assert_eq!(width, 80);
    assert_eq!(height, 24);
    let tiny = Terminal::new(10, 1);
    assert_eq!(tiny.size().height, 0);
}

#[test]
fn positions_are_plain_column_row_pairs() {
    let p = Position::new(3, 7);
    assert_eq!(p.x, 3);
    assert_eq!(p.y, 7);
    let origin = Position::default();
    assert_eq!((origin.x, origin.y), (0, 0));
}

#[test]
fn keypresses_convert_to_actions() {
    let mode = Mode::default();
    assert_eq!(
        convert_keypress_to_action(Key::Up, &mode),
        Some(Action::Move(MovementType::Character, Direction::Up, Count::Number(1)))
    );
    assert_eq!(
        convert_keypress_to_action(Key::Char('z'), &mode),
        Some(Action::Move(MovementType::Character, Direction::Forward, Count::Number(0)))
    );
}

#[test]
fn move_cursor_word_is_not_yet_a_motion() {
    let mut e = editor_with_text("ab cd");
    e.process_keypress(Key::Char('w'));
    assert_eq!(cursor(&e), (0, 0));
    assert_eq!(e.current_mode(), PossibleModes::Normal);
}
