use guessing_game::dispatch::Key;
use guessing_game::dispatch::KeyKind;
use guessing_game::state::App;
use guessing_game::state::Focus;

fn type_str(app: &mut App, s: &str) {
    for c in s.chars() {
        app.enter_char(c);
    }
}

#[test]
fn low_guess_scenario() {
    let mut app = App::with_target(42);
    type_str(&mut app, "10");
    app.submit_answer_with(0);
    assert_eq!(app.guesses_low, 1);
    assert_eq!(app.guesses_high, 0);
    assert_eq!(app.guesses_right, 0);
    assert_eq!(app.messages.len(), 1);
    assert_eq!(app.messages[0].as_str(), "10: too low!");
    assert_eq!(app.deviations, vec![-32]);
    assert_eq!(app.previous_guesses, vec![10]);
    assert_eq!(app.input, Vec::<char>::new());
    assert_eq!(app.character_index, 0);
    assert_eq!(app.hidden_number, 42);
}

#[test]
fn high_guess_scenario() {
    let mut app = App::with_target(42);
    type_str(&mut app, "99");
    app.submit_answer_with(0);
    assert_eq!(app.guesses_high, 1);
    assert_eq!(app.messages[0].as_str(), "99: too high!");
    assert_eq!(app.deviations, vec![57]);
    assert_eq!(app.hidden_number, 42);
}

#[test]
fn non_numeric_submission_is_discarded() {
    let mut app = App::with_target(42);
    type_str(&mut app, "abc");
    app.submit_answer_with(0);
    assert_eq!(app.previous_guesses.len(), 0);
    assert_eq!(app.deviations.len(), 0);
    assert_eq!(app.messages.len(), 0);
    assert_eq!(app.guesses_low, 0);
    assert_eq!(app.guesses_high, 0);
    assert_eq!(app.guesses_right, 0);
    assert_eq!(app.input, Vec::<char>::new());
    assert_eq!(app.character_index, 0);
}

#[test]
fn correct_guess_resamples_target() {
    let mut app = App::with_target(42);
    type_str(&mut app, "42");
    app.submit_answer();
    assert_eq!(app.guesses_right, 1);
    assert_eq!(app.messages.len(), 1);
    assert!(app.messages[0].ends_with("yay you did it! picking a new number... "));
    assert_eq!(app.messages[0].as_str(), "42: yay you did it! picking a new number... ");
    assert_eq!(app.deviations, vec![0]);
    assert!(0 <= app.hidden_number && app.hidden_number < 100);
}

#[test]
fn correct_guess_with_fixed_resample() {
    let mut app = App::with_target(7);
    type_str(&mut app, "7");
    app.submit_answer_with(63);
    assert_eq!(app.guesses_right, 1);
    assert_eq!(app.hidden_number, 63);
}

#[test]
fn backspace_in_middle_of_input() {
    let mut app = App::with_target(42);
    app.set_focus(Focus::Editing);
    type_str(&mut app, "12");
    app.move_cursor_left();
    assert_eq!(app.character_index, 1);
    let quit = app.handle_key(Key::Backspace, KeyKind::Press);
    assert!(!quit);
    assert_eq!(app.input, vec!['2']);
    assert_eq!(app.character_index, 0);
}

#[test]
fn quit_only_from_normal_focus() {
    let mut app = App::with_target(42);
    assert!(matches!(app.focus, Focus::Normal));
    let quit = app.handle_key(Key::Char('q'), KeyKind::Press);
    assert!(quit);

    let mut app = App::with_target(42);
    app.set_focus(Focus::Editing);
    let quit = app.handle_key(Key::Char('q'), KeyKind::Press);
    assert!(!quit);
    assert_eq!(app.input, vec!['q']);
    assert_eq!(app.character_index, 1);
}

#[test]
fn normal_focus_accepts_any_event_kind() {
    let mut app = App::with_target(42);
    let quit = app.handle_key(Key::Char('q'), KeyKind::Other);
    assert!(quit);

    let mut app = App::with_target(42);
    let quit = app.handle_key(Key::Char('e'), KeyKind::Other);
    assert!(!quit);
    assert!(matches!(app.focus, Focus::Editing));
}

#[test]
fn editing_focus_ignores_non_press_events() {
    let mut app = App::with_target(42);
    app.set_focus(Focus::Editing);
    let quit = app.handle_key(Key::Char('x'), KeyKind::Other);
    assert!(!quit);
    assert_eq!(app.input.len(), 0);
    let quit = app.handle_key(Key::Backspace, KeyKind::Other);
    assert!(!quit);
}

#[test]
fn escape_returns_to_normal_focus() {
    let mut app = App::with_target(42);
    app.set_focus(Focus::Editing);
    let quit = app.handle_key(Key::Esc, KeyKind::Press);
    assert!(!quit);
    assert!(matches!(app.focus, Focus::Normal));
}

#[test]
fn ignored_keys_change_nothing() {
    let mut app = App::with_target(42);
    let quit = app.handle_key(Key::Char('x'), KeyKind::Press);
    assert!(!quit);
    assert!(matches!(app.focus, Focus::Normal));
    assert_eq!(app.input.len(), 0);

    app.set_focus(Focus::Editing);
    let quit = app.handle_key(Key::Other, KeyKind::Press);
    assert!(!quit);
    assert_eq!(app.input.len(), 0);
}

#[test]
fn enter_submits_through_dispatch() {
    let mut app = App::with_target(42);
    app.set_focus(Focus::Editing);
    type_str(&mut app, "50");
    let quit = app.handle_key(Key::Enter, KeyKind::Press);
    assert!(!quit);
    assert_eq!(app.guesses_high, 1);
    assert_eq!(app.messages[0].as_str(), "50: too high!");
    assert_eq!(app.input.len(), 0);
}

#[test]
fn cursor_movement_is_clamped() {
    let mut app = App::with_target(42);
    app.move_cursor_left();
    assert_eq!(app.character_index, 0);
    app.move_cursor_right();
    assert_eq!(app.character_index, 0);
    type_str(&mut app, "12");
    assert_eq!(app.character_index, 2);
    app.move_cursor_right();
    assert_eq!(app.character_index, 2);
    app.move_cursor_left();
    app.move_cursor_left();
    app.move_cursor_left();
    assert_eq!(app.character_index, 0);
    app.delete_char();
    assert_eq!(app.input, vec!['1', '2']);
    assert_eq!(app.character_index, 0);
}

#[test]
fn insert_at_cursor_position() {
    let mut app = App::with_target(42);
    type_str(&mut app, "13");
    app.move_cursor_left();
    app.enter_char('2');
    assert_eq!(app.input, vec!['1', '2', '3']);
    assert_eq!(app.character_index, 2);
}

#[test]
fn reset_cursor_and_clear_input() {
    let mut app = App::with_target(42);
    type_str(&mut app, "123");
    app.reset_cursor();
    assert_eq!(app.character_index, 0);
    app.clear_input();
    assert_eq!(app.input.len(), 0);
    assert_eq!(app.character_index, 0);
}

#[test]
fn empty_submission_is_discarded() {
    let mut app = App::with_target(42);
    app.submit_answer_with(0);
    assert_eq!(app.messages.len(), 0);
    assert_eq!(app.deviations.len(), 0);
}

#[test]
fn sign_only_submissions_are_discarded() {
    let mut app = App::with_target(42);
    type_str(&mut app, "+");
    app.submit_answer_with(0);
    type_str(&mut app, "-");
    app.submit_answer_with(0);
    assert_eq!(app.messages.len(), 0);
}

#[test]
fn signed_guesses_parse() {
    let mut app = App::with_target(42);
    type_str(&mut app, "+12");
    app.submit_answer_with(0);
    assert_eq!(app.previous_guesses, vec![12]);
    type_str(&mut app, "-5");
    app.submit_answer_with(0);
    assert_eq!(app.previous_guesses, vec![12, -5]);
    assert_eq!(app.deviations, vec![-30, -47]);
    assert_eq!(app.messages[1].as_str(), "-5: too low!");
}

#[test]
fn leading_zeros_parse() {
    let mut app = App::with_target(42);
    type_str(&mut app, "0012");
    app.submit_answer_with(0);
    assert_eq!(app.previous_guesses, vec![12]);
    assert_eq!(app.messages[0].as_str(), "12: too low!");
}

#[test]
fn extreme_guesses_parse_at_the_i32_bounds() {
    let mut app = App::with_target(0);
    type_str(&mut app, "2147483647");
    app.submit_answer_with(0);
    assert_eq!(app.previous_guesses, vec![i32::MAX]);
    assert_eq!(app.deviations, vec![2147483647i64]);
    type_str(&mut app, "-2147483648");
    app.submit_answer_with(0);
    assert_eq!(app.previous_guesses, vec![i32::MAX, i32::MIN]);
    assert_eq!(app.deviations, vec![2147483647i64, -2147483648i64]);
    assert_eq!(app.messages[1].as_str(), "-2147483648: too low!");
}

#[test]
fn out_of_range_guesses_are_discarded() {
    let mut app = App::with_target(42);
    type_str(&mut app, "2147483648");
    app.submit_answer_with(0);
    type_str(&mut app, "-2147483649");
    app.submit_answer_with(0);
    type_str(&mut app, "99999999999999999999");
    app.submit_answer_with(0);
    assert_eq!(app.messages.len(), 0);
    assert_eq!(app.previous_guesses.len(), 0);
}

#[test]
fn embedded_garbage_is_discarded() {
    let mut app = App::with_target(42);
    type_str(&mut app, "1 2");
    app.submit_answer_with(0);
    type_str(&mut app, "12x");
    app.submit_answer_with(0);
    type_str(&mut app, "--5");
    app.submit_answer_with(0);
    assert_eq!(app.messages.len(), 0);
}

#[test]
fn new_app_starts_fresh_with_target_in_range() {
    let app = App::new();
    assert!(matches!(app.focus, Focus::Normal));
    assert!(0 <= app.hidden_number && app.hidden_number < 100);
    assert_eq!(app.input.len(), 0);
    assert_eq!(app.character_index, 0);
    assert_eq!(app.previous_guesses.len(), 0);
    assert_eq!(app.deviations.len(), 0);
    assert_eq!(app.messages.len(), 0);
    assert_eq!(app.guesses_low, 0);
    assert_eq!(app.guesses_high, 0);
    assert_eq!(app.guesses_right, 0);
}

#[test]
fn resampled_targets_stay_in_range() {
    let mut app = App::with_target(55);
    for round in 0..50 {
        let target = app.hidden_number;
        assert!(0 <= target && target < 100);
        type_str(&mut app, &target.to_string());
        app.submit_answer();
        assert_eq!(app.guesses_right, round + 1);
        assert_eq!(app.deviations[round as usize], 0);
    }
}
