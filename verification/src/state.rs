//! Application state of the guessing game: focus mode, editable input
//! buffer with a character cursor, the hidden target, and the history of
//! guesses, deviations, result messages and per-outcome counters.
//!
//! Every mutator is specified against [`AppView`], a mathematical view of
//! the state, and preserves the state's well-formedness invariant.

use vstd::prelude::*;
use vstd::string::StringExecFns;

use crate::digits::i32_to_string;
use crate::digits::int_rep;
use crate::parse::parse_i32;
use crate::parse::parse_ok;
use crate::parse::parse_val;

verus! {

/// Which of the two input-handling behaviours is active: menu navigation
/// (`Normal`) or text editing (`Editing`).
#[derive(Clone, Copy, Debug, PartialEq, Eq, Structural)]
pub enum Focus {
    Normal,
    Editing,
}

/// Mathematical view of [`App`]: sequences and unbounded integers in place
/// of vectors and machine words.
#[verifier::ext_equal]
pub struct AppView {
    pub focus: Focus,
    pub input: Seq<char>,
    pub cursor: int,
    pub target: int,
    pub guesses: Seq<int>,
    pub deviations: Seq<int>,
    pub messages: Seq<Seq<char>>,
    pub low: int,
    pub high: int,
    pub right: int,
}

impl AppView {
    /// Well-formedness: the cursor lies within the input buffer, the target
    /// lies in `[0, 100)`, the three history sequences run in parallel, and
    /// the counters sum to the number of successful submissions.
    pub open spec fn wf(self) -> bool {
        &&& 0 <= self.cursor <= self.input.len()
        &&& 0 <= self.target < 100
        &&& self.guesses.len() == self.deviations.len()
        &&& self.messages.len() == self.deviations.len()
        &&& self.low >= 0
        &&& self.high >= 0
        &&& self.right >= 0
        &&& self.low + self.high + self.right == self.deviations.len()
    }
}

/// The whole application state. All fields are public so that a renderer
/// can take a read-only snapshot; only the mutators below change them.
pub struct App {
    pub focus: Focus,
    pub input: Vec<char>,
    pub character_index: usize,
    pub hidden_number: i32,
    pub previous_guesses: Vec<i32>,
    pub deviations: Vec<i64>,
    pub messages: Vec<String>,
    pub guesses_low: u64,
    pub guesses_high: u64,
    pub guesses_right: u64,
}

impl View for App {
    type V = AppView;

    open spec fn view(&self) -> AppView {
        AppView {
            focus: self.focus,
            input: self.input@,
            cursor: self.character_index as int,
            target: self.hidden_number as int,
            guesses: self.previous_guesses@.map_values(|g: i32| g as int),
            deviations: self.deviations@.map_values(|d: i64| d as int),
            messages: self.messages@.map_values(|m: String| m@),
            low: self.guesses_low as int,
            high: self.guesses_high as int,
            right: self.guesses_right as int,
        }
    }
}

/// The view after inserting `c` at the cursor.
pub open spec fn insert_view(v: AppView, c: char) -> AppView {
    AppView { input: v.input.insert(v.cursor, c), cursor: v.cursor + 1, ..v }
}

/// The view after deleting the character before the cursor: unchanged when
/// the cursor sits at the start.
pub open spec fn delete_view(v: AppView) -> AppView {
    if v.cursor > 0 {
        AppView { input: v.input.remove(v.cursor - 1), cursor: v.cursor - 1, ..v }
    } else {
        v
    }
}

/// The view after moving the cursor one step left, clamped at the start.
pub open spec fn left_view(v: AppView) -> AppView {
    AppView { cursor: if v.cursor > 0 { v.cursor - 1 } else { 0 }, ..v }
}

/// The view after moving the cursor one step right, clamped at the end of
/// the input.
pub open spec fn right_view(v: AppView) -> AppView {
    AppView { cursor: if v.cursor < v.input.len() { v.cursor + 1 } else { v.cursor }, ..v }
}

/// However the buffer is edited — characters inserted or deleted, the
/// cursor moved either way — the cursor stays within the bounds of the
/// buffer. Together with the mutators' contracts this carries the cursor
/// invariant through every sequence of editing operations.
pub proof fn lemma_cursor_stays_in_bounds(v: AppView, c: char)
    requires
        v.wf(),
    ensures
        0 <= insert_view(v, c).cursor <= insert_view(v, c).input.len(),
        0 <= delete_view(v).cursor <= delete_view(v).input.len(),
        0 <= left_view(v).cursor <= left_view(v).input.len(),
        0 <= right_view(v).cursor <= right_view(v).input.len(),
{
}

/// The result text reported for a guess `g` against the target `t`.
pub open spec fn outcome_text(g: int, t: int) -> Seq<char> {
    if g < t {
        "too low!"@
    } else if g > t {
        "too high!"@
    } else {
        "yay you did it! picking a new number... "@
    }
}

/// The message recorded for a successful submission: the guess in decimal,
/// a separator, and the result text.
pub open spec fn message_of(g: int, t: int) -> Seq<char> {
    int_rep(g) + ": "@ + outcome_text(g, t)
}

/// The view after submitting the input buffer as a guess.
///
/// When the buffer does not parse, only the buffer and cursor change:
/// both are cleared. When it parses to `g`, the guess, its deviation from
/// the target, and the result message are appended, exactly one counter
/// steps, and on a correct guess the target becomes `resample`.
pub open spec fn submit_view(v: AppView, resample: int) -> AppView {
    if !parse_ok(v.input) {
        AppView { input: Seq::empty(), cursor: 0, ..v }
    } else {
        let g = parse_val(v.input);
        AppView {
            focus: v.focus,
            input: Seq::empty(),
            cursor: 0,
            target: if g == v.target {
                resample
            } else {
                v.target
            },
            guesses: v.guesses.push(g),
            deviations: v.deviations.push(g - v.target),
            messages: v.messages.push(message_of(g, v.target)),
            low: if g < v.target {
                v.low + 1
            } else {
                v.low
            },
            high: if g > v.target {
                v.high + 1
            } else {
                v.high
            },
            right: if g == v.target {
                v.right + 1
            } else {
                v.right
            },
        }
    }
}

/// On a successful submission exactly one of the three counters steps by
/// one, and the recorded deviation is the guess minus the target that
/// stood before the submission.
pub proof fn lemma_submission_outcome(v: AppView, resample: int)
    requires
        parse_ok(v.input),
    ensures
        ({
            let w = submit_view(v, resample);
            let g = parse_val(v.input);
            &&& w.deviations.last() == g - v.target
            &&& {
                ||| (w.low == v.low + 1 && w.high == v.high && w.right == v.right)
                ||| (w.high == v.high + 1 && w.low == v.low && w.right == v.right)
                ||| (w.right == v.right + 1 && w.low == v.low && w.high == v.high)
            }
        }),
{
}

/// Relies on rand::random_range: a uniform sample within the given range,
/// here `0..100`.
#[verifier::external_body]
fn sample_target() -> (r: i32)
    ensures
        0 <= r < 100,
{
    rand::random_range(0..100)
}

impl App {
    /// A fresh state with the given hidden target: Normal focus, empty
    /// input, empty history.
    pub fn with_target(target: i32) -> (r: App)
        requires
            0 <= target < 100,
        ensures
            r@.wf(),
            r@.focus is Normal,
            r@.input.len() == 0,
            r@.cursor == 0,
            r@.target == target as int,
            r@.guesses.len() == 0,
            r@.deviations.len() == 0,
            r@.messages.len() == 0,
            r@.low == 0,
            r@.high == 0,
            r@.right == 0,
    {
        let r = App {
            focus: Focus::Normal,
            input: Vec::new(),
            character_index: 0,
            hidden_number: target,
            previous_guesses: Vec::new(),
            deviations: Vec::new(),
            messages: Vec::new(),
            guesses_low: 0,
            guesses_high: 0,
            guesses_right: 0,
        };
        proof {
            assert(r@.guesses =~= Seq::<int>::empty());
            assert(r@.deviations =~= Seq::<int>::empty());
            assert(r@.messages =~= Seq::<Seq<char>>::empty());
        }
        r
    }

    /// A fresh state with a randomly drawn hidden target.
    pub fn new() -> (r: App)
        ensures
            r@.wf(),
            r@.focus is Normal,
            r@.input.len() == 0,
            r@.cursor == 0,
            0 <= r@.target < 100,
            r@.guesses.len() == 0,
            r@.deviations.len() == 0,
            r@.messages.len() == 0,
            r@.low == 0,
            r@.high == 0,
            r@.right == 0,
    {
        App::with_target(sample_target())
    }

    /// Inserts `c` into the input buffer at the cursor and advances the
    /// cursor past it.
    pub fn enter_char(&mut self, c: char)
        requires
            old(self)@.wf(),
        ensures
            final(self)@.wf(),
            final(self)@ == insert_view(old(self)@, c),
    {
        self.input.insert(self.character_index, c);
        // The grown buffer's length bounds the old cursor away from
        // usize::MAX, so the increment below cannot overflow.
        let _ = self.input.len();
        self.character_index = self.character_index + 1;
        proof {
            assert(final(self)@ =~= insert_view(old(self)@, c));
        }
    }

    /// Removes the character immediately before the cursor and moves the
    /// cursor back onto its place; does nothing when the cursor is at the
    /// start.
    pub fn delete_char(&mut self)
        requires
            old(self)@.wf(),
        ensures
            final(self)@.wf(),
            final(self)@ == delete_view(old(self)@),
    {
        if self.character_index > 0 {
            self.character_index = self.character_index - 1;
            self.input.remove(self.character_index);
        }
        proof {
            assert(final(self)@ =~= delete_view(old(self)@));
        }
    }

    /// Moves the cursor one step left, staying at the start of the buffer.
    pub fn move_cursor_left(&mut self)
        requires
            old(self)@.wf(),
        ensures
            final(self)@.wf(),
            final(self)@ == left_view(old(self)@),
    {
        if self.character_index > 0 {
            self.character_index = self.character_index - 1;
        }
        proof {
            assert(final(self)@ =~= left_view(old(self)@));
        }
    }

    /// Moves the cursor one step right, staying at the end of the buffer.
    pub fn move_cursor_right(&mut self)
        requires
            old(self)@.wf(),
        ensures
            final(self)@.wf(),
            final(self)@ == right_view(old(self)@),
    {
        if self.character_index < self.input.len() {
            self.character_index = self.character_index + 1;
        }
        proof {
            assert(final(self)@ =~= right_view(old(self)@));
        }
    }

    /// Puts the cursor back at the start of the buffer.
    pub fn reset_cursor(&mut self)
        requires
            old(self)@.wf(),
        ensures
            final(self)@.wf(),
            final(self)@ == (AppView { cursor: 0, ..old(self)@ }),
    {
        self.character_index = 0;
        proof {
            assert(final(self)@ =~= (AppView { cursor: 0, ..old(self)@ }));
        }
    }

    /// Empties the input buffer, clamping the cursor into the now-empty
    /// buffer.
    pub fn clear_input(&mut self)
        requires
            old(self)@.wf(),
        ensures
            final(self)@.wf(),
            final(self)@ == (AppView { input: Seq::empty(), cursor: 0, ..old(self)@ }),
    {
        self.input.clear();
        self.character_index = 0;
        proof {
            assert(final(self)@ =~= (AppView { input: Seq::empty(), cursor: 0, ..old(self)@ }));
        }
    }

    /// Submits the input buffer as a guess, taking `resample` as the next
    /// hidden target in case the guess is exactly right.
    ///
    /// A buffer that does not parse as an `i32` is discarded silently:
    /// the buffer is cleared and the cursor reset, and nothing else
    /// changes. A buffer that parses appends to all three histories and
    /// steps exactly one counter.
    pub fn submit_answer_with(&mut self, resample: i32)
        requires
            old(self)@.wf(),
            0 <= resample < 100,
        ensures
            final(self)@.wf(),
            final(self)@ == submit_view(old(self)@, resample as int),
            final(self)@.input.len() == 0 && final(self)@.cursor == 0,
            !parse_ok(old(self)@.input) ==> final(self)@ == (AppView {
                input: Seq::empty(),
                cursor: 0,
                ..old(self)@
            }),
            parse_ok(old(self)@.input) ==> final(self)@.deviations.last() == parse_val(
                old(self)@.input,
            ) - old(self)@.target,
            parse_ok(old(self)@.input) ==> final(self)@.low + final(self)@.high
                + final(self)@.right == old(self)@.low + old(self)@.high + old(self)@.right + 1,
    {
        match parse_i32(&self.input) {
            Some(guess) => {
                let deviation: i64 = (guess as i64) - (self.hidden_number as i64);
                self.deviations.push(deviation);
                // The grown history's length bounds the counter sum away
                // from u64::MAX, so the increments below cannot overflow.
                let _ = self.deviations.len();
                let mut message = i32_to_string(guess);
                message.append(": ");
                if guess < self.hidden_number {
                    self.guesses_low = self.guesses_low + 1;
                    message.append("too low!");
                } else if guess > self.hidden_number {
                    self.guesses_high = self.guesses_high + 1;
                    message.append("too high!");
                } else {
                    self.guesses_right = self.guesses_right + 1;
                    self.hidden_number = resample;
                    message.append("yay you did it! picking a new number... ");
                }
                proof {
                    assert(message@ =~= message_of(
                        parse_val(old(self)@.input),
                        old(self)@.target,
                    ));
                }
                self.previous_guesses.push(guess);
                self.messages.push(message);
            },
            None => {},
        }
        self.input.clear();
        self.character_index = 0;
        proof {
            assert(self@ =~= submit_view(old(self)@, resample as int));
        }
    }

    /// Submits the input buffer as a guess, drawing the next hidden
    /// target at random in case the guess is exactly right.
    pub fn submit_answer(&mut self)
        requires
            old(self)@.wf(),
        ensures
            final(self)@.wf(),
            exists|t: int|
                0 <= t < 100 && final(self)@ == submit_view(old(self)@, t),
            final(self)@.input.len() == 0 && final(self)@.cursor == 0,
            !parse_ok(old(self)@.input) ==> final(self)@ == (AppView {
                input: Seq::empty(),
                cursor: 0,
                ..old(self)@
            }),
            parse_ok(old(self)@.input) && parse_val(old(self)@.input) != old(self)@.target
                ==> final(self)@.target == old(self)@.target,
            parse_ok(old(self)@.input) && parse_val(old(self)@.input) == old(self)@.target
                ==> 0 <= final(self)@.target < 100,
    {
        let t = sample_target();
        self.submit_answer_with(t);
        proof {
            assert(0 <= (t as int) && (t as int) < 100 && self@ == submit_view(old(self)@, t as int));
        }
    }

    /// Sets the focus mode.
    pub fn set_focus(&mut self, focus: Focus)
        requires
            old(self)@.wf(),
        ensures
            final(self)@.wf(),
            final(self)@ == (AppView { focus, ..old(self)@ }),
    {
        self.focus = focus;
        proof {
            assert(final(self)@ =~= (AppView { focus, ..old(self)@ }));
        }
    }
}

} // verus!
