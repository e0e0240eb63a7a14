use vstd::prelude::*;

use crate::number::{parse_unsigned, parse_usize};
use crate::text::{
    chars_of, copy_range, find, find_chars, is_white, is_whitespace, opt_view, skip_white,
    skip_white_bounds, skip_white_from, starts_with, starts_with_chars, string_from_chars,
};

verus! {

/// The first position at or after `i` that holds white space (or the end).
pub open spec fn next_white(s: Seq<char>, i: int) -> int
    decreases s.len() - i,
{
    if 0 <= i < s.len() && !is_white(s[i]) {
        next_white(s, i + 1)
    } else {
        i
    }
}

proof fn next_white_bounds(s: Seq<char>, i: int)
    requires
        0 <= i <= s.len(),
    ensures
        i <= next_white(s, i) <= s.len(),
    decreases s.len() - i,
{
    if i < s.len() && !is_white(s[i]) {
        next_white_bounds(s, i + 1);
    }
}

/// The first word of `v` (`split_whitespace().next()`), or all of `v` when
/// it holds no word.
pub open spec fn first_word_or_all(v: Seq<char>) -> Seq<char> {
    let a = skip_white(v, 0);
    if a >= v.len() {
        v
    } else {
        v.subrange(a, next_white(v, a))
    }
}

/// The value after the first `prefix` in `line`: the word that follows it.
pub open spec fn field_value(line: Seq<char>, prefix: Seq<char>) -> Option<Seq<char>> {
    match find(line, prefix) {
        Some(k) => Some(first_word_or_all(line.subrange(k + prefix.len(), line.len() as int))),
        None => None,
    }
}

/// A field read as a whole number.
pub open spec fn number_field(line: Seq<char>, prefix: Seq<char>) -> Option<usize> {
    match field_value(line, prefix) {
        Some(v) => match parse_unsigned(v, 10, usize::MAX as nat) {
            Some(n) => Some(n as usize),
            None => None,
        },
        None => None,
    }
}

fn field_chars(line: &Vec<char>, prefix: &Vec<char>) -> (r: Option<Vec<char>>)
    ensures
        match field_value(line@, prefix@) {
            Some(v) => r matches Some(x) && x@ == v,
            None => r is None,
        },
{
    match find_chars(line, prefix) {
        None => None,
        Some(k) => {
            let rest = copy_range(line, k + prefix.len(), line.len());
            let a = skip_white_from(&rest, 0);
            proof {
                skip_white_bounds(rest@, 0);
            }
            if a >= rest.len() {
                return Some(rest);
            }
            let mut b = a;
            while b < rest.len() && !is_whitespace(rest[b])
                invariant
                    a <= b <= rest.len(),
                    next_white(rest@, a as int) == next_white(rest@, b as int),
                decreases rest.len() - b,
            {
                b = b + 1;
            }
            Some(copy_range(&rest, a, b))
        },
    }
}

/// The value that follows `prefix` in a log line: the first word after the
/// first place `prefix` occurs (or the whole rest of the line when no word
/// follows).
pub fn field(line: &str, prefix: &str) -> (r: Option<String>)
    ensures
        opt_view(r) == field_value(line@, prefix@),
{
    let l = chars_of(line);
    let p = chars_of(prefix);
    match field_chars(&l, &p) {
        Some(v) => Some(string_from_chars(v.as_slice())),
        None => None,
    }
}

fn number_in(line: &Vec<char>, prefix: &str) -> (r: Option<usize>)
    ensures
        r == number_field(line@, prefix@),
{
    let p = chars_of(prefix);
    match field_chars(line, &p) {
        Some(v) => {
            let s = string_from_chars(v.as_slice());
            parse_usize(s.as_str())
        },
        None => None,
    }
}

fn text_in(line: &Vec<char>, prefix: &str) -> (r: Option<String>)
    ensures
        opt_view(r) == field_value(line@, prefix@),
{
    let p = chars_of(prefix);
    match field_chars(line, &p) {
        Some(v) => Some(string_from_chars(v.as_slice())),
        None => None,
    }
}

fn has(line: &Vec<char>, pattern: &str) -> (r: bool)
    ensures
        r == (find(line@, pattern@) is Some),
{
    let p = chars_of(pattern);
    find_chars(line, &p).is_some()
}

fn begins(line: &Vec<char>, pattern: &str) -> (r: bool)
    ensures
        r == starts_with(line@, pattern@),
{
    let p = chars_of(pattern);
    starts_with_chars(line, &p)
}

/// What a training run's log has shown so far. The loss and timing numbers
/// are kept as the text the log wrote; reading them as floating-point
/// numbers is left to the caller.
pub struct RunResult {
    pub val_loss: Option<String>,
    pub completed_steps: Option<usize>,
    pub last_step: Option<usize>,
    pub last_elapsed_s: Option<String>,
    pub last_train_loss: Option<String>,
    pub saw_nan: bool,
}

/// What a run's log has shown, as mathematical values.
pub struct RunView {
    pub val_loss: Option<Seq<char>>,
    pub completed_steps: Option<usize>,
    pub last_step: Option<usize>,
    pub last_elapsed_s: Option<Seq<char>>,
    pub last_train_loss: Option<Seq<char>>,
    pub saw_nan: bool,
}

impl View for RunResult {
    type V = RunView;

    open spec fn view(&self) -> RunView {
        RunView {
            val_loss: opt_view(self.val_loss),
            completed_steps: self.completed_steps,
            last_step: self.last_step,
            last_elapsed_s: opt_view(self.last_elapsed_s),
            last_train_loss: opt_view(self.last_train_loss),
            saw_nan: self.saw_nan,
        }
    }
}

/// Nothing seen yet.
pub open spec fn empty_run() -> RunView {
    RunView {
        val_loss: None,
        completed_steps: None,
        last_step: None,
        last_elapsed_s: None,
        last_train_loss: None,
        saw_nan: false,
    }
}

/// Whether taking in `line` would count one step past `usize::MAX`.
pub open spec fn overflows(line: Seq<char>) -> bool {
    is_step_line(line) && number_field(line, "step="@) == Some(usize::MAX)
}

/// What the log shows after one more line (see [`RunResult::update`]).
pub open spec fn line_update(r: RunView, line: Seq<char>) -> RunView {
    let step = number_field(line, "step="@);
    RunView {
        last_step: if is_step_line(line) && step is Some {
            step
        } else {
            r.last_step
        },
        completed_steps: if is_heldout_line(line) || is_stop_line(line) {
            number_field(line, "completed_steps="@)
        } else if is_step_line(line) && step is Some {
            Some((step->0 + 1) as usize)
        } else {
            r.completed_steps
        },
        last_elapsed_s: if is_heldout_line(line) {
            field_value(line, "train_elapsed_s="@)
        } else if is_stop_line(line) || is_step_line(line) {
            field_value(line, "elapsed_s="@)
        } else {
            r.last_elapsed_s
        },
        last_train_loss: if is_step_line(line) {
            field_value(line, "loss="@)
        } else {
            r.last_train_loss
        },
        val_loss: if is_heldout_line(line) {
            field_value(line, "val_loss="@)
        } else {
            r.val_loss
        },
        saw_nan: r.saw_nan || shows_nan(line),
    }
}

/// A run is marked exactly when it was marked already or the line holds
/// `loss=NaN` or `finite=false` somewhere; once marked it stays marked.
pub proof fn nan_marking_law(r: RunView, line: Seq<char>)
    ensures
        line_update(r, line).saw_nan <==> (r.saw_nan || find(line, "loss=NaN"@) is Some || find(
            line,
            "finite=false"@,
        ) is Some),
        r.saw_nan ==> line_update(r, line).saw_nan,
{
}

/// Following a run stops right after the first line that holds `loss=NaN`
/// or `finite=false`: every line read before the last one holds neither,
/// and when the run stopped early the last line read holds one of them.
pub proof fn follow_stops_at_first_nan(r: RunView, lines: Seq<Seq<char>>)
    requires
        !r.saw_nan,
    ensures
        follow(r, lines).1 <= lines.len(),
        follow(r, lines).0.saw_nan <==> exists|k: int|
            0 <= k < lines.len() && (find(#[trigger] lines[k], "loss=NaN"@) is Some || find(
                lines[k],
                "finite=false"@,
            ) is Some),
        forall|k: int|
            0 <= k < follow(r, lines).1 - 1 ==> find(#[trigger] lines[k], "loss=NaN"@) is None
                && find(lines[k], "finite=false"@) is None,
        follow(r, lines).1 < lines.len() ==> follow(r, lines).1 >= 1 && (find(
            lines[follow(r, lines).1 - 1],
            "loss=NaN"@,
        ) is Some || find(lines[follow(r, lines).1 - 1], "finite=false"@) is Some),
    decreases lines.len(),
{
    if lines.len() > 0 {
        let next = line_update(r, lines[0]);
        if !next.saw_nan {
            let rest = lines.drop_first();
            follow_stops_at_first_nan(next, rest);
            assert forall|k: int| 0 <= k < rest.len() implies rest[k] == lines[k + 1] by {}
            if follow(next, rest).0.saw_nan {
                let k = choose|k: int|
                    0 <= k < rest.len() && (find(#[trigger] rest[k], "loss=NaN"@) is Some || find(
                        rest[k],
                        "finite=false"@,
                    ) is Some);
                assert(lines[k + 1] == rest[k]);
            }
            assert forall|k: int| 0 <= k < follow(r, lines).1 - 1 implies find(
                #[trigger] lines[k],
                "loss=NaN"@,
            ) is None && find(lines[k], "finite=false"@) is None by {
                if k > 0 {
                    assert(rest[k - 1] == lines[k]);
                }
            }
            assert forall|k: int| 0 <= k < lines.len() && (find(#[trigger] lines[k], "loss=NaN"@) is Some
                || find(lines[k], "finite=false"@) is Some) implies follow(r, lines).0.saw_nan by {
                if k > 0 {
                    assert(rest[k - 1] == lines[k]);
                }
            }
        }
    }
}

/// Following a run's output from `r`: each line is taken in, in order,
/// until the first one after which a `NaN` has been seen; the lines after
/// it are not read. Gives what the log then shows and how many lines were
/// read.
pub open spec fn follow(r: RunView, lines: Seq<Seq<char>>) -> (RunView, nat)
    decreases lines.len(),
{
    if lines.len() == 0 {
        (r, 0)
    } else {
        let next = line_update(r, lines[0]);
        if next.saw_nan {
            (next, 1)
        } else {
            let rest = follow(next, lines.drop_first());
            (rest.0, rest.1 + 1)
        }
    }
}

/// Whether none of the lines that [`follow`] reads would overflow.
pub open spec fn follow_safe(r: RunView, lines: Seq<Seq<char>>) -> bool
    decreases lines.len(),
{
    lines.len() == 0 || (!overflows(lines[0]) && (line_update(r, lines[0]).saw_nan || follow_safe(
        line_update(r, lines[0]),
        lines.drop_first(),
    )))
}

/// Whether a log line is a step line.
pub open spec fn is_step_line(line: Seq<char>) -> bool {
    starts_with(line, "step="@)
}

/// Whether a log line reports a stop by the wall clock.
pub open spec fn is_stop_line(line: Seq<char>) -> bool {
    starts_with(line, "stopped_by_wall_clock=true"@)
}

/// Whether a log line reports the held-out evaluation.
pub open spec fn is_heldout_line(line: Seq<char>) -> bool {
    starts_with(line, "heldout_eval "@)
}

/// Whether a log line shows a loss that is not a number or a step that was
/// not finite.
pub open spec fn shows_nan(line: Seq<char>) -> bool {
    find(line, "loss=NaN"@) is Some || find(line, "finite=false"@) is Some
}

impl Default for RunResult {
    fn default() -> (r: RunResult)
        ensures
            r.val_loss is None,
            r.completed_steps is None,
            r.last_step is None,
            r.last_elapsed_s is None,
            r.last_train_loss is None,
            !r.saw_nan,
    {
        RunResult {
            val_loss: None,
            completed_steps: None,
            last_step: None,
            last_elapsed_s: None,
            last_train_loss: None,
            saw_nan: false,
        }
    }
}

impl RunResult {
    /// Takes in one line of a training log. A step line sets the last step,
    /// the steps completed (one past it), the elapsed time and the training
    /// loss; a wall-clock stop sets the steps completed and the elapsed
    /// time; the held-out evaluation sets the validation loss, the steps
    /// completed and the elapsed time; a `NaN` loss or a step that was not
    /// finite marks the run.
    pub fn update(&mut self, line: &str)
        requires
            !(starts_with(line@, "step="@) && number_field(line@, "step="@) == Some(usize::MAX)),
        ensures
            final(self).last_step == (if starts_with(line@, "step="@) && number_field(line@, "step="@)
                is Some {
                number_field(line@, "step="@)
            } else {
                old(self).last_step
            }),
            final(self).completed_steps == (if starts_with(line@, "heldout_eval "@) || starts_with(
                line@,
                "stopped_by_wall_clock=true"@,
            ) {
                number_field(line@, "completed_steps="@)
            } else if starts_with(line@, "step="@) && number_field(line@, "step="@) is Some {
                Some((number_field(line@, "step="@)->0 + 1) as usize)
            } else {
                old(self).completed_steps
            }),
            opt_view(final(self).last_elapsed_s) == (if starts_with(line@, "heldout_eval "@) {
                field_value(line@, "train_elapsed_s="@)
            } else if starts_with(line@, "stopped_by_wall_clock=true"@) || starts_with(
                line@,
                "step="@,
            ) {
                field_value(line@, "elapsed_s="@)
            } else {
                opt_view(old(self).last_elapsed_s)
            }),
            opt_view(final(self).last_train_loss) == (if starts_with(line@, "step="@) {
                field_value(line@, "loss="@)
            } else {
                opt_view(old(self).last_train_loss)
            }),
            opt_view(final(self).val_loss) == (if starts_with(line@, "heldout_eval "@) {
                field_value(line@, "val_loss="@)
            } else {
                opt_view(old(self).val_loss)
            }),
            final(self).saw_nan == (old(self).saw_nan || find(line@, "loss=NaN"@) is Some || find(
                line@,
                "finite=false"@,
            ) is Some),
            final(self)@ == line_update(old(self)@, line@),
            find(line@, "finite=false"@) is Some ==> final(self).saw_nan,
            find(line@, "loss=NaN"@) is Some ==> final(self).saw_nan,
            final(self).saw_nan ==> (old(self).saw_nan || find(line@, "finite=false"@) is Some || find(
                line@,
                "loss=NaN"@,
            ) is Some),
    {
        let l = chars_of(line);
        if begins(&l, "step=") {
            match number_in(&l, "step=") {
                Some(step) => {
                    self.last_step = Some(step);
                    self.completed_steps = Some(step + 1);
                },
                None => {},
            }
            self.last_elapsed_s = text_in(&l, "elapsed_s=");
            self.last_train_loss = text_in(&l, "loss=");
        }
        if has(&l, "loss=NaN") || has(&l, "finite=false") {
            self.saw_nan = true;
        }
        if begins(&l, "stopped_by_wall_clock=true") {
            self.completed_steps = number_in(&l, "completed_steps=");
            self.last_elapsed_s = text_in(&l, "elapsed_s=");
        }
        if begins(&l, "heldout_eval ") {
            self.val_loss = text_in(&l, "val_loss=");
            self.completed_steps = number_in(&l, "completed_steps=");
            self.last_elapsed_s = text_in(&l, "train_elapsed_s=");
        }
    }
}


/// Follows a run's output lines from the start: takes them in one by one
/// and stops after the first line that shows a `NaN`, as the sweep does
/// while a training run prints. Gives what the log then shows and how many
/// lines were read.
pub fn follow_lines(lines: &Vec<String>) -> (r: (RunResult, usize))
    requires
        follow_safe(empty_run(), lines@.map_values(|l: String| l@)),
    ensures
        (r.0@, r.1 as nat) == follow(empty_run(), lines@.map_values(|l: String| l@)),
{
    let ghost all = lines@.map_values(|l: String| l@);
    let mut result = RunResult::default();
    let mut k: usize = 0;
    assert(all.skip(0) =~= all);
    while k < lines.len()
        invariant
            k <= lines.len(),
            all == lines@.map_values(|l: String| l@),
            !result.saw_nan,
            follow(empty_run(), all) == ({
                let rest = follow(result@, all.skip(k as int));
                (rest.0, (rest.1 + k) as nat)
            }),
            follow_safe(result@, all.skip(k as int)),
        decreases lines.len() - k,
    {
        let ghost rest = all.skip(k as int);
        assert(rest[0] == lines@[k as int]@);
        assert(rest.drop_first() =~= all.skip(k as int + 1));
        result.update(lines[k].as_str());
        k = k + 1;
        if result.saw_nan {
            return (result, k);
        }
    }
    assert(all.skip(k as int) =~= Seq::<Seq<char>>::empty());
    (result, k)
}

} // verus!
