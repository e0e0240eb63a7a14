use vstd::prelude::*;
use vstd::string::StrSliceExecFns;

use crate::number::{parse_u64, parse_u64_chars, parse_unsigned, parse_usize};
use crate::run_output::{join_path, RunOutput};
use crate::text::{
    chars_of, copy_range, eq_ignore_ascii_case, equal_ignoring_ascii_case, opt_view, same_text,
    starts_with, starts_with_chars,
};

verus! {

/// The seed a run uses when none is given.
pub const DEFAULT_SEED: u64 = 0x4750_5432;

/// The step cap when none is given.
pub const DEFAULT_TRAIN_STEP_CAP: usize = 1_000_000;

/// The logging interval when none is given.
pub const DEFAULT_TRAIN_LOG_INTERVAL: usize = 500;

/// Tokens generated after training when no count is given.
pub const DEFAULT_GENERATE_TOKENS: usize = 128;

/// Candidates kept by top-k sampling when no count is given.
pub const DEFAULT_TOP_K: usize = 32;

/// A setting's value counts only when it is there and not empty.
pub open spec fn nonempty(value: Option<Seq<char>>) -> Option<Seq<char>> {
    match value {
        Some(v) if v.len() > 0 => Some(v),
        _ => None,
    }
}

fn nonempty_value(value: Option<String>) -> (r: Option<String>)
    ensures
        opt_view(r) == nonempty(opt_view(value)),
{
    match value {
        Some(v) => {
            if v.as_str().unicode_len() > 0 {
                Some(v)
            } else {
                None
            }
        },
        None => None,
    }
}

/// A setting read as a number, as `str::parse::<usize>` reads it.
pub open spec fn setting_usize(value: Option<Seq<char>>) -> Option<usize> {
    match value {
        Some(v) => match parse_unsigned(v, 10, usize::MAX as nat) {
            Some(n) => Some(n as usize),
            None => None,
        },
        None => None,
    }
}

fn usize_setting(value: &Option<String>) -> (r: Option<usize>)
    ensures
        r == setting_usize(opt_view(*value)),
{
    match value {
        Some(v) => parse_usize(v.as_str()),
        None => None,
    }
}

/// The model to load before training (`TRAIN_LOAD_MODEL`), if one is named.
pub fn load_model_path(value: Option<String>) -> (r: Option<String>)
    ensures
        opt_view(r) == nonempty(opt_view(value)),
{
    nonempty_value(value)
}

/// Whether a `TRAIN_SAVE_MODEL` value asks for the default place: `1`, or
/// `true` in any case.
pub open spec fn asks_default(v: Seq<char>) -> bool {
    v == "1"@ || eq_ignore_ascii_case(v, "true"@)
}

/// Where to save the trained model (`TRAIN_SAVE_MODEL`): `model.ckpt` in
/// the run directory for `1` or `true`, else the path given.
pub fn save_model_path(value: Option<String>, run_output: &RunOutput) -> (r: Option<String>)
    ensures
        opt_view(r) == (match nonempty(opt_view(value)) {
            Some(v) => Some(
                if asks_default(v) {
                    join_path(run_output@, "model.ckpt"@)
                } else {
                    v
                },
            ),
            None => None,
        }),
{
    match nonempty_value(value) {
        Some(v) => {
            if same_text(v.as_str(), "1") || equal_ignoring_ascii_case(v.as_str(), "true") {
                Some(run_output.path("model.ckpt"))
            } else {
                Some(v)
            }
        },
        None => None,
    }
}

/// Where to draw the loss graph (`TRAIN_LOSS_GRAPH`), else `loss.png` in the
/// run directory.
pub fn loss_graph_path(value: Option<String>, run_output: &RunOutput) -> (r: String)
    ensures
        r@ == (match nonempty(opt_view(value)) {
            Some(v) => v,
            None => join_path(run_output@, "loss.png"@),
        }),
{
    match nonempty_value(value) {
        Some(v) => v,
        None => run_output.path("loss.png"),
    }
}

/// The prompt to generate from after training (`TRAIN_GENERATE_PROMPT`).
pub fn generate_prompt(value: Option<String>) -> (r: Option<String>)
    ensures
        opt_view(r) == nonempty(opt_view(value)),
{
    nonempty_value(value)
}

/// How many tokens to generate (`TRAIN_GENERATE_TOKENS`), 128 unless a
/// number is given.
pub fn generate_tokens(value: Option<String>) -> (r: usize)
    ensures
        r == (match setting_usize(opt_view(value)) {
            Some(n) => n,
            None => DEFAULT_GENERATE_TOKENS,
        }),
{
    match usize_setting(&value) {
        Some(n) => n,
        None => DEFAULT_GENERATE_TOKENS,
    }
}

/// The top-k of sampling (`TRAIN_GENERATE_TOP_K`), 32 unless a number is given.
pub fn sampling_top_k(value: Option<String>) -> (r: usize)
    ensures
        r == (match setting_usize(opt_view(value)) {
            Some(n) => n,
            None => DEFAULT_TOP_K,
        }),
{
    match usize_setting(&value) {
        Some(n) => n,
        None => DEFAULT_TOP_K,
    }
}

/// The hexadecimal digits of a seed written with a `0x` or `0X` prefix.
pub open spec fn hex_body(v: Seq<char>) -> Option<Seq<char>> {
    if starts_with(v, "0x"@) || starts_with(v, "0X"@) {
        Some(v.subrange(2, v.len() as int))
    } else {
        None
    }
}

/// A seed as `TRAIN_SEED` gives it: hexadecimal after `0x` or `0X`, else
/// decimal.
pub open spec fn seed_value(v: Seq<char>) -> Option<u64> {
    let parsed = match hex_body(v) {
        Some(h) => parse_unsigned(h, 16, u64::MAX as nat),
        None => parse_unsigned(v, 10, u64::MAX as nat),
    };
    match parsed {
        Some(n) => Some(n as u64),
        None => None,
    }
}

/// Reads a seed: hexadecimal after `0x` or `0X`, else decimal.
pub fn parse_seed(value: &str) -> (r: Option<u64>)
    ensures
        r == seed_value(value@),
{
    let v = chars_of(value);
    let lower = chars_of("0x");
    let upper = chars_of("0X");
    proof {
        reveal_strlit("0x");
        reveal_strlit("0X");
    }
    if starts_with_chars(&v, &lower) || starts_with_chars(&v, &upper) {
        let body = copy_range(&v, 2, v.len());
        parse_u64_chars(&body, 16)
    } else {
        parse_u64(value)
    }
}

/// The whole-number settings of a training run.
pub struct TrainSchedule {
    pub seed: u64,
    pub step_cap: usize,
    pub log_interval: usize,
    pub eval_interval: Option<usize>,
}

impl TrainSchedule {
    /// The settings from the values of `TRAIN_SEED`, `TRAIN_STEPS`,
    /// `TRAIN_LOG_INTERVAL` and `TRAIN_EVAL_INTERVAL`: defaults where a value
    /// is missing or not a number, a logging interval of at least 1, and no
    /// evaluation for an interval of 0.
    pub fn from_values(
        seed: Option<String>,
        steps: Option<String>,
        log_interval: Option<String>,
        eval_interval: Option<String>,
    ) -> (r: TrainSchedule)
        ensures
            r.seed == (match opt_view(seed) {
                Some(v) => match seed_value(v) {
                    Some(n) => n,
                    None => DEFAULT_SEED,
                },
                None => DEFAULT_SEED,
            }),
            r.step_cap == (match setting_usize(opt_view(steps)) {
                Some(n) => n,
                None => DEFAULT_TRAIN_STEP_CAP,
            }),
            r.log_interval == (match setting_usize(opt_view(log_interval)) {
                Some(n) => if n >= 1 { n } else { 1 },
                None => DEFAULT_TRAIN_LOG_INTERVAL,
            }),
            r.eval_interval == (match setting_usize(opt_view(eval_interval)) {
                Some(n) => if n > 0 { Some(n) } else { None },
                None => None,
            }),
            r.log_interval >= 1,
    {
        let seed = match &seed {
            Some(v) => match parse_seed(v.as_str()) {
                Some(n) => n,
                None => DEFAULT_SEED,
            },
            None => DEFAULT_SEED,
        };
        let step_cap = match usize_setting(&steps) {
            Some(n) => n,
            None => DEFAULT_TRAIN_STEP_CAP,
        };
        let log_interval = match usize_setting(&log_interval) {
            Some(n) => if n >= 1 { n } else { 1 },
            None => DEFAULT_TRAIN_LOG_INTERVAL,
        };
        let eval_interval = match usize_setting(&eval_interval) {
            Some(n) => if n > 0 { Some(n) } else { None },
            None => None,
        };
        TrainSchedule { seed, step_cap, log_interval, eval_interval }
    }
}

/// Whether a training step's progress line is printed: the first step, the
/// last step of the cap, and every `log_interval`-th step.
pub fn should_log_step(step: usize, step_cap: usize, log_interval: usize) -> (r: bool)
    requires
        log_interval > 0 || step == 0 || step + 1 == step_cap,
        step < usize::MAX,
    ensures
        r == (step == 0 || step + 1 == step_cap || (log_interval > 0 && step % log_interval == 0)),
{
    step == 0 || step + 1 == step_cap || step % log_interval == 0
}

/// Whether a held-out evaluation runs at this step: never without an
/// interval; else the first step, the last step of the cap, and every
/// `eval_interval`-th step.
pub fn should_eval_step(step: usize, step_cap: usize, eval_interval: Option<usize>) -> (r: bool)
    requires
        eval_interval matches Some(n) ==> (n > 0 || step == 0 || step + 1 == step_cap),
        eval_interval is Some ==> step < usize::MAX,
    ensures
        r == (match eval_interval {
            Some(n) => step == 0 || step + 1 == step_cap || (n > 0 && step % n == 0),
            None => false,
        }),
{
    match eval_interval {
        Some(interval) => step == 0 || step + 1 == step_cap || step % interval == 0,
        None => false,
    }
}

} // verus!
