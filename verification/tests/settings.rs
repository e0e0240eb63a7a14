use nanogpt_120a::clock::unix_seconds;
use nanogpt_120a::config::{
    generate_prompt, generate_tokens, load_model_path, loss_graph_path, parse_seed,
    sampling_top_k, save_model_path, should_eval_step, should_log_step, TrainSchedule,
    DEFAULT_SEED,
};
use nanogpt_120a::env_file::value;
use nanogpt_120a::number::{parse_u64, parse_usize};
use nanogpt_120a::run_info::push_info;
use nanogpt_120a::run_output::{
    default_sweep_dir, format_stamp, stamp_at, join, pad_signed, run_dir_name_for, sanitize_path_part, RunOutput,
};
use nanogpt_120a::text::decimal_string;

fn some(text: &str) -> Option<String> {
    Some(text.to_string())
}

#[test]
fn env_file_value_takes_first_matching_line() {
    let text = "A=1\n  NAME = first value \r\nNAME=second\nB=2";
    assert_eq!(value(text, "NAME").as_deref(), Some("first value"));
    assert_eq!(value(text, "B").as_deref(), Some("2"));
    assert_eq!(value(text, "C"), None);
    assert_eq!(value("no equals here\nX", "X"), None);
    assert_eq!(value("K=a=b", "K").as_deref(), Some("a=b"));
    assert_eq!(value("", "K"), None);
    assert_eq!(value("K=\n", "K").as_deref(), Some(""));
}

#[test]
fn parses_whole_numbers_like_std() {
    assert_eq!(parse_usize("42"), Some(42));
    assert_eq!(parse_usize("+7"), Some(7));
    assert_eq!(parse_usize("0007"), Some(7));
    assert_eq!(parse_usize(""), None);
    assert_eq!(parse_usize("+"), None);
    assert_eq!(parse_usize("-1"), None);
    assert_eq!(parse_usize(" 1"), None);
    assert_eq!(parse_usize("12a"), None);
    assert_eq!(parse_u64("18446744073709551615"), Some(u64::MAX));
    assert_eq!(parse_u64("18446744073709551616"), None);
    for n in [0usize, 9, 10, 123456789] {
        assert_eq!(parse_usize(&decimal_string(n)), Some(n));
        assert_eq!(decimal_string(n), n.to_string());
    }
}

#[test]
fn seeds_read_hex_or_decimal() {
    assert_eq!(parse_seed("0x47505432"), Some(0x4750_5432));
    assert_eq!(parse_seed("0XfF"), Some(255));
    assert_eq!(parse_seed("123"), Some(123));
    assert_eq!(parse_seed("0x"), None);
    assert_eq!(parse_seed("0xg1"), None);
    assert_eq!(parse_seed("ff"), None);
}

#[test]
fn train_schedule_applies_defaults_and_floors() {
    let defaults = TrainSchedule::from_values(None, None, None, None);
    assert_eq!(defaults.seed, DEFAULT_SEED);
    assert_eq!(defaults.step_cap, 1_000_000);
    assert_eq!(defaults.log_interval, 500);
    assert_eq!(defaults.eval_interval, None);

    let given = TrainSchedule::from_values(some("0x10"), some("64"), some("0"), some("8"));
    assert_eq!(given.seed, 16);
    assert_eq!(given.step_cap, 64);
    assert_eq!(given.log_interval, 1);
    assert_eq!(given.eval_interval, Some(8));

    let off = TrainSchedule::from_values(some("x"), some("many"), some("10"), some("0"));
    assert_eq!(off.seed, DEFAULT_SEED);
    assert_eq!(off.step_cap, 1_000_000);
    assert_eq!(off.log_interval, 10);
    assert_eq!(off.eval_interval, None);
}

#[test]
fn logs_and_evaluates_first_last_and_interval_steps() {
    assert!(should_log_step(0, 10, 4));
    assert!(should_log_step(9, 10, 4));
    assert!(should_log_step(8, 10, 4));
    assert!(!should_log_step(5, 10, 4));
    assert!(!should_eval_step(0, 10, None));
    assert!(should_eval_step(0, 10, Some(3)));
    assert!(should_eval_step(6, 10, Some(3)));
    assert!(should_eval_step(9, 10, Some(4)));
    assert!(!should_eval_step(5, 10, Some(3)));
}

#[test]
fn model_and_output_paths() {
    let run = RunOutput::in_dir("target/runs/r1".to_string());
    assert_eq!(run.dir(), "target/runs/r1");
    assert_eq!(run.path("model.ckpt"), "target/runs/r1/model.ckpt");
    assert_eq!(run.path("/abs/file"), "/abs/file");
    assert_eq!(load_model_path(None), None);
    assert_eq!(load_model_path(some("")), None);
    assert_eq!(load_model_path(some("m.ckpt")).as_deref(), Some("m.ckpt"));
    assert_eq!(save_model_path(some("1"), &run).as_deref(), Some("target/runs/r1/model.ckpt"));
    assert_eq!(save_model_path(some("TrUe"), &run).as_deref(), Some("target/runs/r1/model.ckpt"));
    assert_eq!(save_model_path(some("out.ckpt"), &run).as_deref(), Some("out.ckpt"));
    assert_eq!(save_model_path(some(""), &run), None);
    assert_eq!(loss_graph_path(None, &run), "target/runs/r1/loss.png");
    assert_eq!(loss_graph_path(some("g.png"), &run), "g.png");
    assert_eq!(generate_prompt(some("Once")).as_deref(), Some("Once"));
    assert_eq!(generate_prompt(some("")), None);
    assert_eq!(generate_tokens(None), 128);
    assert_eq!(generate_tokens(some("64")), 64);
    assert_eq!(generate_tokens(some("lots")), 128);
    assert_eq!(sampling_top_k(None), 32);
    assert_eq!(sampling_top_k(some("5")), 5);
}

#[test]
fn paths_join_like_std() {
    assert_eq!(join("", "a"), "a");
    assert_eq!(join("dir/", "a"), "dir/a");
    assert_eq!(join("dir", "a"), "dir/a");
    assert_eq!(join("dir", ""), "dir/");
    assert_eq!(join("dir", "/a"), "/a");
    for (base, name) in [("x/y", "z"), ("", "q"), ("a/", "b/c")] {
        let expected = std::path::Path::new(base).join(name);
        assert_eq!(join(base, name), expected.to_str().unwrap());
    }
}

#[test]
fn run_directories_are_named_after_stamp_dataset_and_steps() {
    assert_eq!(sanitize_path_part("synth data/v1.2"), "synth_data_v1_2");
    assert_eq!(sanitize_path_part("ok-name_1"), "ok-name_1");
    let once = sanitize_path_part("wéird näme/x");
    assert_eq!(once.chars().count(), "wéird näme/x".chars().count());
    assert_eq!(sanitize_path_part(&once), once);
    assert_eq!(run_dir_name_for("20240102_030405Z", "my set", 90), "20240102_030405Z_my_set_90steps");
    let fresh = RunOutput::for_run(None, "synth", 5).unwrap();
    assert!(fresh.dir().starts_with("target/runs/"));
    assert!(fresh.dir().ends_with("Z_synth_5steps"));
    let named = RunOutput::for_run(some("custom/dir"), "synth", 5).unwrap();
    assert_eq!(named.dir(), "custom/dir");
    let sweep = default_sweep_dir().unwrap();
    assert!(sweep.starts_with("target/sweeps/"));
    assert!(sweep.ends_with('Z'));
    assert_eq!(sweep.len(), "target/sweeps/".len() + 16);
    let empty = RunOutput::for_run(some(""), "synth", 5).unwrap();
    assert!(empty.dir().starts_with("target/runs/"));
}

#[test]
fn stamps_pad_like_format() {
    assert_eq!(format_stamp(2024, 1, 2, 3, 4, 5), "20240102_030405Z");
    assert_eq!(format_stamp(987, 12, 31, 23, 59, 59), "09871231_235959Z");
    for y in [-5i32, -123, -12345, 0, 7, 12345] {
        assert_eq!(pad_signed(y, 4), format!("{:04}", y));
    }
}

#[test]
fn info_lines_are_name_equals_value() {
    let mut info = String::from("a=1\n");
    push_info(&mut info, "dataset", "synth");
    assert_eq!(info, "a=1\ndataset=synth\n");
}

#[test]
fn clock_readings_become_floor_seconds() {
    assert_eq!(unix_seconds(Ok((1_700_000_000, 999_999_999))), Some(1_700_000_000));
    assert_eq!(unix_seconds(Ok((0, 0))), Some(0));
    assert_eq!(unix_seconds(Err((5, 0))), Some(-5));
    assert_eq!(unix_seconds(Err((5, 1))), Some(-6));
    assert_eq!(unix_seconds(Err((0, 500_000_000))), Some(-1));
    assert_eq!(unix_seconds(Ok((u64::MAX, 0))), None);
    assert_eq!(unix_seconds(Err((1u64 << 63, 0))), Some(i64::MIN));
    assert_eq!(unix_seconds(Err((1u64 << 63, 1))), None);
}

#[test]
fn zero_intervals_still_mark_first_and_last_steps() {
    assert!(should_log_step(0, 10, 0));
    assert!(should_log_step(9, 10, 0));
    assert!(should_eval_step(0, 10, Some(0)));
    assert!(should_eval_step(9, 10, Some(0)));
}

#[test]
fn stamps_follow_unix_seconds() {
    assert_eq!(stamp_at(0).as_deref(), Some("19700101_000000Z"));
    assert_eq!(stamp_at(1_546_300_800).as_deref(), Some("20190101_000000Z"));
    assert_eq!(stamp_at(-1).as_deref(), Some("19691231_235959Z"));
    assert_eq!(stamp_at(253_402_300_799).as_deref(), Some("99991231_235959Z"));
    assert_eq!(stamp_at(-377_705_116_800).as_deref(), Some("-99990101_000000Z"));
    assert_eq!(stamp_at(253_402_300_800), None);
    assert_eq!(stamp_at(-377_705_116_801), None);
}

#[test]
fn no_eval_interval_never_evaluates() {
    assert!(!should_eval_step(usize::MAX, 10, None));
}
