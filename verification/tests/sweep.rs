use nanogpt_120a::sweep::candidate_space::{
    random_shape, random_warmup_steps, valid_aurora_phases, CandidateShape, MIN_N_LAYER,
};
use nanogpt_120a::sweep::halton::{halton_units, radical_inverse_fraction, FACTOR_COUNT};
use nanogpt_120a::sweep::optimizer::{
    proposal_phase, select_candidate, select_source, CandidateSource, ProposalPhase,
};
use nanogpt_120a::sweep::parse::{field, follow_lines, RunResult};
use nanogpt_120a::sweep::rng::{random_usize_range, SweepRng};
use nanogpt_120a::sweep::trial::{
    after_line, finished_record, next_action, TrialAction, TrialEvent, TrialLog, TrialStatus,
};
use nanogpt_120a::sweep::trial_row::{
    format_trial_row, format_trials, header, parse_trial_row, parse_trials, TrialRow,
};

fn rng() -> SweepRng {
    SweepRng::new(0x4750_5432)
}

fn as_f64(unit: (u128, u128)) -> f64 {
    unit.0 as f64 / unit.1 as f64
}

fn parsed_f64(text: &Option<String>) -> Option<f64> {
    text.as_deref()
        .and_then(|value| value.parse::<f64>().ok())
        .filter(|value| value.is_finite())
}

#[test]
fn exposes_profiled_l2_aurora_phase_layout() {
    assert!(valid_aurora_phases(8, 90).contains(&2));
    assert!(!valid_aurora_phases(16, 90).contains(&2));
    assert!(valid_aurora_phases(16, 90).contains(&4));
}

#[test]
fn halton_units_cover_each_factor_range() {
    let rows = (1..=128).map(halton_units).collect::<Vec<_>>();
    for dim in 0..FACTOR_COUNT {
        let min = rows
            .iter()
            .map(|row| as_f64(row[dim]))
            .fold(f64::INFINITY, f64::min);
        let max = rows
            .iter()
            .map(|row| as_f64(row[dim]))
            .fold(f64::NEG_INFINITY, f64::max);
        assert!(min < 0.15, "dim={dim} min={min}");
        assert!(max > 0.85, "dim={dim} max={max}");
    }
}

#[test]
fn random_candidates_respect_min_layer_count() {
    let mut rng = rng();
    for _ in 0..256 {
        let shape = random_shape(&mut rng);
        // The learning-rate scales draw one value each, then the warmup
        // steps, then the three ratios: eleven draws per candidate.
        rng.next_u64();
        rng.next_u64();
        random_warmup_steps(&mut rng);
        rng.next_u64();
        rng.next_u64();
        rng.next_u64();
        assert!(shape.n_layer >= MIN_N_LAYER);
    }
}

#[test]
fn detects_nan_step() {
    let mut result = RunResult::default();
    result.update("step=1250 loss=NaN finite=false");
    assert!(result.saw_nan);
    assert_eq!(result.completed_steps, Some(1251));
    assert_eq!(parsed_f64(&result.val_loss), None);
}

#[test]
fn parses_final_heldout_elapsed_time() {
    let mut result = RunResult::default();
    result.update(
        "heldout_eval split=val val_loss=4.125000 train_elapsed_s=900.250 completed_steps=4096",
    );

    assert_eq!(parsed_f64(&result.val_loss), Some(4.125));
    assert_eq!(result.completed_steps, Some(4096));
    assert_eq!(parsed_f64(&result.last_elapsed_s), Some(900.25));
}

#[test]
fn step_line_sets_step_loss_and_elapsed_text() {
    let mut result = RunResult::default();
    result.update("step=9 source=train loss=3.5 loss_ema=3.6 elapsed_s=12.5");
    assert_eq!(result.last_step, Some(9));
    assert_eq!(result.completed_steps, Some(10));
    assert_eq!(result.last_train_loss.as_deref(), Some("3.5"));
    assert_eq!(result.last_elapsed_s.as_deref(), Some("12.5"));
    assert!(!result.saw_nan);
}

#[test]
fn wall_clock_stop_replaces_completed_steps() {
    let mut result = RunResult::default();
    result.update("step=99 loss=2.0");
    result.update("stopped_by_wall_clock=true completed_steps=77 elapsed_s=30.0");
    assert_eq!(result.completed_steps, Some(77));
    assert_eq!(result.last_step, Some(99));
    assert_eq!(result.last_elapsed_s.as_deref(), Some("30.0"));
}

#[test]
fn other_lines_leave_the_result_alone() {
    let mut result = RunResult::default();
    result.update("step=4 loss=2.0");
    result.update("note: nothing to see");
    assert_eq!(result.last_step, Some(4));
    assert_eq!(result.completed_steps, Some(5));
    assert_eq!(result.last_train_loss.as_deref(), Some("2.0"));
}

#[test]
fn field_takes_the_word_after_the_prefix() {
    assert_eq!(field("a=1 b=22 c=3", "b=").as_deref(), Some("22"));
    assert_eq!(field("a=1 b=", "b=").as_deref(), Some(""));
    assert_eq!(field("a=1 b=   ", "b=").as_deref(), Some("   "));
    assert_eq!(field("a=1", "z="), None);
    assert_eq!(field("x=  7  y", "x=").as_deref(), Some("7"));
}

#[test]
fn aurora_phases_follow_divisibility_and_block_limit() {
    assert_eq!(valid_aurora_phases(16, 80), vec![4, 8, 16]);
    assert_eq!(valid_aurora_phases(32, 180), vec![16]);
    assert_eq!(valid_aurora_phases(16, 180), vec![8, 16]);
    assert_eq!(valid_aurora_phases(7, 10), Vec::<usize>::new());
    assert_eq!(valid_aurora_phases(0, 0), vec![2, 4, 8, 16]);
}

#[test]
fn rng_is_xorshift_and_never_zero() {
    let mut rng = SweepRng::new(0);
    assert_eq!(rng.next_u64(), 1082269761);
    assert_eq!(rng.next_u64(), 1152992998833853505);
    assert_eq!(rng.next_u64(), 11177516664432764457);
    let mut other = SweepRng::new(1);
    assert_eq!(other.next_u64(), 1082269761);
}

#[test]
fn rng_usize_and_choose_use_the_next_draw() {
    let mut a = rng();
    assert_eq!(a.usize(7), 1);
    let mut b = rng();
    assert_eq!(b.choose_value(&[10, 11, 12, 13, 14, 15, 16]), 11);
    let mut c = rng();
    assert_eq!(random_usize_range(&mut c, 5, 11), 6);
    let mut d = rng();
    assert_eq!(d.next_u64(), 1294567605800646682);
}

#[test]
fn with_min_layers_raises_layers_and_refits_phases() {
    let shape = CandidateShape {
        batch_size: 8,
        n_layer: 2,
        n_embd: 1024,
        n_head: 16,
        aurora_phases: 2,
        aurora_blocks: 180,
    };
    let raised = shape.with_min_layers();
    assert_eq!(raised.n_layer, MIN_N_LAYER);
    assert_eq!(raised.aurora_phases, 8);
    assert_eq!(raised.batch_size, 8);
    assert_eq!(raised.with_min_layers(), raised);

    let big = CandidateShape { aurora_phases: 32, aurora_blocks: 80, ..shape };
    assert_eq!(big.with_min_layers().aurora_phases, 4);

    let kept = CandidateShape { n_layer: 8, ..shape };
    assert_eq!(kept.with_min_layers(), kept);
}

#[test]
fn build_env_lists_the_shape() {
    let shape = CandidateShape {
        batch_size: 8,
        n_layer: 4,
        n_embd: 1536,
        n_head: 12,
        aurora_phases: 8,
        aurora_blocks: 90,
    };
    let env = shape.build_env();
    let expected = vec![
        ("GPT2_BATCH_SIZE", "8"),
        ("GPT2_N_LAYER", "4"),
        ("GPT2_N_EMBD", "1536"),
        ("GPT2_N_HEAD", "12"),
        ("AURORA_MATRIX_PHASES", "8"),
        ("AURORA_COOPERATIVE_BLOCKS", "90"),
    ];
    assert_eq!(env.len(), expected.len());
    for ((name, value), (want_name, want_value)) in env.iter().zip(expected) {
        assert_eq!(*name, want_name);
        assert_eq!(value, want_value);
    }
}

#[test]
fn radical_inverse_mirrors_digits() {
    assert_eq!(radical_inverse_fraction(0, 2), (0, 1));
    assert_eq!(radical_inverse_fraction(1, 2), (1, 2));
    assert_eq!(radical_inverse_fraction(6, 2), (3, 8));
    assert_eq!(radical_inverse_fraction(5, 3), (7, 9));
    let units = halton_units(1);
    assert_eq!(units.len(), FACTOR_COUNT);
    assert_eq!(units[11], (1, 37));
}

#[test]
fn select_source_draws_tickets_by_count() {
    let (guided, local, coverage, random, variance) = (
        CandidateSource::Guided,
        CandidateSource::Local,
        CandidateSource::Coverage,
        CandidateSource::Random,
        CandidateSource::Variance,
    );
    let mut a = rng();
    assert_eq!(select_source(&[random, guided, guided], &mut a), Some(guided));
    let mut b = rng();
    assert_eq!(select_candidate(&[random, guided, guided], &mut b), Some(1));
    let mut c = rng();
    assert_eq!(select_source(&[random, coverage, local, random], &mut c), Some(random));
    let mut d = rng();
    assert_eq!(select_candidate(&[random, coverage, local, random], &mut d), Some(0));
    let mut e = rng();
    assert_eq!(select_source(&[], &mut e), None);
    assert_eq!(e.next_u64(), 1294567605800646682);
    assert_eq!(variance.name(), "variance");
}

fn row_shape() -> CandidateShape {
    CandidateShape {
        batch_size: 8,
        n_layer: 4,
        n_embd: 1024,
        n_head: 16,
        aurora_phases: 4,
        aurora_blocks: 80,
    }
}

fn sample_row() -> TrialRow {
    TrialRow {
        status: "success".to_string(),
        val_loss: format!("{:.6}", 4.25),
        completed_steps: Some(512),
        shape: row_shape(),
        lr_scale: format!("{:.6}", 1.0),
        adam_lr_scale: format!("{:.6}", 1.0),
        warmup_steps: 20,
        start_ratio: format!("{:.6}", 0.1),
        amuse_beta1: format!("{:.6}", 0.4),
        amuse_rho: format!("{:.6}", 0.8),
        log_path: "target/train.log".to_string(),
        elapsed_s: Some(format!("{:.6}", 123.5)),
    }
}

#[test]
fn roundtrips_elapsed_time_in_new_rows() {
    let row = sample_row();
    let parsed = parse_trial_row(&format_trial_row(&row)).unwrap();
    assert_eq!(parsed_f64(&parsed.elapsed_s), Some(123.5));
    assert_eq!(parsed.completed_steps, Some(512));
    assert_eq!(parsed.shape, row.shape);
    assert_eq!(parsed.lr_scale, row.lr_scale);
    assert_eq!(parsed.amuse_rho, row.amuse_rho);
}

#[test]
fn parses_old_rows_without_elapsed_time() {
    let parsed = parse_trial_row(
        "success\t4.250000\t512\t8\t4\t1024\t16\t4\t80\t1.000000\t1.000000\t20\t0.100000\t0.400000\t0.800000\ttarget/train.log",
    )
    .unwrap();

    assert_eq!(parsed.elapsed_s, None);
    assert_eq!(parsed.completed_steps, Some(512));
    assert_eq!(parsed.shape.batch_size, 8);
}

#[test]
fn trial_rows_reject_wrong_shapes() {
    assert!(parse_trial_row("success\t1.0").is_none());
    let mut row = format_trial_row(&sample_row());
    row = row.replacen("\t8\t", "\teight\t", 1);
    assert!(parse_trial_row(&row).is_none());
    let no_steps = TrialRow { completed_steps: None, elapsed_s: None, ..sample_row() };
    let line = format_trial_row(&no_steps);
    assert!(line.contains("success\t4.250000\t\t8\t"));
    let parsed = parse_trial_row(&line).unwrap();
    assert_eq!(parsed.completed_steps, None);
    assert_eq!(parsed.elapsed_s, None);
}

#[test]
fn trials_table_skips_header_and_bad_lines() {
    let text = format!(
        "{}\n{}\nnot a row\n{}\n",
        header(),
        format_trial_row(&sample_row()),
        format_trial_row(&TrialRow { status: "failed_run".to_string(), ..sample_row() })
    );
    let rows = parse_trials(&text);
    assert_eq!(rows.len(), 2);
    assert_eq!(rows[0].status, "success");
    assert_eq!(rows[1].status, "failed_run");
    assert_eq!(parse_trials("").len(), 0);
    assert_eq!(header().split('\t').count(), 17);
}

#[test]
fn trial_steps_follow_build_screen_and_training() {
    assert_eq!(
        next_action(TrialEvent::Started { dry_run: true }, 100),
        TrialAction::Finish(TrialStatus::DryRun)
    );
    assert_eq!(next_action(TrialEvent::Started { dry_run: false }, 100), TrialAction::Build);
    assert_eq!(
        next_action(TrialEvent::Built { success: false }, 100),
        TrialAction::Finish(TrialStatus::FailedBuild)
    );
    assert_eq!(next_action(TrialEvent::Built { success: true }, 100), TrialAction::Screen);
    let screened = |steps, loss, beats| {
        next_action(
            TrialEvent::Screened { completed_steps: steps, has_val_loss: loss, beats_baseline: beats },
            100,
        )
    };
    assert_eq!(screened(Some(100), true, true), TrialAction::Train);
    assert_eq!(screened(Some(99), true, true), TrialAction::Finish(TrialStatus::RejectedScreen));
    assert_eq!(screened(None, true, true), TrialAction::Finish(TrialStatus::RejectedScreen));
    assert_eq!(screened(Some(100), false, true), TrialAction::Finish(TrialStatus::RejectedScreen));
    assert_eq!(screened(Some(100), true, false), TrialAction::Finish(TrialStatus::RejectedScreen));
    let trained = |loss, nan| next_action(TrialEvent::Trained { has_val_loss: loss, saw_nan: nan }, 100);
    assert_eq!(trained(true, false), TrialAction::Finish(TrialStatus::Success));
    assert_eq!(trained(true, true), TrialAction::Finish(TrialStatus::NanWithVal));
    assert_eq!(trained(false, true), TrialAction::Finish(TrialStatus::Nan));
    assert_eq!(trained(false, false), TrialAction::Finish(TrialStatus::FailedRun));
    assert_eq!(TrialStatus::RejectedScreen.name(), "rejected_screen");
}

#[test]
fn progress_is_recorded_when_steps_or_loss_change() {
    let quiet = after_line(Some(3), Some(3), false, false);
    assert!(!quiet.record_progress && !quiet.stop_for_nan);
    assert!(after_line(Some(3), Some(4), false, false).record_progress);
    assert!(after_line(None, Some(1), false, false).record_progress);
    assert!(after_line(Some(1), Some(1), true, false).record_progress);
    let nan = after_line(Some(1), Some(1), false, true);
    assert!(nan.record_progress && nan.stop_for_nan);
}

#[test]
fn written_trials_table_reads_back() {
    let rows = vec![
        sample_row(),
        TrialRow { status: "nan".to_string(), completed_steps: None, elapsed_s: None, ..sample_row() },
    ];
    let text = format_trials(&rows);
    assert!(text.starts_with(header()));
    assert!(text.ends_with('\n'));
    let back = parse_trials(&text);
    assert_eq!(back.len(), 2);
    assert_eq!(back[0].status, "success");
    assert_eq!(back[0].elapsed_s, rows[0].elapsed_s);
    assert_eq!(back[1].status, "nan");
    assert_eq!(back[1].completed_steps, None);
    assert_eq!(back[1].shape, rows[1].shape);
    assert_eq!(format_trials(&Vec::new()), format!("{}\n", header()));
}

#[test]
fn finished_trials_keep_what_their_last_run_gave() {
    let dry = finished_record(TrialStatus::DryRun, Some(5), Some(1.5), Some(9));
    assert_eq!((dry.val_loss, dry.completed_steps, dry.log), (None, None, TrialLog::Train));
    let failed = finished_record(TrialStatus::FailedBuild, Some(5), Some(1.5), Some(9));
    assert_eq!((failed.val_loss, failed.completed_steps), (None, None));
    let screened = finished_record(TrialStatus::RejectedScreen, Some(5), Some(1.5), Some(9));
    assert_eq!(
        (screened.val_loss, screened.completed_steps, screened.log),
        (None, Some(5), TrialLog::Screen)
    );
    assert_eq!(screened.log.file_name(), "screen.log");
    for status in [TrialStatus::Success, TrialStatus::NanWithVal, TrialStatus::Nan, TrialStatus::FailedRun] {
        let run = finished_record(status, Some(5), Some(1.5), Some(9));
        assert_eq!((run.val_loss, run.completed_steps, run.log), (Some(1.5), Some(9), TrialLog::Train));
    }
    assert_eq!(TrialLog::Train.file_name(), "train.log");
}

#[test]
fn proposal_phase_prefers_baseline_then_random_then_model() {
    assert_eq!(proposal_phase(true, 0, 3), ProposalPhase::Baseline);
    assert_eq!(proposal_phase(true, 9, 3), ProposalPhase::Baseline);
    assert_eq!(proposal_phase(false, 2, 3), ProposalPhase::Random);
    assert_eq!(proposal_phase(false, 3, 3), ProposalPhase::Model);
    assert_eq!(ProposalPhase::Model.reason(), "model");
}

#[test]
fn following_a_run_stops_after_the_first_nan() {
    let lines: Vec<String> = [
        "step=0 loss=5.0",
        "step=1 loss=4.0",
        "step=2 loss=NaN finite=false",
        "heldout_eval val_loss=3.0 completed_steps=99",
    ]
    .iter()
    .map(|line| line.to_string())
    .collect();
    let (result, read) = follow_lines(&lines);
    assert_eq!(read, 3);
    assert!(result.saw_nan);
    assert_eq!(result.completed_steps, Some(3));
    assert_eq!(result.val_loss, None);
    let (clean, all) = follow_lines(&lines[..2].to_vec());
    assert_eq!(all, 2);
    assert!(!clean.saw_nan);
    assert_eq!(clean.last_train_loss.as_deref(), Some("4.0"));
}
