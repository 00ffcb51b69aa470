use image_optimizer::batch::BatchTotals;
use image_optimizer::cli::Cli;
use image_optimizer::encoder_settings::{Deflater, EncoderSettings, SettingsError};
use image_optimizer::file_job::{FileJob, FileOutcome, JobAction, JobEvent, PixelSource};
use image_optimizer::file_names::ImageFormat;

fn config(output: Option<&str>, backup: bool, max_size: Option<u32>) -> Cli {
    Cli {
        input: Some("/input".to_string()),
        output: output.map(|s| s.to_string()),
        backup,
        webp_lossless: false,
        jpeg_quality: 85,
        recursive: false,
        max_size,
        png_optimization_level: "2".to_string(),
        zopfli_iterations: 15,
        no_zopfli: false,
        no_parallel: false,
        update: false,
    }
}

/// Feeds each event to the job and returns the actions it asked for, ending with `Finish`.
fn drive(job: &mut FileJob, events: &[JobEvent]) -> Vec<JobAction> {
    let mut actions = Vec::new();
    for e in events {
        actions.push(job.next_action());
        job.advance(*e);
    }
    actions.push(job.next_action());
    actions
}

#[test]
fn jpeg_shrunk_in_place_replaces_original() {
    let mut job = FileJob::new(&config(None, false, None), ImageFormat::Jpeg).unwrap();
    let actions = drive(
        &mut job,
        &[JobEvent::Size(10_000), JobEvent::Completed, JobEvent::Size(8_000), JobEvent::Completed],
    );
    assert_eq!(
        actions,
        vec![
            JobAction::ReadOriginalSize,
            JobAction::Encode { settings: EncoderSettings::Jpeg { quality: 85 }, source: PixelSource::FromDisk },
            JobAction::ReadStagedSize,
            JobAction::ReplaceOriginal,
            JobAction::Finish(FileOutcome::Shrunk(2_000)),
        ]
    );
    let mut totals = BatchTotals::new();
    totals.record(FileOutcome::Shrunk(2_000));
    assert_eq!(totals, BatchTotals { processed: 1, skipped: 0, total_saved: 2_000 });
}

#[test]
fn png_grown_in_place_is_discarded_and_skipped() {
    let mut job = FileJob::new(&config(None, false, None), ImageFormat::Png).unwrap();
    let actions = drive(
        &mut job,
        &[JobEvent::Size(500), JobEvent::Completed, JobEvent::Size(600), JobEvent::Completed],
    );
    assert_eq!(actions[1], JobAction::Encode {
        settings: EncoderSettings::Png { level: 2, deflater: Deflater::Zopfli { iterations: 15 } },
        source: PixelSource::FromDisk,
    });
    assert_eq!(actions[3], JobAction::DiscardStaged);
    assert!(!actions.contains(&JobAction::ReplaceOriginal));
    assert_eq!(actions[4], JobAction::Finish(FileOutcome::NotSmaller));
    let mut totals = BatchTotals::new();
    totals.record(FileOutcome::NotSmaller);
    assert_eq!(totals, BatchTotals { processed: 0, skipped: 1, total_saved: 0 });
}

#[test]
fn equal_size_counts_as_not_smaller() {
    let mut job = FileJob::new(&config(None, false, None), ImageFormat::Webp).unwrap();
    let actions = drive(
        &mut job,
        &[JobEvent::Size(700), JobEvent::Completed, JobEvent::Size(700), JobEvent::Completed],
    );
    assert_eq!(actions[3], JobAction::DiscardStaged);
    assert_eq!(actions[4], JobAction::Finish(FileOutcome::NotSmaller));
}

#[test]
fn failed_encode_never_touches_original() {
    let mut job = FileJob::new(&config(None, true, None), ImageFormat::Jpeg).unwrap();
    let actions = drive(
        &mut job,
        &[JobEvent::Size(10_000), JobEvent::Completed, JobEvent::Failed, JobEvent::Size(1), JobEvent::Completed],
    );
    assert_eq!(actions[0], JobAction::ReadOriginalSize);
    assert_eq!(actions[1], JobAction::CreateBackup);
    assert!(matches!(actions[2], JobAction::Encode { .. }));
    assert!(!actions.contains(&JobAction::ReplaceOriginal));
    assert_eq!(*actions.last().unwrap(), JobAction::Finish(FileOutcome::Failed));
}

#[test]
fn mirrored_output_copies_original_when_not_smaller() {
    let mut job = FileJob::new(&config(Some("/out"), true, None), ImageFormat::Png).unwrap();
    let actions = drive(
        &mut job,
        &[JobEvent::Size(500), JobEvent::Completed, JobEvent::Completed, JobEvent::Size(900), JobEvent::Completed],
    );
    assert_eq!(actions[1], JobAction::PrepareOutputLocation);
    assert!(matches!(actions[2], JobAction::Encode { .. }));
    assert_eq!(actions[4], JobAction::CopyOriginalToOutput);
    assert_eq!(actions[5], JobAction::Finish(FileOutcome::NotSmaller));
}

#[test]
fn mirrored_output_keeps_smaller_encode() {
    let mut job = FileJob::new(&config(Some("/out"), false, None), ImageFormat::Webp).unwrap();
    let actions = drive(
        &mut job,
        &[JobEvent::Size(900), JobEvent::Completed, JobEvent::Completed, JobEvent::Size(500)],
    );
    assert_eq!(actions[4], JobAction::Finish(FileOutcome::Shrunk(400)));
    assert!(!actions.contains(&JobAction::ReplaceOriginal));
}

#[test]
fn max_edge_resizes_decoded_pixels() {
    let mut job = FileJob::new(&config(None, false, Some(600)), ImageFormat::Jpeg).unwrap();
    let actions = drive(
        &mut job,
        &[
            JobEvent::Size(10_000),
            JobEvent::Dimensions { width: 1200, height: 800 },
            JobEvent::Completed,
            JobEvent::Completed,
            JobEvent::Size(3_000),
            JobEvent::Completed,
        ],
    );
    assert_eq!(actions[1], JobAction::DecodeImage);
    assert_eq!(actions[2], JobAction::Resize { width: 600, height: 400 });
    assert_eq!(actions[3], JobAction::Encode {
        settings: EncoderSettings::Jpeg { quality: 85 },
        source: PixelSource::Decoded,
    });
    assert_eq!(actions[6], JobAction::Finish(FileOutcome::Shrunk(7_000)));
}

#[test]
fn max_edge_that_fits_skips_resize() {
    let mut job = FileJob::new(&config(None, false, Some(2000)), ImageFormat::Jpeg).unwrap();
    let actions = drive(&mut job, &[JobEvent::Size(10_000), JobEvent::Dimensions { width: 1200, height: 800 }]);
    assert!(matches!(actions[2], JobAction::Encode { source: PixelSource::Decoded, .. }));
}

#[test]
fn unexpected_event_fails_the_job() {
    let mut job = FileJob::new(&config(None, false, None), ImageFormat::Jpeg).unwrap();
    let actions = drive(&mut job, &[JobEvent::Completed]);
    assert_eq!(actions[1], JobAction::Finish(FileOutcome::Failed));
}

#[test]
fn invalid_png_level_rejects_png_jobs_only() {
    let mut cli = config(None, false, None);
    cli.png_optimization_level = "9".to_string();
    assert_eq!(FileJob::new(&cli, ImageFormat::Png), Err(SettingsError::InvalidPngLevel));
    assert!(FileJob::new(&cli, ImageFormat::Jpeg).is_ok());
}

#[test]
fn second_run_on_optimized_file_keeps_or_shrinks_it() {
    let cli = config(None, false, None);
    let mut first = FileJob::new(&cli, ImageFormat::Jpeg).unwrap();
    let a = drive(&mut first, &[JobEvent::Size(10_000), JobEvent::Completed, JobEvent::Size(8_000), JobEvent::Completed]);
    assert_eq!(*a.last().unwrap(), JobAction::Finish(FileOutcome::Shrunk(2_000)));

    let mut again = FileJob::new(&cli, ImageFormat::Jpeg).unwrap();
    let b = drive(&mut again, &[JobEvent::Size(8_000), JobEvent::Completed, JobEvent::Size(8_000), JobEvent::Completed]);
    assert_eq!(b[3], JobAction::DiscardStaged);
    assert_eq!(*b.last().unwrap(), JobAction::Finish(FileOutcome::NotSmaller));

    let mut third = FileJob::new(&cli, ImageFormat::Jpeg).unwrap();
    let c = drive(&mut third, &[JobEvent::Size(8_000), JobEvent::Completed, JobEvent::Size(7_999), JobEvent::Completed]);
    assert_eq!(*c.last().unwrap(), JobAction::Finish(FileOutcome::Shrunk(1)));
}

#[test]
fn failed_replacement_reports_failure() {
    let mut job = FileJob::new(&config(None, false, None), ImageFormat::Jpeg).unwrap();
    let actions = drive(&mut job, &[JobEvent::Size(10), JobEvent::Completed, JobEvent::Size(5), JobEvent::Failed]);
    assert_eq!(actions[3], JobAction::ReplaceOriginal);
    assert_eq!(actions[4], JobAction::Finish(FileOutcome::Failed));
}
