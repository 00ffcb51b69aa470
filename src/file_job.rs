//! The optimisation of one file as a state machine. The job names the next
//! filesystem or codec action; the caller performs it and reports the event that
//! came of it. The original file is replaced only after the staged encode has been
//! measured strictly smaller, and a failure at any step ends the job.
use vstd::prelude::*;
use crate::cli::Cli;
use crate::encoder_settings::{encoder_settings, settings_of, EncoderSettings, SettingsError};
use crate::file_names::ImageFormat;
use crate::size_calculator::{calculate_resize_dimensions, resize_plan};

verus! {

/// Where the encoder takes its pixels from.
#[derive(Debug, Clone, Copy, PartialEq, Eq, Structural)]
pub enum PixelSource {
    /// Decode the original file at its own resolution.
    FromDisk,
    /// The pixels decoded (and possibly resized) by earlier actions.
    Decoded,
}

/// How the optimisation of one file ended.
#[derive(Debug, Clone, Copy, PartialEq, Eq, Structural)]
pub enum FileOutcome {
    /// The optimised file is smaller by this many bytes.
    Shrunk(u64),
    /// Re-encoding did not make the file smaller.
    NotSmaller,
    /// An action failed.
    Failed,
}

/// Progress of a job.
#[derive(Debug, Clone, Copy, PartialEq, Eq, Structural)]
pub enum Phase {
    Start,
    /// The original size is known; the output location or backup comes next.
    Sized { original: u64 },
    /// Ready to decode or encode.
    Prepared { original: u64 },
    /// Decoded; the pixels are to be scaled to these dimensions.
    Resizing { original: u64, width: u32, height: u32 },
    /// Pixels are ready for the encoder.
    Ready { original: u64, source: PixelSource },
    /// The encoder has written the staging file.
    Encoded { original: u64 },
    /// The staging file was measured and is to be kept or dropped.
    Measured { original: u64, staged: u64 },
    Finished(FileOutcome),
}

/// What the caller is to do next.
#[derive(Debug, Clone, Copy, PartialEq, Eq, Structural)]
pub enum JobAction {
    /// Report the size of the original file.
    ReadOriginalSize,
    /// Create the directories of the mirrored output path.
    PrepareOutputLocation,
    /// Copy the original file to its backup name.
    CreateBackup,
    /// Decode the original and report its dimensions.
    DecodeImage,
    /// Scale the decoded pixels to these dimensions.
    Resize { width: u32, height: u32 },
    /// Encode into the staging location (the output path when mirroring).
    Encode { settings: EncoderSettings, source: PixelSource },
    /// Report the size of the staged file.
    ReadStagedSize,
    /// Rename the staged file over the original.
    ReplaceOriginal,
    /// Delete the staged file.
    DiscardStaged,
    /// Copy the original, unmodified, to the output path.
    CopyOriginalToOutput,
    /// Nothing is left to do.
    Finish(FileOutcome),
}

/// What came of the last action.
#[derive(Debug, Clone, Copy, PartialEq, Eq, Structural)]
pub enum JobEvent {
    Size(u64),
    Dimensions { width: u32, height: u32 },
    Completed,
    Failed,
}

/// The optimisation of one file.
#[derive(Debug, Clone, Copy, PartialEq, Eq, Structural)]
pub struct FileJob {
    pub settings: EncoderSettings,
    /// Replace the original (true) or write into a mirrored output tree (false).
    pub in_place: bool,
    /// Back the original up first (in-place mode only).
    pub backup: bool,
    pub max_edge: Option<u32>,
    pub phase: Phase,
}

/// The action a job asks for next.
pub open spec fn next_action_of(job: FileJob) -> JobAction {
    match job.phase {
        Phase::Start => JobAction::ReadOriginalSize,
        Phase::Sized { .. } => if job.in_place {
            JobAction::CreateBackup
        } else {
            JobAction::PrepareOutputLocation
        },
        Phase::Prepared { .. } => match job.max_edge {
            Some(_) => JobAction::DecodeImage,
            None => JobAction::Encode { settings: job.settings, source: PixelSource::FromDisk },
        },
        Phase::Resizing { width, height, .. } => JobAction::Resize { width, height },
        Phase::Ready { source, .. } => JobAction::Encode { settings: job.settings, source },
        Phase::Encoded { .. } => JobAction::ReadStagedSize,
        Phase::Measured { original, staged } => if staged < original {
            JobAction::ReplaceOriginal
        } else if job.in_place {
            JobAction::DiscardStaged
        } else {
            JobAction::CopyOriginalToOutput
        },
        Phase::Finished(outcome) => JobAction::Finish(outcome),
    }
}

/// The phase after `event` answered the job's next action. An event of the wrong
/// kind counts as a failure; a finished job stays as it is.
pub open spec fn next_phase_of(job: FileJob, event: JobEvent) -> Phase {
    let failed = Phase::Finished(FileOutcome::Failed);
    match job.phase {
        Phase::Start => match event {
            JobEvent::Size(n) => if job.in_place && !job.backup {
                Phase::Prepared { original: n }
            } else {
                Phase::Sized { original: n }
            },
            _ => failed,
        },
        Phase::Sized { original } => match event {
            JobEvent::Completed => Phase::Prepared { original },
            _ => failed,
        },
        Phase::Prepared { original } => match job.max_edge {
            Some(m) => match event {
                JobEvent::Dimensions { width, height } => {
                    let (w, h) = resize_plan(width as nat, height as nat, m as nat);
                    if w == width && h == height {
                        Phase::Ready { original, source: PixelSource::Decoded }
                    } else {
                        Phase::Resizing { original, width: w as u32, height: h as u32 }
                    }
                },
                _ => failed,
            },
            None => match event {
                JobEvent::Completed => Phase::Encoded { original },
                _ => failed,
            },
        },
        Phase::Resizing { original, .. } => match event {
            JobEvent::Completed => Phase::Ready { original, source: PixelSource::Decoded },
            _ => failed,
        },
        Phase::Ready { original, .. } => match event {
            JobEvent::Completed => Phase::Encoded { original },
            _ => failed,
        },
        Phase::Encoded { original } => match event {
            JobEvent::Size(staged) => if staged < original && !job.in_place {
                Phase::Finished(FileOutcome::Shrunk((original - staged) as u64))
            } else {
                Phase::Measured { original, staged }
            },
            _ => failed,
        },
        Phase::Measured { original, staged } => match event {
            JobEvent::Completed => if staged < original {
                Phase::Finished(FileOutcome::Shrunk((original - staged) as u64))
            } else {
                Phase::Finished(FileOutcome::NotSmaller)
            },
            _ => failed,
        },
        Phase::Finished(_) => job.phase,
    }
}

impl FileJob {
    /// A job only measures a staged file in in-place mode, or when it is not smaller;
    /// a shrunk outcome saved at least one byte; the settings are well formed.
    pub open spec fn wf(&self) -> bool {
        &&& self.settings.wf()
        &&& match self.phase {
            Phase::Measured { original, staged } => self.in_place || staged >= original,
            Phase::Finished(FileOutcome::Shrunk(s)) => s > 0,
            _ => true,
        }
    }

    /// A new job for a file of the given format.
    pub fn new(cli: &Cli, format: ImageFormat) -> (r: Result<FileJob, SettingsError>)
        requires
            cli.wf(),
        ensures
            r matches Ok(job) ==> job.wf(),
            match settings_of(*cli, format) {
                Some(st) => r == Ok::<FileJob, SettingsError>(FileJob {
                    settings: st,
                    in_place: cli.output is None,
                    backup: cli.backup,
                    max_edge: cli.max_size,
                    phase: Phase::Start,
                }),
                None => r == Err::<FileJob, SettingsError>(SettingsError::InvalidPngLevel),
            },
    {
        let settings = encoder_settings(cli, format)?;
        Ok(FileJob {
            settings,
            in_place: cli.in_place(),
            backup: cli.backup,
            max_edge: cli.max_size,
            phase: Phase::Start,
        })
    }

    /// The action the caller is to perform next.
    pub fn next_action(&self) -> (r: JobAction)
        ensures
            r == next_action_of(*self),
    {
        match self.phase {
            Phase::Start => JobAction::ReadOriginalSize,
            Phase::Sized { .. } => if self.in_place {
                JobAction::CreateBackup
            } else {
                JobAction::PrepareOutputLocation
            },
            Phase::Prepared { .. } => match self.max_edge {
                Some(_) => JobAction::DecodeImage,
                None => JobAction::Encode { settings: self.settings, source: PixelSource::FromDisk },
            },
            Phase::Resizing { width, height, .. } => JobAction::Resize { width, height },
            Phase::Ready { source, .. } => JobAction::Encode { settings: self.settings, source },
            Phase::Encoded { .. } => JobAction::ReadStagedSize,
            Phase::Measured { original, staged } => if staged < original {
                JobAction::ReplaceOriginal
            } else if self.in_place {
                JobAction::DiscardStaged
            } else {
                JobAction::CopyOriginalToOutput
            },
            Phase::Finished(outcome) => JobAction::Finish(outcome),
        }
    }

    /// Takes in what came of the last action.
    pub fn advance(&mut self, event: JobEvent)
        requires
            old(self).wf(),
        ensures
            final(self).wf(),
            *final(self) == (FileJob { phase: next_phase_of(*old(self), event), ..*old(self) }),
    {
        let failed = Phase::Finished(FileOutcome::Failed);
        let next = match self.phase {
            Phase::Start => match event {
                JobEvent::Size(n) => if self.in_place && !self.backup {
                    Phase::Prepared { original: n }
                } else {
                    Phase::Sized { original: n }
                },
                _ => failed,
            },
            Phase::Sized { original } => match event {
                JobEvent::Completed => Phase::Prepared { original },
                _ => failed,
            },
            Phase::Prepared { original } => match self.max_edge {
                Some(m) => match event {
                    JobEvent::Dimensions { width, height } => {
                        let (w, h) = calculate_resize_dimensions(width, height, m);
                        if w == width && h == height {
                            Phase::Ready { original, source: PixelSource::Decoded }
                        } else {
                            Phase::Resizing { original, width: w, height: h }
                        }
                    },
                    _ => failed,
                },
                None => match event {
                    JobEvent::Completed => Phase::Encoded { original },
                    _ => failed,
                },
            },
            Phase::Resizing { original, .. } => match event {
                JobEvent::Completed => Phase::Ready { original, source: PixelSource::Decoded },
                _ => failed,
            },
            Phase::Ready { original, .. } => match event {
                JobEvent::Completed => Phase::Encoded { original },
                _ => failed,
            },
            Phase::Encoded { original } => match event {
                JobEvent::Size(staged) => if staged < original && !self.in_place {
                    Phase::Finished(FileOutcome::Shrunk(original - staged))
                } else {
                    Phase::Measured { original, staged }
                },
                _ => failed,
            },
            Phase::Measured { original, staged } => match event {
                JobEvent::Completed => if staged < original {
                    Phase::Finished(FileOutcome::Shrunk(original - staged))
                } else {
                    Phase::Finished(FileOutcome::NotSmaller)
                },
                _ => failed,
            },
            Phase::Finished(_) => self.phase,
        };
        self.phase = next;
    }
}

} // verus!
