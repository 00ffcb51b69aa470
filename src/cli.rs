//! The run configuration, as given on the command line.
use vstd::prelude::*;
use vstd::string::*;

verus! {

/// Configuration of one optimisation run. It is read, never changed, while files
/// are processed.
#[derive(Debug)]
pub struct Cli {
    /// Input directory or file to process.
    pub input: Option<String>,
    /// Output directory; without one, files are optimised in place.
    pub output: Option<String>,
    /// Copy each file to a `.bak` sibling before optimising it in place.
    pub backup: bool,
    /// Use lossless compression (JPEG at quality 100, lossless WebP).
    pub webp_lossless: bool,
    /// Lossy quality, 1 to 100.
    pub jpeg_quality: u8,
    /// Scan subdirectories too.
    pub recursive: bool,
    /// Largest allowed longer edge; larger images are scaled down.
    pub max_size: Option<u32>,
    /// PNG optimisation effort: "0" to "6", or "max".
    pub png_optimization_level: String,
    /// Zopfli iterations, at least 1.
    pub zopfli_iterations: u8,
    /// Use the fast deflate backend instead of zopfli.
    pub no_zopfli: bool,
    /// Process files one at a time.
    pub no_parallel: bool,
    /// Update the program instead of optimising.
    pub update: bool,
}

impl Cli {
    /// The zopfli iteration count is never zero.
    pub open spec fn wf(&self) -> bool {
        self.zopfli_iterations >= 1
    }

    /// Files are optimised in place when no output directory is given.
    pub open spec fn spec_in_place(&self) -> bool {
        self.output is None
    }

    pub fn in_place(&self) -> (r: bool)
        ensures
            r == self.spec_in_place(),
    {
        self.output.is_none()
    }
}

/// Why a configuration cannot start an optimisation run.
#[derive(Debug, Clone, Copy, PartialEq, Eq, Structural)]
pub enum RequestError {
    InputRequired,
    QualityOutOfRange,
}

impl RequestError {
    pub fn message(&self) -> (r: String)
        ensures
            r@ == match self {
                RequestError::InputRequired => "Input file or directory is required"@,
                RequestError::QualityOutOfRange => "Quality must be between 1 and 100"@,
            },
    {
        match self {
            RequestError::InputRequired => String::from_str("Input file or directory is required"),
            RequestError::QualityOutOfRange => String::from_str("Quality must be between 1 and 100"),
        }
    }
}

/// Checks that an optimisation run can start: an input is given and the quality
/// lies in 1..=100.
pub fn validate_request(cli: &Cli) -> (r: Result<(), RequestError>)
    ensures
        cli.input is None ==> r == Err::<(), RequestError>(RequestError::InputRequired),
        cli.input is Some && !(1 <= cli.jpeg_quality <= 100)
            ==> r == Err::<(), RequestError>(RequestError::QualityOutOfRange),
        cli.input is Some && 1 <= cli.jpeg_quality <= 100 ==> r is Ok,
{
    if cli.input.is_none() {
        return Err(RequestError::InputRequired);
    }
    if cli.jpeg_quality < 1 || cli.jpeg_quality > 100 {
        return Err(RequestError::QualityOutOfRange);
    }
    Ok(())
}

} // verus!
