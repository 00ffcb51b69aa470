//! What each format encoder is asked to do, derived from the run configuration.
use vstd::prelude::*;
use vstd::string::*;
use crate::cli::Cli;
use crate::file_names::ImageFormat;
use crate::text::{parse_u32, parse_u32_text};

verus! {

/// The deflate backend of the PNG optimiser.
#[derive(Debug, Clone, Copy, PartialEq, Eq, Structural)]
pub enum Deflater {
    /// The fast backend, at the given compression level.
    Libdeflater { compression: u8 },
    /// The slower iterative backend.
    Zopfli { iterations: u8 },
}

/// The parameters of one encode.
#[derive(Debug, Clone, Copy, PartialEq, Eq, Structural)]
pub enum EncoderSettings {
    Jpeg { quality: u8 },
    Png { level: u8, deflater: Deflater },
    Webp { lossless: bool, quality: u8 },
}

impl EncoderSettings {
    /// Zopfli runs at least one iteration.
    pub open spec fn wf(&self) -> bool {
        self matches EncoderSettings::Png { deflater: Deflater::Zopfli { iterations }, .. } ==> iterations >= 1
    }
}

/// The configured PNG effort cannot be used.
#[derive(Debug, Clone, Copy, PartialEq, Eq, Structural)]
pub enum SettingsError {
    InvalidPngLevel,
}

impl SettingsError {
    pub fn message(&self) -> (r: String)
        ensures
            r@ == "Invalid oxipng optimization level. Valid values are 0-6 or 'max'"@,
    {
        String::from_str("Invalid oxipng optimization level. Valid values are 0-6 or 'max'")
    }
}

/// The PNG effort named by a level string: "max" is 6, otherwise a number from 0 to 6.
pub open spec fn png_level_of(s: Seq<char>) -> Option<u8> {
    if s == seq!['m', 'a', 'x'] {
        Some(6u8)
    } else {
        match parse_u32(s) {
            Some(v) => if v <= 6 { Some(v as u8) } else { None },
            None => None,
        }
    }
}

/// JPEG quality: 100 in lossless mode, the configured quality otherwise.
pub open spec fn jpeg_quality_of(cli: Cli) -> u8 {
    if cli.webp_lossless { 100 } else { cli.jpeg_quality }
}

pub open spec fn deflater_of(cli: Cli) -> Deflater {
    if cli.no_zopfli {
        Deflater::Libdeflater { compression: 12 }
    } else {
        Deflater::Zopfli { iterations: cli.zopfli_iterations }
    }
}

/// The settings for encoding a file of the given format.
pub open spec fn settings_of(cli: Cli, format: ImageFormat) -> Option<EncoderSettings> {
    match format {
        ImageFormat::Jpeg => Some(EncoderSettings::Jpeg { quality: jpeg_quality_of(cli) }),
        ImageFormat::Png => match png_level_of(cli.png_optimization_level@) {
            Some(level) => Some(EncoderSettings::Png { level, deflater: deflater_of(cli) }),
            None => None,
        },
        ImageFormat::Webp => Some(
            EncoderSettings::Webp { lossless: cli.webp_lossless, quality: cli.jpeg_quality },
        ),
    }
}

/// Parses the PNG effort: "max" or a number from 0 to 6.
pub fn png_level(s: &str) -> (r: Result<u8, SettingsError>)
    ensures
        match png_level_of(s@) {
            Some(l) => r == Ok::<u8, SettingsError>(l),
            None => r == Err::<u8, SettingsError>(SettingsError::InvalidPngLevel),
        },
{
    proof {
        reveal_strlit("max");
    }
    let n = s.unicode_len();
    if n == 3 && s.get_char(0) == 'm' && s.get_char(1) == 'a' && s.get_char(2) == 'x' {
        assert(s@ =~= seq!['m', 'a', 'x']);
        return Ok(6);
    }
    assert(s@ != seq!['m', 'a', 'x']);
    match parse_u32_text(s) {
        Some(v) => if v <= 6 {
            Ok(v as u8)
        } else {
            Err(SettingsError::InvalidPngLevel)
        },
        None => Err(SettingsError::InvalidPngLevel),
    }
}

/// The encoder settings for a file of the given format under this configuration.
pub fn encoder_settings(cli: &Cli, format: ImageFormat) -> (r: Result<EncoderSettings, SettingsError>)
    requires
        cli.wf(),
    ensures
        r matches Ok(st) ==> st.wf(),
        match settings_of(*cli, format) {
            Some(st) => r == Ok::<EncoderSettings, SettingsError>(st),
            None => r == Err::<EncoderSettings, SettingsError>(SettingsError::InvalidPngLevel),
        },
{
    match format {
        ImageFormat::Jpeg => {
            let quality = if cli.webp_lossless { 100 } else { cli.jpeg_quality };
            Ok(EncoderSettings::Jpeg { quality })
        },
        ImageFormat::Png => {
            let level = png_level(cli.png_optimization_level.as_str())?;
            let deflater = if cli.no_zopfli {
                Deflater::Libdeflater { compression: 12 }
            } else {
                Deflater::Zopfli { iterations: cli.zopfli_iterations }
            };
            Ok(EncoderSettings::Png { level, deflater })
        },
        ImageFormat::Webp => Ok(EncoderSettings::Webp { lossless: cli.webp_lossless, quality: cli.jpeg_quality }),
    }
}

} // verus!
