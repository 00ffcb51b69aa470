use image_optimizer::cli::{validate_request, Cli, RequestError};
use image_optimizer::encoder_settings::{encoder_settings, png_level, Deflater, EncoderSettings, SettingsError};
use image_optimizer::file_names::ImageFormat;

fn base_config() -> Cli {
    Cli {
        input: Some("/input".to_string()),
        output: None,
        backup: false,
        webp_lossless: false,
        jpeg_quality: 85,
        recursive: false,
        max_size: None,
        png_optimization_level: "2".to_string(),
        zopfli_iterations: 15,
        no_zopfli: false,
        no_parallel: false,
        update: false,
    }
}

#[test]
fn png_levels() {
    assert_eq!(png_level("max"), Ok(6));
    assert_eq!(png_level("0"), Ok(0));
    assert_eq!(png_level("6"), Ok(6));
    assert_eq!(png_level("+3"), Ok(3));
    assert_eq!(png_level("7"), Err(SettingsError::InvalidPngLevel));
    assert_eq!(png_level("MAX"), Err(SettingsError::InvalidPngLevel));
    assert_eq!(png_level(""), Err(SettingsError::InvalidPngLevel));
    assert_eq!(png_level("300"), Err(SettingsError::InvalidPngLevel));
}

#[test]
fn lossless_sets_jpeg_quality_to_100() {
    let mut cli = base_config();
    assert_eq!(encoder_settings(&cli, ImageFormat::Jpeg), Ok(EncoderSettings::Jpeg { quality: 85 }));
    cli.webp_lossless = true;
    assert_eq!(encoder_settings(&cli, ImageFormat::Jpeg), Ok(EncoderSettings::Jpeg { quality: 100 }));
    assert_eq!(
        encoder_settings(&cli, ImageFormat::Webp),
        Ok(EncoderSettings::Webp { lossless: true, quality: 85 })
    );
}

#[test]
fn deflater_choice() {
    let mut cli = base_config();
    cli.png_optimization_level = "max".to_string();
    cli.no_zopfli = true;
    assert_eq!(
        encoder_settings(&cli, ImageFormat::Png),
        Ok(EncoderSettings::Png { level: 6, deflater: Deflater::Libdeflater { compression: 12 } })
    );
}

#[test]
fn request_validation() {
    let mut cli = base_config();
    assert_eq!(validate_request(&cli), Ok(()));
    cli.jpeg_quality = 101;
    assert_eq!(validate_request(&cli), Err(RequestError::QualityOutOfRange));
    cli.jpeg_quality = 0;
    assert_eq!(validate_request(&cli), Err(RequestError::QualityOutOfRange));
    cli.jpeg_quality = 100;
    assert_eq!(validate_request(&cli), Ok(()));
    cli.input = None;
    assert_eq!(validate_request(&cli), Err(RequestError::InputRequired));
    assert_eq!(RequestError::InputRequired.message(), "Input file or directory is required");
}
