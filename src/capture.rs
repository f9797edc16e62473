//! Decisions of the capture pipeline around the browser calls: which URLs
//! may be captured, which viewport and capture mode apply, how the PNG from
//! the browser is transcoded, and how a successful result is packaged.

use std::time::Duration;
use vstd::prelude::*;

use crate::clock::system_now;
use crate::config::{Config, OutputFormat, ScreenshotMetadata, ScreenshotRequest, ScreenshotResult, Viewport};
use crate::error::ScreenshotError;
use crate::urls::{is_web_url, parsed_scheme, web_scheme};

verus! {

/// The bytes that decoding `png` with `image::load_from_memory` and encoding
/// the image in `format` with `DynamicImage::write_to` give, or `None` where
/// either step fails.
pub uninterp spec fn transcoded(png: Seq<u8>, format: OutputFormat) -> Option<Seq<u8>>;

/// Relies on `image::load_from_memory` (format guessed from the bytes) and
/// `DynamicImage::write_to` (encoding into memory); a failure of either is
/// kept as text.
#[verifier::external_body]
fn transcode(png: &Vec<u8>, format: OutputFormat) -> (r: Result<Vec<u8>, String>)
    ensures
        r is Ok <==> transcoded(png@, format) is Some,
        r matches Ok(b) ==> Some(b@) == transcoded(png@, format),
{
    let target = match format {
        OutputFormat::Png => image::ImageFormat::Png,
        OutputFormat::Jpeg => image::ImageFormat::Jpeg,
        OutputFormat::Webp => image::ImageFormat::WebP,
    };
    let img = image::load_from_memory(png).map_err(|e| e.to_string())?;
    let mut out: Vec<u8> = Vec::new();
    img.write_to(&mut std::io::Cursor::new(&mut out), target).map_err(|e| e.to_string())?;
    Ok(out)
}

/// Only http and https URLs are captured; anything else fails at once
/// with `InvalidUrl`, which is not retried.
pub fn check_capture_url(url: &str) -> (r: Result<(), ScreenshotError>)
    ensures
        r is Ok <==> (parsed_scheme(url@) matches Some(s) && web_scheme(s)),
        r is Err ==> (r matches Err(ScreenshotError::InvalidUrl(u)) && u@ == url@),
{
    if is_web_url(url) {
        Ok(())
    } else {
        Err(ScreenshotError::InvalidUrl(String::from_str(url)))
    }
}

/// The request's own viewport if it has one, else the configured one.
pub fn effective_viewport(request: &ScreenshotRequest, config: &Config) -> (r: Viewport)
    ensures
        r == match request.custom_viewport {
            Some(v) => v,
            None => config.viewport,
        },
{
    match request.custom_viewport {
        Some(v) => v,
        None => config.viewport,
    }
}

/// What part of the page is captured.
#[derive(Debug, Clone, PartialEq, Eq)]
pub enum CaptureMode {
    /// The visible viewport.
    Viewport,
    /// The whole scrollable page.
    FullPage,
    /// The element that the selector finds.
    Element(String),
}

/// An element selector wins over the full-page flag; otherwise the viewport.
pub fn capture_mode(request: &ScreenshotRequest) -> (r: CaptureMode)
    ensures
        match request.element_selector {
            Some(sel) => r matches CaptureMode::Element(s) && s == sel,
            None => if request.full_page {
                r matches CaptureMode::FullPage
            } else {
                r matches CaptureMode::Viewport
            },
        },
{
    match &request.element_selector {
        Some(sel) => CaptureMode::Element(sel.clone()),
        None => if request.full_page {
            CaptureMode::FullPage
        } else {
            CaptureMode::Viewport
        },
    }
}

/// Turns the browser's PNG into the configured format. PNG passes through
/// untouched; JPEG and WebP go through the image library, and any failure
/// there is a `CaptureFailed`.
pub fn convert_image_format(png_data: Vec<u8>, format: OutputFormat) -> (r: Result<
    Vec<u8>,
    ScreenshotError,
>)
    ensures
        format == OutputFormat::Png ==> r == Ok::<Vec<u8>, ScreenshotError>(png_data),
        format != OutputFormat::Png ==> (r is Ok <==> transcoded(png_data@, format) is Some),
        format != OutputFormat::Png ==> (r matches Ok(b) ==> Some(b@) == transcoded(
            png_data@,
            format,
        )),
        r is Err ==> r matches Err(ScreenshotError::CaptureFailed(_)),
{
    match format {
        OutputFormat::Png => Ok(png_data),
        _ => match transcode(&png_data, format) {
            Ok(bytes) => Ok(bytes),
            Err(msg) => Err(ScreenshotError::CaptureFailed(msg)),
        },
    }
}

/// A capture error on an instance whose event loop has ended means the
/// browser died: it becomes `BrowserProcessDied` (retryable), and the
/// caller marks the instance failed. Timeouts and errors on a live browser
/// pass through unchanged. The flag tells whether the browser died.
pub fn classify_capture_error(error: ScreenshotError, loop_alive: bool) -> (r: (ScreenshotError, bool))
    ensures
        r.1 == (!loop_alive && !(error matches ScreenshotError::Timeout(_))),
        r.1 ==> (r.0 matches ScreenshotError::BrowserProcessDied(_)),
        !r.1 ==> r.0 == error,
{
    match error {
        ScreenshotError::Timeout(d) => (ScreenshotError::Timeout(d), false),
        other => if loop_alive {
            (other, false)
        } else {
            (
                ScreenshotError::BrowserProcessDied(
                    String::from_str("the browser's event loop has ended"),
                ),
                true,
            )
        },
    }
}

/// The final URL to report: the one the page observed, else the request's.
pub fn final_url_or_requested(request: &ScreenshotRequest, observed: Option<String>) -> (r: Option<
    String,
>)
    ensures
        r == match observed {
            Some(u) => Some(u),
            None => Some(request.url),
        },
{
    match observed {
        Some(u) => Some(u),
        None => Some(request.url.clone()),
    }
}

/// Packages a successful capture.
pub fn success_result(
    request: &ScreenshotRequest,
    data: Vec<u8>,
    format: OutputFormat,
    duration: Duration,
    viewport: Viewport,
    page_title: Option<String>,
    final_url: Option<String>,
    browser_instance_id: usize,
) -> (r: ScreenshotResult)
    ensures
        r.request_id == request.id,
        r.url == request.url,
        r.data == data,
        r.format == format,
        r.duration == duration,
        r.success,
        r.error.is_none(),
        r.metadata.viewport == viewport,
        r.metadata.page_title == page_title,
        r.metadata.final_url == final_url,
        r.metadata.response_status.is_none(),
        r.metadata.file_size == data@.len(),
        r.metadata.browser_instance_id == browser_instance_id,
{
    let file_size = data.len();
    ScreenshotResult {
        request_id: request.id.clone(),
        url: request.url.clone(),
        data,
        format,
        timestamp: system_now(),
        duration,
        success: true,
        error: None,
        metadata: ScreenshotMetadata {
            viewport,
            page_title,
            final_url,
            response_status: None,
            file_size,
            browser_instance_id,
        },
    }
}

} // verus!
