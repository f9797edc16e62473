//! Configuration records, capture requests and capture results.

use std::time::{Duration, SystemTime};
use vstd::prelude::*;

use crate::clock::{duration_from_millis, duration_from_secs, duration_secs, millis_of, secs_of};
use crate::error::ScreenshotError;

verus! {

#[derive(Debug, Clone, Copy, PartialEq, Eq, Structural)]
pub enum OutputFormat {
    Png,
    Jpeg,
    Webp,
}

#[derive(Debug, Clone, Copy, PartialEq, Eq, Structural)]
pub enum Priority {
    Low,
    Normal,
    High,
    Critical,
}

impl Default for Priority {
    fn default() -> (r: Self)
        ensures
            r == Priority::Normal,
    {
        Priority::Normal
    }
}

/// Browser viewport. The device pixel ratio is kept in thousandths
/// (`1000` is a ratio of 1.0).
#[derive(Debug, Clone, Copy, PartialEq, Eq, Structural)]
pub struct Viewport {
    pub width: u32,
    pub height: u32,
    pub device_scale_factor_milli: u32,
    pub mobile: bool,
}

impl Default for Viewport {
    fn default() -> (r: Self)
        ensures
            r == (Viewport {
                width: 1920,
                height: 1080,
                device_scale_factor_milli: 1000,
                mobile: false,
            }),
    {
        Viewport { width: 1920, height: 1080, device_scale_factor_milli: 1000, mobile: false }
    }
}

#[derive(Debug, Clone, Copy, PartialEq, Eq, Structural)]
pub struct OptimizationSettings {
    pub block_ads: bool,
    pub block_trackers: bool,
    pub block_images: bool,
    pub enable_javascript: bool,
    pub wait_for_network_idle: bool,
    pub disable_css: bool,
    pub disable_plugins: bool,
}

impl Default for OptimizationSettings {
    fn default() -> (r: Self)
        ensures
            r == (OptimizationSettings {
                block_ads: true,
                block_trackers: true,
                block_images: false,
                enable_javascript: true,
                wait_for_network_idle: false,
                disable_css: false,
                disable_plugins: true,
            }),
    {
        OptimizationSettings {
            block_ads: true,
            block_trackers: true,
            block_images: false,
            enable_javascript: true,
            wait_for_network_idle: false,
            disable_css: false,
            disable_plugins: true,
        }
    }
}

/// Default memory limit per browser instance: one GiB.
pub const DEFAULT_MEMORY_LIMIT: usize = 1073741824;

#[derive(Debug, Clone)]
pub struct Config {
    pub browser_pool_size: usize,
    pub max_concurrent_screenshots: usize,
    pub screenshot_timeout: Duration,
    pub retry_attempts: usize,
    pub output_format: OutputFormat,
    pub viewport: Viewport,
    pub optimization: OptimizationSettings,
    pub chrome_path: Option<String>,
    pub user_agent: Option<String>,
    pub memory_limit: Option<usize>,
}

impl Default for Config {
    fn default() -> (r: Self)
        ensures
            r.browser_pool_size == 10,
            r.max_concurrent_screenshots == 200,
            r.retry_attempts == 3,
            secs_of(r.screenshot_timeout) == 30,
            millis_of(r.screenshot_timeout) == 30000,
            r.output_format == OutputFormat::Png,
            r.viewport == (Viewport {
                width: 1920,
                height: 1080,
                device_scale_factor_milli: 1000,
                mobile: false,
            }),
            r.optimization == (OptimizationSettings {
                block_ads: true,
                block_trackers: true,
                block_images: false,
                enable_javascript: true,
                wait_for_network_idle: false,
                disable_css: false,
                disable_plugins: true,
            }),
            r.chrome_path.is_none(),
            r.user_agent.is_none(),
            r.memory_limit == Some(DEFAULT_MEMORY_LIMIT),
    {
        Config {
            browser_pool_size: 10,
            max_concurrent_screenshots: 200,
            screenshot_timeout: duration_from_secs(30),
            retry_attempts: 3,
            output_format: OutputFormat::Png,
            viewport: Viewport::default(),
            optimization: OptimizationSettings::default(),
            chrome_path: None,
            user_agent: None,
            memory_limit: Some(DEFAULT_MEMORY_LIMIT),
        }
    }
}

/// Which of a configuration's checks fails first, if any.
pub open spec fn config_problem(c: Config, timeout_secs: u64) -> Option<int> {
    if c.browser_pool_size == 0 {
        Some(0)
    } else if c.max_concurrent_screenshots == 0 {
        Some(1)
    } else if timeout_secs == 0 {
        Some(2)
    } else if c.viewport.width == 0 || c.viewport.height == 0 {
        Some(3)
    } else if c.retry_attempts == 0 {
        Some(4)
    } else {
        None
    }
}

impl Config {
    /// Rejects a configuration with an empty pool, no concurrency, a timeout
    /// under a second, an empty viewport or no attempts.
    pub fn validate(&self) -> (r: Result<(), ScreenshotError>)
        ensures
            r is Ok ==> self.browser_pool_size > 0 && self.max_concurrent_screenshots > 0
                && self.viewport.width > 0 && self.viewport.height > 0 && self.retry_attempts > 0,
            r is Err ==> r matches Err(ScreenshotError::ConfigurationError(_)),
            (r is Ok) == config_problem(*self, secs_of(self.screenshot_timeout)).is_none(),
    {
        let secs = duration_secs(&self.screenshot_timeout);
        self.validate_with_timeout_secs(secs)
    }

    /// The checks of `validate`, with the timeout given in whole seconds.
    pub fn validate_with_timeout_secs(&self, timeout_secs: u64) -> (r: Result<
        (),
        ScreenshotError,
    >)
        ensures
            (r is Ok) == config_problem(*self, timeout_secs).is_none(),
            r is Err ==> r matches Err(ScreenshotError::ConfigurationError(_)),
    {
        if self.browser_pool_size == 0 {
            return Err(
                ScreenshotError::ConfigurationError(
                    String::from_str("Browser pool size must be greater than 0"),
                ),
            );
        }
        if self.max_concurrent_screenshots == 0 {
            return Err(
                ScreenshotError::ConfigurationError(
                    String::from_str("Max concurrent screenshots must be greater than 0"),
                ),
            );
        }
        if timeout_secs == 0 {
            return Err(
                ScreenshotError::ConfigurationError(
                    String::from_str("Screenshot timeout must be greater than 0"),
                ),
            );
        }
        if self.viewport.width == 0 || self.viewport.height == 0 {
            return Err(
                ScreenshotError::ConfigurationError(
                    String::from_str("Viewport dimensions must be greater than 0"),
                ),
            );
        }
        if self.retry_attempts == 0 {
            return Err(
                ScreenshotError::ConfigurationError(
                    String::from_str("Retry attempts must be greater than 0"),
                ),
            );
        }
        Ok(())
    }
}

/// Backoff between attempts: `initial_delay × multiplier^attempt`, capped at
/// `max_delay`.
#[derive(Debug, Clone)]
pub struct RetryConfig {
    pub max_attempts: usize,
    pub initial_delay: Duration,
    pub max_delay: Duration,
    pub multiplier: u32,
}

impl Default for RetryConfig {
    fn default() -> (r: Self)
        ensures
            r.max_attempts == 3,
            r.multiplier == 2,
            millis_of(r.initial_delay) == 100,
            millis_of(r.max_delay) == 10000,
    {
        RetryConfig {
            max_attempts: 3,
            initial_delay: duration_from_millis(100),
            max_delay: duration_from_secs(10),
            multiplier: 2,
        }
    }
}

#[derive(Debug, Clone)]
pub struct ScreenshotRequest {
    pub id: String,
    pub url: String,
    pub priority: Priority,
    pub custom_viewport: Option<Viewport>,
    pub wait_time: Option<Duration>,
    pub element_selector: Option<String>,
    pub full_page: bool,
    pub retry_count: usize,
}

/// Relies on `uuid::Uuid::new_v4` and its hyphenated text form, which is
/// always 36 characters long; the value itself is random.
#[verifier::external_body]
fn new_request_id() -> (r: String)
    ensures
        r@.len() == 36,
{
    uuid::Uuid::new_v4().to_string()
}

impl ScreenshotRequest {
    /// A request for `url` with a fresh random id and default settings.
    pub fn for_url(url: String) -> (r: Self)
        ensures
            r.url == url,
            r.id@.len() == 36,
            r.priority == Priority::Normal,
            r.custom_viewport.is_none(),
            r.wait_time.is_none(),
            r.element_selector.is_none(),
            !r.full_page,
            r.retry_count == 0,
    {
        ScreenshotRequest {
            id: new_request_id(),
            url,
            priority: Priority::Normal,
            custom_viewport: None,
            wait_time: None,
            element_selector: None,
            full_page: false,
            retry_count: 0,
        }
    }
}

impl Default for ScreenshotRequest {
    fn default() -> (r: Self)
        ensures
            r.url@.len() == 0,
            r.id@.len() == 36,
            r.priority == Priority::Normal,
            r.custom_viewport.is_none(),
            r.wait_time.is_none(),
            r.element_selector.is_none(),
            !r.full_page,
            r.retry_count == 0,
    {
        ScreenshotRequest::for_url(String::new())
    }
}

#[derive(Debug, Clone)]
pub struct ScreenshotMetadata {
    pub viewport: Viewport,
    pub page_title: Option<String>,
    pub final_url: Option<String>,
    pub response_status: Option<u16>,
    pub file_size: usize,
    pub browser_instance_id: usize,
}

#[derive(Debug)]
pub struct ScreenshotResult {
    pub request_id: String,
    pub url: String,
    pub data: Vec<u8>,
    pub format: OutputFormat,
    pub timestamp: SystemTime,
    pub duration: Duration,
    pub success: bool,
    pub error: Option<ScreenshotError>,
    pub metadata: ScreenshotMetadata,
}

} // verus!
