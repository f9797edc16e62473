//! Concurrent capture engine of a headless-browser screenshot service: the
//! error taxonomy and circuit breaker, the browser pool's lease protocol, the
//! dispatcher's ordering and retry decisions, the capture pipeline's
//! decisions, and the utilities around them.
//!
//! Browser processes, sleeps and channels are driven by the caller; the
//! types here decide what happens and keep the books.

pub mod capture;
pub mod clock;
pub mod config;
pub mod dispatch;
pub mod error;
pub mod launch;
pub mod monitor;
pub mod pool;
pub mod text;
pub mod urls;

pub use capture::{
    capture_mode, check_capture_url, classify_capture_error, convert_image_format,
    effective_viewport,
    final_url_or_requested, success_result, CaptureMode,
};
pub use config::{
    Config, OptimizationSettings, OutputFormat, Priority, RetryConfig, ScreenshotMetadata,
    ScreenshotRequest, ScreenshotResult, Viewport,
};
pub use dispatch::{
    backoff_millis, priority_to_value, sort_by_priority, BatchCollector, Dispatcher, RetryRun, Step,
};
pub use error::{CircuitBreaker, CircuitState, ErrorSeverity, ScreenshotError};
pub use launch::{
    apply_overrides, chrome_args, create_requests, create_single_request, parse_priority,
    RequestOptions,
};
pub use monitor::{
    alerts_for, batch_stats, memory_health, overall_health, pool_health, queue_health,
    AlertLog, AlertType, BatchProcessorStats, BufferPool, BufferStats, ConnectionPool, HealthAlert,
    HealthLevel, HealthStatus, MemoryMonitor, MemoryStatus, ProgressInfo, ProgressTracker,
    RateLimiter, WorkerStats,
};
pub use pool::{
    BrowserInstance, BrowserPool, BrowserPoolStats, InstanceHealth, InstanceStatus, LeaseRetry,
    LeaseStart,
};
pub use text::{
    format_bytes, format_duration, format_duration_parts, generate_filename, parse_url_list,
    sanitize_filename,
};
pub use urls::{extract_domain, is_same_domain, is_web_url, validate_url, RequestInterceptor};
