use screenshot_tool::{
    chrome_args, extract_domain, format_bytes, format_duration, is_same_domain,
    sanitize_filename, validate_url, BufferPool, CircuitBreaker, Config, ErrorSeverity,
    MemoryMonitor, MemoryStatus, OutputFormat, Priority, ProgressTracker, RateLimiter,
    RequestInterceptor, RetryConfig, ScreenshotError, ScreenshotRequest, Viewport,
};
use std::time::Duration;

#[test]
fn test_config_default() {
    let config = Config::default();
    assert_eq!(config.browser_pool_size, 10);
    assert_eq!(config.max_concurrent_screenshots, 200);
    assert_eq!(config.screenshot_timeout, Duration::from_secs(30));
    assert_eq!(config.retry_attempts, 3);
    assert!(matches!(config.output_format, OutputFormat::Png));
}

#[test]
fn test_screenshot_request_default() {
    let request = ScreenshotRequest::default();
    assert!(!request.id.is_empty());
    assert!(request.url.is_empty());
    assert!(matches!(request.priority, Priority::Normal));
    assert!(request.custom_viewport.is_none());
    assert!(request.wait_time.is_none());
    assert!(request.element_selector.is_none());
    assert!(!request.full_page);
    assert_eq!(request.retry_count, 0);
}

#[test]
fn test_viewport_default() {
    let viewport = Viewport::default();
    assert_eq!(viewport.width, 1920);
    assert_eq!(viewport.height, 1080);
    assert_eq!(viewport.device_scale_factor_milli, 1000);
    assert!(!viewport.mobile);
}

#[test]
fn test_chrome_args_generation() {
    let config = Config::default();
    let args = chrome_args(&config, "test", 0);

    assert!(args.contains(&"--headless".to_string()));
    assert!(args.contains(&"--no-sandbox".to_string()));
    assert!(args.contains(&"--disable-gpu".to_string()));
    assert!(args.contains(&format!("--window-size={},{}", config.viewport.width, config.viewport.height)));
}

#[test]
fn test_error_retryable() {
    assert!(ScreenshotError::BrowserUnavailable.is_retryable());
    assert!(ScreenshotError::NetworkError("test".to_string()).is_retryable());
    assert!(ScreenshotError::Timeout(Duration::from_secs(1)).is_retryable());
    assert!(!ScreenshotError::InvalidUrl("test".to_string()).is_retryable());
    assert!(!ScreenshotError::ConfigurationError("test".to_string()).is_retryable());
}

#[test]
fn test_error_severity() {
    assert!(matches!(ScreenshotError::InvalidUrl("test".to_string()).severity(), ErrorSeverity::Low));
    assert!(matches!(ScreenshotError::NetworkError("test".to_string()).severity(), ErrorSeverity::Medium));
    assert!(matches!(ScreenshotError::ConfigurationError("test".to_string()).severity(), ErrorSeverity::High));
    assert!(matches!(ScreenshotError::MemoryLimitExceeded.severity(), ErrorSeverity::High));
}

#[test]
fn test_circuit_breaker() {
    let mut breaker = CircuitBreaker::new(3, Duration::from_secs(60));

    // Initially closed
    assert!(breaker.can_execute());
    assert_eq!(breaker.get_failure_count(), 0);

    // Record failures
    breaker.record_failure();
    breaker.record_failure();
    assert!(breaker.can_execute()); // Still closed

    breaker.record_failure();
    assert!(!breaker.can_execute()); // Now open

    // Record success should reset
    breaker.record_success();
    assert!(breaker.can_execute());
    assert_eq!(breaker.get_failure_count(), 0);
}

#[test]
fn test_buffer_pool() {
    let mut pool = BufferPool::new(1024, 10);

    // Get a buffer
    let buffer1 = pool.get_buffer();
    assert!(buffer1.capacity() >= 1024);

    // Return the buffer
    pool.return_buffer(buffer1);

    // Get stats
    let stats = pool.get_stats();
    assert_eq!(stats.buffer_size, 1024);
    assert_eq!(stats.max_buffers, 10);
    assert_eq!(stats.available_buffers, 1);
}

#[test]
fn test_rate_limiter() {
    let mut limiter = RateLimiter::new(5); // 5 requests per second

    // Should be able to acquire 5 permits
    for _ in 0..5 {
        assert!(limiter.acquire());
    }

    // 6th request should be blocked
    assert!(!limiter.acquire());

    // Check current rate
    let rate = limiter.get_current_rate();
    assert_eq!(rate, 5);
}

#[test]
fn test_utils_sanitize_filename() {
    assert_eq!(sanitize_filename("test.txt"), "test.txt");
    assert_eq!(sanitize_filename("test/file.txt"), "test_file.txt");
    assert_eq!(sanitize_filename("test:file?.txt"), "test_file_.txt");
    assert_eq!(sanitize_filename("test<>file.txt"), "test__file.txt");
}

#[test]
fn test_utils_format_duration() {
    assert_eq!(format_duration(Duration::from_millis(500)), "500ms");
    assert_eq!(format_duration(Duration::from_secs(5)), "5.0s");
    assert_eq!(format_duration(Duration::from_secs(65)), "1m 5s");
    assert_eq!(format_duration(Duration::from_secs(3665)), "1h 1m 5s");
}

#[test]
fn test_utils_format_bytes() {
    assert_eq!(format_bytes(512), "512 B");
    assert_eq!(format_bytes(1024), "1.00 KB");
    assert_eq!(format_bytes(1536), "1.50 KB");
    assert_eq!(format_bytes(1048576), "1.00 MB");
    assert_eq!(format_bytes(1073741824), "1.00 GB");
}

#[test]
fn test_utils_validate_url() {
    assert!(validate_url("https://example.com").is_ok());
    assert!(validate_url("http://example.com").is_ok());
    assert!(validate_url("https://example.com/path?query=value").is_ok());
    assert!(validate_url("ftp://example.com").is_err());
    assert!(validate_url("invalid-url").is_err());
    assert!(validate_url("").is_err());
}

#[test]
fn test_utils_extract_domain() {
    assert_eq!(extract_domain("https://example.com/path"), Some("example.com".to_string()));
    assert_eq!(extract_domain("http://subdomain.example.com"), Some("subdomain.example.com".to_string()));
    assert_eq!(extract_domain("https://example.com:8080/path"), Some("example.com".to_string()));
    assert_eq!(extract_domain("invalid-url"), None);
    assert_eq!(extract_domain(""), None);
}

#[test]
fn test_utils_is_same_domain() {
    assert!(is_same_domain("https://example.com/path1", "https://example.com/path2"));
    assert!(is_same_domain("http://example.com", "https://example.com"));
    assert!(!is_same_domain("https://example.com", "https://other.com"));
    assert!(!is_same_domain("invalid-url", "https://example.com"));
}

#[test]
fn test_request_interceptor() {
    let interceptor = RequestInterceptor::new();

    // Should block ad domains
    assert!(interceptor.should_block("https://googletagmanager.com/script.js", "script"));
    assert!(interceptor.should_block("https://googlesyndication.com/ad.js", "script"));

    // Should block tracker patterns
    assert!(interceptor.should_block("https://example.com/analytics.js", "script"));
    assert!(interceptor.should_block("https://example.com/tracking/pixel.gif", "image"));

    // Should not block regular content
    assert!(!interceptor.should_block("https://example.com/main.js", "script"));
    assert!(!interceptor.should_block("https://example.com/style.css", "stylesheet"));
}

#[test]
fn test_memory_monitor() {
    let mut monitor = MemoryMonitor::new(1024 * 1024); // 1MB limit

    // Initially normal
    assert_eq!(monitor.check_memory(), MemoryStatus::Normal);
    assert_eq!(monitor.get_usage_percentage(), 0);

    // Update usage
    monitor.update_usage(512 * 1024); // 512KB
    assert_eq!(monitor.check_memory(), MemoryStatus::Normal);
    assert_eq!(monitor.get_usage_percentage(), 50);

    // Warning threshold (80%)
    monitor.update_usage(900 * 1024); // 900KB
    assert_eq!(monitor.check_memory(), MemoryStatus::Warning);

    // Critical threshold (100%+)
    monitor.update_usage(1100 * 1024); // 1100KB
    assert_eq!(monitor.check_memory(), MemoryStatus::Critical);
}

#[test]
fn test_progress_tracker() {
    let mut tracker = ProgressTracker::new(100);

    // Initially no progress
    let progress = tracker.get_progress();
    assert_eq!(progress.total, 100);
    assert_eq!(progress.completed, 0);
    assert_eq!(progress.errors, 0);
    assert_eq!(progress.success, 0);
    assert!(!tracker.is_complete());

    // Record some completions
    for i in 0..50 {
        tracker.record_completion(i % 10 != 0); // 10% error rate
    }

    let progress = tracker.get_progress();
    assert_eq!(progress.completed, 50);
    assert_eq!(progress.errors, 5);
    assert_eq!(progress.success, 45);
    assert!(!tracker.is_complete());

    // Complete the rest
    for i in 50..100 {
        tracker.record_completion(i % 10 != 0);
    }

    assert!(tracker.is_complete());
    let final_progress = tracker.get_progress();
    assert_eq!(final_progress.completed, 100);
    assert_eq!(final_progress.errors, 10);
    assert_eq!(final_progress.success, 90);
}

#[test]
fn test_retry_config() {
    let config = RetryConfig::default();
    assert_eq!(config.max_attempts, 3);
    assert_eq!(config.initial_delay, Duration::from_millis(100));
    assert_eq!(config.max_delay, Duration::from_secs(10));
    assert_eq!(config.multiplier, 2);
}

#[test]
fn test_sanitize_filename() {
    assert_eq!(sanitize_filename("test.txt"), "test.txt");
    assert_eq!(sanitize_filename("test/file.txt"), "test_file.txt");
    assert_eq!(sanitize_filename("test:file?.txt"), "test_file_.txt");
}

#[test]
fn test_format_duration() {
    assert_eq!(format_duration(Duration::from_millis(500)), "500ms");
    assert_eq!(format_duration(Duration::from_secs(5)), "5.0s");
    assert_eq!(format_duration(Duration::from_secs(65)), "1m 5s");
    assert_eq!(format_duration(Duration::from_secs(3665)), "1h 1m 5s");
}

#[test]
fn test_format_bytes() {
    assert_eq!(format_bytes(512), "512 B");
    assert_eq!(format_bytes(1024), "1.00 KB");
    assert_eq!(format_bytes(1536), "1.50 KB");
    assert_eq!(format_bytes(1048576), "1.00 MB");
}

#[test]
fn test_validate_url() {
    assert!(validate_url("https://example.com").is_ok());
    assert!(validate_url("http://example.com").is_ok());
    assert!(validate_url("ftp://example.com").is_err());
    assert!(validate_url("invalid-url").is_err());
}

#[test]
fn test_extract_domain() {
    assert_eq!(extract_domain("https://example.com/path"), Some("example.com".to_string()));
    assert_eq!(extract_domain("http://subdomain.example.com"), Some("subdomain.example.com".to_string()));
    assert_eq!(extract_domain("invalid-url"), None);
}

#[test]
fn test_is_same_domain() {
    assert!(is_same_domain("https://example.com/path1", "https://example.com/path2"));
    assert!(!is_same_domain("https://example.com", "https://other.com"));
    assert!(!is_same_domain("invalid-url", "https://example.com"));
}
