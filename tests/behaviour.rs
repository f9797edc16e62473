use screenshot_tool::{
    alerts_for, backoff_millis, check_capture_url, convert_image_format, create_single_request,
    format_bytes, format_duration_parts, generate_filename, memory_health, overall_health,
    parse_priority, parse_url_list, pool_health, queue_health, sort_by_priority, AlertType,
    BatchCollector, BrowserPool, BrowserPoolStats, CircuitBreaker, CircuitState, Config,
    Dispatcher, HealthLevel, InstanceStatus, LeaseRetry, LeaseStart, OutputFormat, Priority,
    RequestInterceptor, RequestOptions, RetryRun, ScreenshotError, ScreenshotRequest,
    ScreenshotResult, Step,
};
use std::time::Duration;

fn request(id: &str, url: &str, priority: Priority) -> ScreenshotRequest {
    let mut r = ScreenshotRequest::for_url(url.to_string());
    r.id = id.to_string();
    r.priority = priority;
    r
}

fn finish(step: Step) -> ScreenshotResult {
    match step {
        Step::Finish(r) => r,
        Step::Capture => panic!("expected the run to finish"),
    }
}

fn is_capture(step: &Step) -> bool {
    matches!(step, Step::Capture)
}

fn captured(req: &ScreenshotRequest) -> ScreenshotResult {
    screenshot_tool::success_result(
        req,
        vec![1, 2, 3],
        OutputFormat::Png,
        Duration::from_millis(40),
        screenshot_tool::Viewport::default(),
        Some("Example".to_string()),
        Some(req.url.clone()),
        0,
    )
}

#[test]
fn priority_ordering_scenario() {
    let batch = vec![
        request("A", "https://a.example", Priority::Low),
        request("B", "https://b.example", Priority::Critical),
        request("C", "https://c.example", Priority::Normal),
        request("D", "https://d.example", Priority::High),
    ];
    let order: Vec<String> = sort_by_priority(batch).into_iter().map(|r| r.id).collect();
    assert_eq!(order, vec!["B", "D", "C", "A"]);
}

#[test]
fn priority_ordering_keeps_submission_order_within_a_priority() {
    let batch = vec![
        request("n1", "https://1.example", Priority::Normal),
        request("h1", "https://2.example", Priority::High),
        request("n2", "https://3.example", Priority::Normal),
        request("h2", "https://4.example", Priority::High),
        request("n3", "https://5.example", Priority::Normal),
    ];
    let order: Vec<String> = sort_by_priority(batch).into_iter().map(|r| r.id).collect();
    assert_eq!(order, vec!["h1", "h2", "n1", "n2", "n3"]);
    assert!(sort_by_priority(Vec::new()).is_empty());
}

#[test]
fn invalid_url_scenario_makes_no_retry() {
    let config = Config { browser_pool_size: 1, max_concurrent_screenshots: 1, ..Config::default() };
    let mut dispatcher = Dispatcher::new(&config);
    let mut run = RetryRun::new(request("x", "ftp://example.com", Priority::Normal));
    assert!(is_capture(&dispatcher.next_step_at(&mut run, 0)));
    let err = check_capture_url(&run.current_request().url).unwrap_err();
    assert!(matches!(err, ScreenshotError::InvalidUrl(ref u) if u == "ftp://example.com"));
    assert_eq!(dispatcher.report_failure_at(&mut run, err, 0), None);
    let result = finish(dispatcher.next_step_at(&mut run, 1));
    assert!(!result.success);
    assert!(matches!(result.error, Some(ScreenshotError::InvalidUrl(_))));
    assert_eq!(run.current_request().retry_count, 0);
    assert!(result.data.is_empty());
    assert_eq!(result.metadata.browser_instance_id, 0);
}

#[test]
fn mixed_batch_scenario_gives_one_result_each() {
    let config = Config { browser_pool_size: 1, max_concurrent_screenshots: 3, ..Config::default() };
    let mut dispatcher = Dispatcher::new(&config);
    let requests = vec![
        request("ok", "https://example.com", Priority::Normal),
        request("dns", "https://invalid-url-that-does-not-exist.tld", Priority::Normal),
        request("bad", "not-a-url", Priority::Normal),
    ];
    let mut collector = BatchCollector::new(&requests);

    let mut first = RetryRun::new(requests[0].clone());
    assert!(is_capture(&dispatcher.next_step_at(&mut first, 0)));
    assert!(check_capture_url(&first.current_request().url).is_ok());
    let shot = captured(first.current_request());
    let done = dispatcher.report_success(&mut first, shot);
    assert!(done.success);
    assert!(collector.record(0, done));

    let mut second = RetryRun::new(requests[1].clone());
    let mut delays = Vec::new();
    let mut now = 10;
    let result = loop {
        match dispatcher.next_step_at(&mut second, now) {
            Step::Capture => {
                let err = ScreenshotError::NetworkError("name not resolved".to_string());
                if let Some(d) = dispatcher.report_failure_at(&mut second, err, now) {
                    delays.push(d);
                    now += d;
                }
            }
            Step::Finish(r) => break r,
        }
    };
    assert_eq!(delays, vec![100, 200]);
    assert!(matches!(result.error, Some(ScreenshotError::NetworkError(_))));
    assert!(collector.record(1, result));

    let mut third = RetryRun::new(requests[2].clone());
    assert!(is_capture(&dispatcher.next_step_at(&mut third, now)));
    let err = check_capture_url("not-a-url").unwrap_err();
    assert_eq!(dispatcher.report_failure_at(&mut third, err, now), None);
    let result = finish(dispatcher.next_step_at(&mut third, now));
    assert!(matches!(result.error, Some(ScreenshotError::InvalidUrl(_))));
    assert!(collector.record(2, result));

    assert!(collector.is_complete());
    let results = collector.finish();
    assert_eq!(results.len(), 3);
    assert!(results[0].success);
    assert!(!results[1].success);
    assert!(!results[2].success);
    assert_eq!(results[2].request_id, "bad");
}

#[test]
fn collector_refuses_a_second_result_or_a_foreign_one() {
    let requests = vec![request("r1", "https://example.com", Priority::Normal)];
    let mut collector = BatchCollector::new(&requests);
    assert!(!collector.is_complete());
    assert!(!collector.record(0, captured(&request("other", "https://example.com", Priority::Normal))));
    assert!(collector.record(0, captured(&requests[0])));
    assert!(!collector.record(0, captured(&requests[0])));
    assert!(!collector.record(5, captured(&requests[0])));
    assert!(collector.is_complete());
}

#[test]
fn circuit_trip_scenario() {
    let mut dispatcher = Dispatcher::new(&Config::default());
    for t in 0..5u64 {
        let mut run = RetryRun::new(request("f", "https://example.com", Priority::Normal));
        assert!(is_capture(&dispatcher.next_step_at(&mut run, t)));
        dispatcher.report_failure_at(&mut run, ScreenshotError::CaptureFailed("boom".to_string()), t);
    }
    assert_eq!(dispatcher.breaker().get_state(), CircuitState::Open);
    let mut sixth = RetryRun::new(request("six", "https://example.com", Priority::Normal));
    let denied = finish(dispatcher.next_step_at(&mut sixth, 5));
    assert!(matches!(denied.error, Some(ScreenshotError::BrowserUnavailable)));
    let mut seventh = RetryRun::new(request("seven", "https://example.com", Priority::Normal));
    assert!(is_capture(&dispatcher.next_step_at(&mut seventh, 4 + 30_001)));
    assert_eq!(dispatcher.breaker().get_state(), CircuitState::HalfOpen);
    let shot = captured(seventh.current_request());
    let ok = dispatcher.report_success(&mut seventh, shot);
    assert!(ok.success);
    assert_eq!(dispatcher.breaker().get_failure_count(), 0);
    assert_eq!(dispatcher.breaker().get_state(), CircuitState::Closed);
}

#[test]
fn breaker_denies_until_cooldown_passes() {
    let mut breaker = CircuitBreaker::with_timeout_ms(5, 30_000);
    for t in [100u64, 200, 300, 400, 500] {
        assert!(breaker.can_execute_at(t));
        breaker.record_failure_at(t);
    }
    assert!(!breaker.can_execute_at(500));
    assert!(!breaker.can_execute_at(30_500));
    assert!(breaker.can_execute_at(30_501));
    assert_eq!(breaker.get_state(), CircuitState::HalfOpen);
    breaker.record_failure_at(30_600);
    assert_eq!(breaker.get_state(), CircuitState::Open);
    assert!(!breaker.can_execute_at(30_700));
    breaker.record_success();
    assert_eq!(breaker.get_failure_count(), 0);
    assert!(breaker.can_execute_at(30_700));
}

#[test]
fn browser_death_and_recovery_scenario() {
    let mut pool = BrowserPool::new(1, 0);
    assert_eq!(pool.begin_lease().unwrap(), LeaseStart::Started);
    let id = pool.take_candidate();
    assert_eq!(id, 0);
    // the event loop of instance 0 has ended: it must be restarted in place
    assert!(!pool.check_candidate(id, false, 50));
    assert_eq!(pool.instance(0).status, InstanceStatus::Restarting);
    pool.lease_restarted(id, 60);
    let inst = pool.instance(0);
    assert_eq!(inst.status, InstanceStatus::Busy);
    assert_eq!(inst.created_at_ms, 60);
    assert_eq!(inst.screenshot_count, 1);
    assert!(pool.release(id));
    assert_eq!(pool.instance(0).status, InstanceStatus::Healthy);
    assert!(pool.all_returned());
}

#[test]
fn failed_restarts_give_the_permit_back_after_three_attempts() {
    let mut pool = BrowserPool::new(2, 0);
    assert_eq!(pool.begin_lease().unwrap(), LeaseStart::Started);
    let mut attempt = 0;
    loop {
        let id = pool.take_candidate();
        assert!(!pool.check_candidate(id, false, 5));
        pool.restart_failed(id);
        match pool.return_candidate(id, attempt) {
            LeaseRetry::TryNext => attempt += 1,
            LeaseRetry::GiveUp => break,
        }
    }
    assert_eq!(attempt, 2);
    assert!(pool.all_returned());
    let stats = pool.get_stats();
    assert_eq!(stats.failed_instances, 2);
    assert_eq!(stats.available_instances, 2);
    // both permits are free again
    assert_eq!(pool.begin_lease().unwrap(), LeaseStart::Started);
    assert_eq!(pool.begin_lease().unwrap(), LeaseStart::Started);
    assert_eq!(pool.begin_lease().unwrap(), LeaseStart::Wait);
}

#[test]
fn leases_never_share_an_instance_and_ids_are_queued_once() {
    let mut pool = BrowserPool::new(2, 0);
    assert_eq!(pool.begin_lease().unwrap(), LeaseStart::Started);
    let a = pool.take_candidate();
    assert!(pool.check_candidate(a, true, 1));
    assert_eq!(pool.begin_lease().unwrap(), LeaseStart::Started);
    let b = pool.take_candidate();
    assert!(pool.check_candidate(b, true, 2));
    assert_ne!(a, b);
    assert_eq!(pool.begin_lease().unwrap(), LeaseStart::Wait);
    let stats = pool.get_stats();
    assert_eq!(stats.busy_instances, 2);
    assert_eq!(stats.available_instances, 0);
    assert_eq!(stats.total_screenshots, 2);
    assert!(pool.release(a));
    assert!(!pool.release(a));
    assert!(!pool.release(7));
    assert!(pool.release(b));
    assert_eq!(pool.get_stats().available_instances, 2);
    assert!(pool.all_returned());
}

#[test]
fn shutdown_twice_is_harmless() {
    let mut pool = BrowserPool::new(3, 0);
    assert!(!pool.begin_shutdown());
    assert!(pool.begin_shutdown());
    assert!(matches!(pool.begin_lease(), Err(ScreenshotError::BrowserUnavailable)));
    pool.mark_closed();
    pool.mark_closed();
    assert!(pool.is_closed());
    assert!(pool.all_returned());
}

#[test]
fn health_checks_pick_dead_old_and_stuck_instances() {
    let mut pool = BrowserPool::new(3, 0);
    assert_eq!(pool.begin_lease().unwrap(), LeaseStart::Started);
    let id = pool.take_candidate();
    assert!(pool.check_candidate(id, true, 1_000));
    let alive = vec![true, false, true];
    assert_eq!(pool.quick_health_check(&alive, 2_000), vec![1]);
    assert_eq!(pool.quick_health_check(&alive, 1_000 + 300_001), vec![0, 1]);
    assert_eq!(pool.deep_health_check(&alive, 1_000 + 300_001), vec![1]);
    assert_eq!(pool.deep_health_check(&alive, 1_000 + 600_001), vec![0, 1]);
    assert_eq!(pool.deep_health_check(&vec![true, true, true], 3_600_001), vec![0, 1, 2]);
    let health = pool.health_check(2_000);
    assert_eq!(health.len(), 3);
    assert_eq!(health[0].status, InstanceStatus::Busy);
    assert_eq!(health[0].idle_time, Duration::from_millis(1_000));
}

#[test]
fn backoff_doubles_and_caps() {
    assert_eq!(backoff_millis(100, 10_000, 2, 0), 100);
    assert_eq!(backoff_millis(100, 10_000, 2, 1), 200);
    assert_eq!(backoff_millis(100, 10_000, 2, 2), 400);
    assert_eq!(backoff_millis(100, 10_000, 2, 10), 10_000);
    assert_eq!(backoff_millis(100, 10_000, 2, 200), 10_000);
    assert_eq!(backoff_millis(100, 10_000, 0, 3), 0);
    assert_eq!(backoff_millis(20_000, 10_000, 1, 0), 10_000);
}

#[test]
fn output_filenames() {
    assert_eq!(generate_filename("https://example.com/a?b=c&d=e", &OutputFormat::Png), "example.com_a_b_c_d_e.png");
    assert_eq!(generate_filename("http://example.com:8080/x", &OutputFormat::Jpeg), "example.com_8080_x.jpg");
    assert_eq!(generate_filename("https://example.com", &OutputFormat::Webp), "example.com.webp");
    assert_eq!(generate_filename("https://a.com/?u=http://b.com", &OutputFormat::Png), "a.com__u_http___b.com.png");
    assert_eq!(generate_filename("https://http://", &OutputFormat::Png), "http___.png");
    assert_eq!(generate_filename("https://a.com/?next=https://b.com", &OutputFormat::Webp), "a.com__next_https___b.com.webp");
    assert_eq!(generate_filename("ftp://a.com", &OutputFormat::Png), "ftp___a.com.png");
    assert_eq!(generate_filename("*", &OutputFormat::Png), "_.png");
    assert_eq!(generate_filename("https://x.com/a|b\\c<\"d\">\t", &OutputFormat::Jpeg), "x.com_a_b_c__d___.jpg");
}

#[test]
fn byte_and_duration_breakpoints() {
    assert_eq!(format_bytes(0), "0 B");
    assert_eq!(format_bytes(1023), "1023 B");
    assert_eq!(format_bytes(1152), "1.12 KB");
    assert_eq!(format_bytes(1099511627776), "1.00 TB");
    assert_eq!(format_bytes(1099511627776 * 2048), "2048.00 TB");
    assert_eq!(format_duration_parts(0, 0), "0ms");
    assert_eq!(format_duration_parts(7200, 0), "2h 0m 0s");
    assert_eq!(format_duration_parts(1, 999), "1.9s");
}

#[test]
fn url_list_skips_blank_and_comment_lines() {
    let content = "# urls\n  https://a.com  \n\nhttp://b.com\r\n   # indented comment\nhttps://c.com";
    assert_eq!(parse_url_list(content), vec!["https://a.com", "http://b.com", "https://c.com"]);
    assert!(parse_url_list("").is_empty());
    assert!(parse_url_list("\n\n").is_empty());
}

#[test]
fn interceptor_reads_urls_case_insensitively() {
    let mut interceptor = RequestInterceptor::new();
    assert!(interceptor.should_block("https://example.com/ANALYTICS.JS", "script"));
    assert!(!interceptor.should_block("not a url", "script"));
    assert!(!interceptor.should_block("https://example.com/photo.png", "image"));
    interceptor.block_images = true;
    assert!(interceptor.should_block("https://example.com/photo.png", "image"));
    interceptor.add_blocked_domain("cdn.example.org".to_string());
    assert!(interceptor.should_block("https://cdn.example.org/lib.js", "script"));
    interceptor.remove_blocked_domain("cdn.example.org");
    assert!(!interceptor.should_block("https://cdn.example.org/lib.js", "script"));
    assert!(!interceptor.get_blocked_domains().contains(&"cdn.example.org".to_string()));
    assert_eq!(interceptor.get_blocked_domains().len(), 11);
}

#[test]
fn request_ids_are_fresh_uuids() {
    let a = ScreenshotRequest::default();
    let b = ScreenshotRequest::default();
    assert_eq!(a.id.len(), 36);
    assert_ne!(a.id, b.id);
}

#[test]
fn png_passes_through_and_jpeg_is_transcoded() {
    let img = image::DynamicImage::ImageRgb8(image::RgbImage::new(4, 4));
    let mut png = Vec::new();
    img.write_to(&mut std::io::Cursor::new(&mut png), image::ImageFormat::Png).unwrap();
    assert_eq!(convert_image_format(png.clone(), OutputFormat::Png).unwrap(), png);
    let jpeg = convert_image_format(png.clone(), OutputFormat::Jpeg).unwrap();
    assert_eq!(&jpeg[..2], &[0xFF, 0xD8]);
    let bad = convert_image_format(vec![1, 2, 3], OutputFormat::Webp);
    assert!(matches!(bad, Err(ScreenshotError::CaptureFailed(_))));
}

#[test]
fn requests_from_cli_options() {
    let config = Config::default();
    let options = RequestOptions {
        format: None,
        width: Some(800),
        height: None,
        full_page: true,
        wait: Some(250),
        selector: Some("#main".to_string()),
    };
    let r = create_single_request(&config, "https://example.com".to_string(), options, Some("high".to_string()));
    assert_eq!(r.priority, Priority::High);
    let vp = r.custom_viewport.unwrap();
    assert_eq!((vp.width, vp.height), (800, 1080));
    assert_eq!(r.wait_time, Some(Duration::from_millis(250)));
    assert_eq!(r.element_selector.as_deref(), Some("#main"));
    assert!(r.full_page);
    assert_eq!(parse_priority(&Some("urgent".to_string())), Priority::Normal);
    assert_eq!(parse_priority(&None), Priority::Normal);
    assert_eq!(parse_priority(&Some("low".to_string())), Priority::Low);
    assert_eq!(parse_priority(&Some("critical".to_string())), Priority::Critical);
}

#[test]
fn config_validation_errors() {
    assert!(Config::default().validate().is_ok());
    let bad = Config { browser_pool_size: 0, ..Config::default() };
    assert!(matches!(bad.validate(), Err(ScreenshotError::ConfigurationError(_))));
    let bad = Config { retry_attempts: 0, ..Config::default() };
    assert!(bad.validate().is_err());
    let bad = Config { screenshot_timeout: Duration::from_millis(500), ..Config::default() };
    assert!(bad.validate().is_err());
}

#[test]
fn health_levels() {
    let stats = BrowserPoolStats {
        total_instances: 10,
        healthy_instances: 5,
        busy_instances: 2,
        failed_instances: 3,
        available_instances: 5,
        total_screenshots: 0,
    };
    assert_eq!(pool_health(&stats, 2), HealthLevel::Warning);
    assert_eq!(pool_health(&stats, 6), HealthLevel::Critical);
    assert_eq!(queue_health(1001), HealthLevel::Critical);
    assert_eq!(queue_health(101), HealthLevel::Warning);
    assert_eq!(queue_health(100), HealthLevel::Healthy);
    assert_eq!(memory_health(900, 1000), HealthLevel::Warning);
    assert_eq!(memory_health(800, 1000), HealthLevel::Healthy);
    assert_eq!(memory_health(1001, 1000), HealthLevel::Critical);
    assert_eq!(overall_health(&vec![HealthLevel::Healthy, HealthLevel::Warning]), HealthLevel::Warning);
    assert_eq!(overall_health(&vec![]), HealthLevel::Healthy);
    assert_eq!(alerts_for(HealthLevel::Critical, HealthLevel::Healthy, HealthLevel::Critical),
        vec![AlertType::Critical, AlertType::PerformanceDegradation]);
    assert_eq!(AlertType::ResourceExhaustion.label(), "RESOURCE_EXHAUSTION");
}

#[test]
fn every_error_kind_is_classified() {
    let retryable = [
        ScreenshotError::BrowserUnavailable,
        ScreenshotError::UrlLoadFailed("x".into()),
        ScreenshotError::Timeout(Duration::from_secs(30)),
        ScreenshotError::NetworkError("x".into()),
        ScreenshotError::BrowserProcessDied("x".into()),
        ScreenshotError::PageError("x".into()),
    ];
    assert!(retryable.iter().all(|e| e.is_retryable()));
    let terminal = [
        ScreenshotError::CaptureFailed("x".into()),
        ScreenshotError::InvalidUrl("x".into()),
        ScreenshotError::BrowserLaunchFailed("x".into()),
        ScreenshotError::MemoryLimitExceeded,
        ScreenshotError::ConfigurationError("x".into()),
        ScreenshotError::IoError("x".into()),
        ScreenshotError::SerializationError("x".into()),
        ScreenshotError::ElementNotFound("x".into()),
    ];
    assert!(terminal.iter().all(|e| !e.is_retryable()));
    assert_eq!(ScreenshotError::ElementNotFound("x".into()).severity(), screenshot_tool::ErrorSeverity::Low);
    assert_eq!(ScreenshotError::BrowserLaunchFailed("x".into()).severity(), screenshot_tool::ErrorSeverity::High);
}

#[test]
fn alerts_can_be_acknowledged_once_listed() {
    let mut log = screenshot_tool::AlertLog::new();
    for (id, kind) in [("a1", AlertType::Critical), ("a2", AlertType::NetworkIssue)] {
        log.push(screenshot_tool::HealthAlert {
            id: id.to_string(),
            alert_type: kind,
            message: "m".to_string(),
            timestamp: std::time::SystemTime::now(),
            acknowledged: false,
        });
    }
    assert_eq!(log.get_active_alerts().len(), 2);
    assert!(log.acknowledge_alert("a1"));
    assert!(!log.acknowledge_alert("zz"));
    let active = log.get_active_alerts();
    assert_eq!(active.len(), 1);
    assert_eq!(active[0].id, "a2");
}

#[test]
fn rate_limiter_window_slides() {
    let mut limiter = screenshot_tool::RateLimiter::new(2);
    assert!(limiter.acquire_at(1_000));
    assert!(limiter.acquire_at(1_500));
    assert!(!limiter.acquire_at(1_999));
    assert_eq!(limiter.current_rate_at(1_999), 2);
    assert!(limiter.acquire_at(2_000));
    assert_eq!(limiter.current_rate_at(2_000), 2);
}

#[test]
fn progress_rate_and_estimate() {
    let mut tracker = screenshot_tool::ProgressTracker::new(10);
    for _ in 0..4 {
        tracker.record_completion(true);
    }
    let p = tracker.progress_after(2);
    assert_eq!(p.rate, 2);
    assert_eq!(p.eta, Some(Duration::from_secs(3)));
    assert_eq!(screenshot_tool::ProgressTracker::new(3).progress_after(5).eta, None);
}

#[test]
fn connection_pool_counts_slots() {
    let mut pool = screenshot_tool::ConnectionPool::new(1);
    assert!(pool.try_acquire());
    assert!(!pool.try_acquire());
    assert_eq!(pool.active_count(), 1);
    assert_eq!(pool.available_count(), 0);
    pool.release();
    assert_eq!(pool.available_count(), 1);
    assert_eq!(pool.max_connections(), 1);
}

#[test]
fn old_alerts_are_dropped() {
    let mut log = screenshot_tool::AlertLog::new();
    let now = std::time::SystemTime::now();
    for (id, at) in [("old", std::time::UNIX_EPOCH), ("new", now)] {
        log.push(screenshot_tool::HealthAlert {
            id: id.to_string(),
            alert_type: AlertType::Critical,
            message: "m".to_string(),
            timestamp: at,
            acknowledged: false,
        });
    }
    log.retain_after(&(now - Duration::from_secs(3600)));
    let active = log.get_active_alerts();
    assert_eq!(active.len(), 1);
    assert_eq!(active[0].id, "new");
}

#[test]
fn errors_on_a_dead_browser_become_process_deaths() {
    let (e, died) = screenshot_tool::classify_capture_error(ScreenshotError::PageError("rpc".into()), false);
    assert!(died);
    assert!(matches!(e, ScreenshotError::BrowserProcessDied(_)));
    assert!(e.is_retryable());
    let (e, died) = screenshot_tool::classify_capture_error(ScreenshotError::PageError("rpc".into()), true);
    assert!(!died);
    assert!(matches!(e, ScreenshotError::PageError(_)));
    let (e, died) = screenshot_tool::classify_capture_error(ScreenshotError::Timeout(Duration::from_secs(5)), false);
    assert!(!died);
    assert!(matches!(e, ScreenshotError::Timeout(_)));
}

#[test]
fn health_check_restart_resets_a_stuck_instance() {
    let mut pool = BrowserPool::new(1, 0);
    assert_eq!(pool.begin_lease().unwrap(), LeaseStart::Started);
    let id = pool.take_candidate();
    assert!(pool.check_candidate(id, true, 10));
    pool.begin_restart(id);
    pool.restart_succeeded(id, 700_000);
    let inst = pool.instance(id);
    assert_eq!(inst.status, InstanceStatus::Healthy);
    assert_eq!(inst.screenshot_count, 0);
    assert_eq!(inst.failure_count, 0);
    assert!(!pool.all_returned());
    assert!(pool.release(id));
    assert!(pool.all_returned());
}

#[test]
fn unfilled_batch_slots_become_failures() {
    let dispatcher = Dispatcher::new(&Config::default());
    let requests = vec![
        request("first", "https://a.example", Priority::Normal),
        request("second", "https://b.example", Priority::Normal),
    ];
    let mut collector = BatchCollector::new(&requests);
    assert!(collector.record(1, captured(&requests[1])));
    let results = collector.finish_complete(&dispatcher, &requests);
    assert_eq!(results.len(), 2);
    assert_eq!(results[0].request_id, "first");
    assert!(!results[0].success);
    assert!(matches!(results[0].error, Some(ScreenshotError::CaptureFailed(_))));
    assert_eq!(results[0].duration, Duration::ZERO);
    assert_eq!(results[1].request_id, "second");
    assert!(results[1].success);
}

#[test]
fn durations_in_defaults_and_breaker() {
    let config = Config::default();
    assert_eq!(config.screenshot_timeout, Duration::from_secs(30));
    let breaker = CircuitBreaker::new(5, Duration::from_millis(1500));
    let mut copy = breaker.clone();
    copy.record_failure_at(0);
    copy.record_failure_at(0);
    copy.record_failure_at(0);
    copy.record_failure_at(0);
    copy.record_failure_at(0);
    assert!(!copy.can_execute_at(1500));
    assert!(copy.can_execute_at(1501));
}

#[test]
fn batch_requests_carry_every_option() {
    let config = Config::default();
    let options = RequestOptions {
        format: None,
        width: None,
        height: Some(600),
        full_page: false,
        wait: Some(10),
        selector: Some("main".to_string()),
    };
    let urls = vec!["https://a.example".to_string(), "https://b.example".to_string()];
    let requests = screenshot_tool::create_requests(&config, urls, options);
    assert_eq!(requests.len(), 2);
    for (r, url) in requests.iter().zip(["https://a.example", "https://b.example"]) {
        assert_eq!(r.url, url);
        assert_eq!(r.id.len(), 36);
        assert_eq!(r.priority, Priority::Normal);
        let vp = r.custom_viewport.unwrap();
        assert_eq!((vp.width, vp.height), (1920, 600));
        assert_eq!(r.wait_time, Some(Duration::from_millis(10)));
        assert_eq!(r.element_selector.as_deref(), Some("main"));
        assert_eq!(r.retry_count, 0);
    }
    assert_ne!(requests[0].id, requests[1].id);
}

#[test]
fn open_breaker_answers_the_first_attempt() {
    let config = Config { retry_attempts: 1, ..Config::default() };
    let mut dispatcher = Dispatcher::new(&config);
    for t in 0..5u64 {
        let mut run = RetryRun::new(request("f", "https://example.com", Priority::Normal));
        assert!(is_capture(&dispatcher.next_step_at(&mut run, t)));
        dispatcher.report_failure_at(&mut run, ScreenshotError::NetworkError("down".into()), t);
    }
    let mut run = RetryRun::new(request("denied", "https://example.com", Priority::Normal));
    let result = finish(dispatcher.next_step_at(&mut run, 10));
    assert!(matches!(result.error, Some(ScreenshotError::BrowserUnavailable)));
    assert_eq!(dispatcher.breaker().get_failure_count(), 5);
}
