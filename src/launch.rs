//! Building capture requests from command-line options, and the argument
//! list a browser instance is launched with.

use vstd::prelude::*;

use crate::clock::{duration_from_millis, duration_from_secs, millis_of, secs_of};
use crate::config::{Config, Priority, ScreenshotRequest, Viewport};
use crate::text::{decimal, push_decimal, push_str, string_from_chars};
use crate::urls::same_text;

verus! {

/// Per-request options given on the command line.
#[derive(Debug, Clone)]
pub struct RequestOptions {
    pub format: Option<String>,
    pub width: Option<u32>,
    pub height: Option<u32>,
    pub full_page: bool,
    pub wait: Option<u64>,
    pub selector: Option<String>,
}

/// `low`, `normal`, `high` and `critical` name their priorities; anything
/// else, or nothing, is Normal.
pub open spec fn priority_named(name: Option<Seq<char>>) -> Priority {
    match name {
        Some(n) => if n == "low"@ {
            Priority::Low
        } else if n == "high"@ {
            Priority::High
        } else if n == "critical"@ {
            Priority::Critical
        } else {
            Priority::Normal
        },
        None => Priority::Normal,
    }
}

pub fn parse_priority(name: &Option<String>) -> (r: Priority)
    ensures
        r == priority_named(match name {
            Some(n) => Some(n@),
            None => None,
        }),
{
    match name {
        Some(n) => {
            if same_text(n.as_str(), "low") {
                Priority::Low
            } else if same_text(n.as_str(), "high") {
                Priority::High
            } else if same_text(n.as_str(), "critical") {
                Priority::Critical
            } else {
                Priority::Normal
            }
        },
        None => Priority::Normal,
    }
}

/// The viewport a request gets from the options: custom when a width or
/// height is given, the other side and the rest from the configuration.
pub open spec fn viewport_from(config: Config, options: RequestOptions) -> Option<Viewport> {
    if options.width.is_some() || options.height.is_some() {
        Some(
            Viewport {
                width: match options.width {
                    Some(w) => w,
                    None => config.viewport.width,
                },
                height: match options.height {
                    Some(h) => h,
                    None => config.viewport.height,
                },
                ..config.viewport
            },
        )
    } else {
        None
    }
}

/// `r` is the request for `url` built from the options and the named
/// priority: a fresh id, the viewport, wait, selector and full-page flag of
/// the options, and no retries yet.
pub open spec fn built_request(
    config: Config,
    url: String,
    options: RequestOptions,
    priority: Option<Seq<char>>,
    r: ScreenshotRequest,
) -> bool {
    &&& r.url == url
    &&& r.id@.len() == 36
    &&& r.priority == priority_named(priority)
    &&& r.custom_viewport == viewport_from(config, options)
    &&& r.wait_time.is_some() == options.wait.is_some()
    &&& (options.wait matches Some(ms) ==> (r.wait_time matches Some(w) && millis_of(w) == ms
        as u128))
    &&& r.element_selector == options.selector
    &&& r.full_page == options.full_page
    &&& r.retry_count == 0
}

/// A request for `url` built from the command-line options.
pub fn create_single_request(
    config: &Config,
    url: String,
    options: RequestOptions,
    priority: Option<String>,
) -> (r: ScreenshotRequest)
    ensures
        built_request(
            *config,
            url,
            options,
            match priority {
                Some(n) => Some(n@),
                None => None,
            },
            r,
        ),
{
    let custom_viewport = if options.width.is_some() || options.height.is_some() {
        Some(
            Viewport {
                width: match options.width {
                    Some(w) => w,
                    None => config.viewport.width,
                },
                height: match options.height {
                    Some(h) => h,
                    None => config.viewport.height,
                },
                device_scale_factor_milli: config.viewport.device_scale_factor_milli,
                mobile: config.viewport.mobile,
            },
        )
    } else {
        None
    };
    let wait_time = match options.wait {
        Some(ms) => Some(duration_from_millis(ms)),
        None => None,
    };
    let mut request = ScreenshotRequest::for_url(url);
    request.priority = parse_priority(&priority);
    request.custom_viewport = custom_viewport;
    request.wait_time = wait_time;
    request.element_selector = options.selector;
    request.full_page = options.full_page;
    request
}

fn copy_text(o: &Option<String>) -> (r: Option<String>)
    ensures
        r == *o,
{
    match o {
        Some(s) => Some(s.clone()),
        None => None,
    }
}

/// One request per URL, in order, each built from the same options with
/// Normal priority.
pub fn create_requests(config: &Config, urls: Vec<String>, options: RequestOptions) -> (r: Vec<
    ScreenshotRequest,
>)
    ensures
        r@.len() == urls@.len(),
        forall|i: int|
            0 <= i < r@.len() ==> built_request(*config, urls@[i], options, None, #[trigger] r@[i]),
{
    let ghost u = urls@;
    let mut rest = urls;
    let mut r: Vec<ScreenshotRequest> = Vec::new();
    let n = rest.len();
    let mut i: usize = 0;
    while i < n
        invariant
            n == u.len(),
            i <= n,
            rest@ == u.skip(i as int),
            r@.len() == i,
            forall|k: int| 0 <= k < i ==> built_request(*config, u[k], options, None, #[trigger] r@[k]),
        decreases n - i,
    {
        let url = rest.remove(0);
        proof {
            assert(url == u[i as int]);
            assert(rest@ =~= u.skip(i + 1));
        }
        let opts = RequestOptions {
            format: copy_text(&options.format),
            width: options.width,
            height: options.height,
            full_page: options.full_page,
            wait: options.wait,
            selector: copy_text(&options.selector),
        };
        proof {
            assert(opts == options);
        }
        r.push(create_single_request(config, url, opts, None));
        i = i + 1;
    }
    r
}

/// Command-line settings that override the configuration.
pub fn apply_overrides(
    config: &mut Config,
    pool_size: Option<usize>,
    max_concurrent: Option<usize>,
    timeout_secs: Option<u64>,
    chrome_path: Option<String>,
)
    ensures
        final(config).browser_pool_size == match pool_size {
            Some(p) => p,
            None => old(config).browser_pool_size,
        },
        final(config).max_concurrent_screenshots == match max_concurrent {
            Some(m) => m,
            None => old(config).max_concurrent_screenshots,
        },
        timeout_secs.is_none() ==> final(config).screenshot_timeout == old(config).screenshot_timeout,
        timeout_secs matches Some(t) ==> secs_of(final(config).screenshot_timeout) == t
            && millis_of(final(config).screenshot_timeout) == t as u128 * 1000,
        final(config).chrome_path == match chrome_path {
            Some(p) => Some(p),
            None => old(config).chrome_path,
        },
        final(config).retry_attempts == old(config).retry_attempts,
        final(config).output_format == old(config).output_format,
        final(config).viewport == old(config).viewport,
        final(config).optimization == old(config).optimization,
        final(config).user_agent == old(config).user_agent,
        final(config).memory_limit == old(config).memory_limit,
{
    if let Some(p) = pool_size {
        config.browser_pool_size = p;
    }
    if let Some(m) = max_concurrent {
        config.max_concurrent_screenshots = m;
    }
    if let Some(t) = timeout_secs {
        config.screenshot_timeout = duration_from_secs(t);
    }
    if let Some(p) = chrome_path {
        config.chrome_path = Some(p);
    }
}

/// The first remote-debugging port; instance `i` listens on this plus `i`.
pub const BASE_DEBUG_PORT: usize = 9222;

/// The fixed part of every launch: headless, no sandbox, no background
/// throttling, no first-run or singleton dialogs, certificate errors
/// ignored.
pub open spec fn base_args() -> Seq<Seq<char>> {
    seq![
        "--headless"@,
        "--no-sandbox"@,
        "--disable-dev-shm-usage"@,
        "--disable-gpu"@,
        "--disable-background-timer-throttling"@,
        "--disable-backgrounding-occluded-windows"@,
        "--disable-renderer-backgrounding"@,
        "--disable-features=TranslateUI"@,
        "--disable-extensions"@,
        "--disable-default-apps"@,
        "--disable-sync"@,
        "--no-first-run"@,
        "--disable-web-security"@,
        "--disable-process-singleton-dialog"@,
        "--disable-features=ProcessSingleton"@,
        "--no-process-singleton-dialog"@,
        "--disable-single-process"@,
        "--allow-running-insecure-content"@,
        "--ignore-certificate-errors"@,
        "--ignore-ssl-errors"@,
        "--ignore-certificate-errors-spki-list"@,
        "--ignore-certificate-errors-ssl-errors"@,
    ]
}

pub open spec fn opt_arg(cond: bool, arg: Seq<char>) -> Seq<Seq<char>> {
    if cond { seq![arg] } else { Seq::empty() }
}

/// The launch arguments of a browser instance whose scratch directories
/// carry `unique_id` and whose debug port is offset by `port_offset`.
pub open spec fn chrome_args_for(config: Config, unique_id: Seq<char>, port_offset: nat) -> Seq<
    Seq<char>,
> {
    base_args() + seq![
        "--window-size="@ + decimal(config.viewport.width as nat) + seq![','] + decimal(
            config.viewport.height as nat,
        ),
        "--memory-pressure-off"@,
        "--user-data-dir=/tmp/chromium-screenshot-"@ + unique_id,
        "--remote-debugging-port="@ + decimal((BASE_DEBUG_PORT + port_offset) as nat),
        "--temp-dir=/tmp/chromium-temp-"@ + unique_id,
    ] + match config.memory_limit {
        Some(m) => seq!["--max_old_space_size="@ + decimal(m as nat / 1048576)],
        None => Seq::empty(),
    } + opt_arg(config.optimization.block_images, "--disable-images"@) + opt_arg(
        !config.optimization.enable_javascript,
        "--disable-javascript"@,
    ) + opt_arg(config.optimization.disable_plugins, "--disable-plugins"@) + opt_arg(
        config.optimization.disable_css,
        "--disable-css"@,
    ) + match config.user_agent {
        Some(ua) => seq!["--user-agent="@ + ua@],
        None => Seq::empty(),
    }
}

fn push_arg(args: &mut Vec<String>, s: &str)
    ensures
        final(args)@.map_values(|a: String| a@) == old(args)@.map_values(|a: String| a@).push(s@),
{
    args.push(String::from_str(s));
    proof {
        assert(args@.map_values(|a: String| a@) =~= old(args)@.map_values(|a: String| a@).push(s@));
    }
}

fn push_chars(args: &mut Vec<String>, v: &Vec<char>)
    ensures
        final(args)@.map_values(|a: String| a@) == old(args)@.map_values(|a: String| a@).push(v@),
{
    args.push(string_from_chars(v));
    proof {
        assert(args@.map_values(|a: String| a@) =~= old(args)@.map_values(|a: String| a@).push(v@));
    }
}

/// Launch arguments for one instance.
pub fn chrome_args(config: &Config, unique_id: &str, port_offset: usize) -> (r: Vec<String>)
    requires
        port_offset + BASE_DEBUG_PORT <= usize::MAX,
    ensures
        r@.map_values(|a: String| a@) == chrome_args_for(*config, unique_id@, port_offset as nat),
{
    let mut args: Vec<String> = Vec::new();
    let base = vec![
        "--headless",
        "--no-sandbox",
        "--disable-dev-shm-usage",
        "--disable-gpu",
        "--disable-background-timer-throttling",
        "--disable-backgrounding-occluded-windows",
        "--disable-renderer-backgrounding",
        "--disable-features=TranslateUI",
        "--disable-extensions",
        "--disable-default-apps",
        "--disable-sync",
        "--no-first-run",
        "--disable-web-security",
        "--disable-process-singleton-dialog",
        "--disable-features=ProcessSingleton",
        "--no-process-singleton-dialog",
        "--disable-single-process",
        "--allow-running-insecure-content",
        "--ignore-certificate-errors",
        "--ignore-ssl-errors",
        "--ignore-certificate-errors-spki-list",
        "--ignore-certificate-errors-ssl-errors",
    ];
    let mut i: usize = 0;
    while i < base.len()
        invariant
            i <= base@.len(),
            base@.map_values(|p: &str| p@) == base_args(),
            args@.map_values(|a: String| a@) == base_args().take(i as int),
        decreases base@.len() - i,
    {
        push_arg(&mut args, base[i]);
        proof {
            assert(base@.map_values(|p: &str| p@)[i as int] == base@[i as int]@);
            assert(base_args().take(i + 1) =~= base_args().take(i as int).push(base@[i as int]@));
        }
        i = i + 1;
    }
    proof {
        assert(base_args().take(base@.len() as int) =~= base_args());
    }
    let ghost acc0 = args@.map_values(|a: String| a@);
    let mut w: Vec<char> = Vec::new();
    push_str(&mut w, "--window-size=");
    push_decimal(&mut w, config.viewport.width as u64);
    w.push(',');
    push_decimal(&mut w, config.viewport.height as u64);
    push_chars(&mut args, &w);
    push_arg(&mut args, "--memory-pressure-off");
    let mut u: Vec<char> = Vec::new();
    push_str(&mut u, "--user-data-dir=/tmp/chromium-screenshot-");
    push_str(&mut u, unique_id);
    push_chars(&mut args, &u);
    let mut p: Vec<char> = Vec::new();
    push_str(&mut p, "--remote-debugging-port=");
    push_decimal(&mut p, (BASE_DEBUG_PORT + port_offset) as u64);
    push_chars(&mut args, &p);
    let mut t: Vec<char> = Vec::new();
    push_str(&mut t, "--temp-dir=/tmp/chromium-temp-");
    push_str(&mut t, unique_id);
    push_chars(&mut args, &t);
    let ghost acc1 = args@.map_values(|a: String| a@);
    proof {
        assert(w@ =~= "--window-size="@ + decimal(config.viewport.width as nat) + seq![','] + decimal(
            config.viewport.height as nat,
        ));
        assert(acc1 =~= acc0 + seq![
            "--window-size="@ + decimal(config.viewport.width as nat) + seq![','] + decimal(
                config.viewport.height as nat,
            ),
            "--memory-pressure-off"@,
            "--user-data-dir=/tmp/chromium-screenshot-"@ + unique_id@,
            "--remote-debugging-port="@ + decimal((BASE_DEBUG_PORT + port_offset) as nat),
            "--temp-dir=/tmp/chromium-temp-"@ + unique_id@,
        ]);
    }
    if let Some(m) = config.memory_limit {
        let mut s: Vec<char> = Vec::new();
        push_str(&mut s, "--max_old_space_size=");
        push_decimal(&mut s, (m / 1048576) as u64);
        push_chars(&mut args, &s);
    }
    let ghost acc2 = args@.map_values(|a: String| a@);
    if config.optimization.block_images {
        push_arg(&mut args, "--disable-images");
    }
    let ghost acc3 = args@.map_values(|a: String| a@);
    if !config.optimization.enable_javascript {
        push_arg(&mut args, "--disable-javascript");
    }
    let ghost acc4 = args@.map_values(|a: String| a@);
    if config.optimization.disable_plugins {
        push_arg(&mut args, "--disable-plugins");
    }
    let ghost acc5 = args@.map_values(|a: String| a@);
    if config.optimization.disable_css {
        push_arg(&mut args, "--disable-css");
    }
    let ghost acc6 = args@.map_values(|a: String| a@);
    if let Some(ua) = &config.user_agent {
        let mut s: Vec<char> = Vec::new();
        push_str(&mut s, "--user-agent=");
        push_str(&mut s, ua.as_str());
        push_chars(&mut args, &s);
    }
    proof {
        assert(acc2 =~= acc1 + match config.memory_limit {
            Some(m) => seq!["--max_old_space_size="@ + decimal(m as nat / 1048576)],
            None => Seq::<Seq<char>>::empty(),
        });
        assert(acc3 =~= acc2 + opt_arg(config.optimization.block_images, "--disable-images"@));
        assert(acc4 =~= acc3 + opt_arg(!config.optimization.enable_javascript, "--disable-javascript"@));
        assert(acc5 =~= acc4 + opt_arg(config.optimization.disable_plugins, "--disable-plugins"@));
        assert(acc6 =~= acc5 + opt_arg(config.optimization.disable_css, "--disable-css"@));
        assert(args@.map_values(|a: String| a@) =~= acc6 + match config.user_agent {
            Some(ua) => seq!["--user-agent="@ + ua@],
            None => Seq::<Seq<char>>::empty(),
        });
        assert(args@.map_values(|a: String| a@) =~= chrome_args_for(*config, unique_id@, port_offset as nat));
    }
    args
}

} // verus!
