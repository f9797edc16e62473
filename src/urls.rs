//! URL checks on top of the `url` crate, and the request interceptor that
//! decides which sub-resources a page may not load.

use url::{ParseError, Url};
use vstd::prelude::*;

use crate::text::occurs_at;

verus! {

#[verifier::external_type_specification]
#[verifier::external_body]
pub struct ExUrl(Url);

#[verifier::external_type_specification]
#[verifier::external_body]
pub struct ExParseError(ParseError);

/// The scheme of the URL that `url::Url::parse` reads from the text, or
/// `None` where the text does not parse.
pub uninterp spec fn parsed_scheme(s: Seq<char>) -> Option<Seq<char>>;

/// The domain of the URL that `url::Url::parse` reads from the text, or
/// `None` where the text does not parse or its host is not a domain.
pub uninterp spec fn parsed_domain(s: Seq<char>) -> Option<Seq<char>>;

/// The lowercase form that `str::to_lowercase` gives.
pub uninterp spec fn lower_of(s: Seq<char>) -> Seq<char>;

/// The texts of a sequence of strings.
pub open spec fn views(v: Seq<String>) -> Seq<Seq<char>> {
    v.map_values(|s: String| s@)
}

pub open spec fn opt_view(o: Option<String>) -> Option<Seq<char>> {
    match o {
        Some(s) => Some(s@),
        None => None,
    }
}

/// Relies on `url::Url::parse`: it succeeds exactly where a scheme can be
/// read from the text.
#[verifier::external_body]
fn parse_url(s: &str) -> (r: Result<Url, ParseError>)
    ensures
        r is Ok <==> parsed_scheme(s@).is_some(),
{
    Url::parse(s)
}

/// Relies on `url::Url::parse` and `Url::scheme`.
#[verifier::external_body]
fn scheme_of(s: &str) -> (r: Option<String>)
    ensures
        opt_view(r) == parsed_scheme(s@),
{
    Url::parse(s).ok().map(|u| u.scheme().to_string())
}

/// Relies on `url::Url::parse` and `Url::domain`.
#[verifier::external_body]
fn domain_of(s: &str) -> (r: Option<String>)
    ensures
        opt_view(r) == parsed_domain(s@),
{
    Url::parse(s).ok().and_then(|u| u.domain().map(|d| d.to_string()))
}

/// Relies on `url::ParseError::InvalidPort`, the error `validate_url` gives
/// for a URL whose scheme is not http or https.
#[verifier::external_body]
fn invalid_port() -> (r: ParseError) {
    ParseError::InvalidPort
}

/// Relies on `str::to_lowercase`: the result depends on the text alone.
#[verifier::external_body]
fn lowercase(s: &str) -> (r: String)
    ensures
        r@ == lower_of(s@),
{
    s.to_lowercase()
}

/// Whether two texts are equal, character by character.
pub fn same_text(a: &str, b: &str) -> (r: bool)
    ensures
        r == (a@ == b@),
{
    let n = a.unicode_len();
    if n != b.unicode_len() {
        return false;
    }
    let mut i: usize = 0;
    while i < n
        invariant
            n == a@.len(),
            n == b@.len(),
            i <= n,
            forall|k: int| 0 <= k < i ==> a@[k] == b@[k],
        decreases n - i,
    {
        if a.get_char(i) != b.get_char(i) {
            return false;
        }
        i = i + 1;
    }
    proof {
        assert(a@ =~= b@);
    }
    true
}

/// Whether the scheme is one that captures accept.
pub open spec fn web_scheme(s: Seq<char>) -> bool {
    s == "http"@ || s == "https"@
}

/// Accepts a URL exactly when it parses and its scheme is http or https.
pub fn validate_url(url: &str) -> (r: Result<Url, ParseError>)
    ensures
        r is Ok <==> (parsed_scheme(url@) matches Some(s) && web_scheme(s)),
{
    match scheme_of(url) {
        Some(scheme) => {
            if same_text(scheme.as_str(), "http") || same_text(scheme.as_str(), "https") {
                parse_url(url)
            } else {
                Err(invalid_port())
            }
        },
        None => parse_url(url),
    }
}

/// Whether a URL is one captures accept.
pub fn is_web_url(url: &str) -> (r: bool)
    ensures
        r <==> (parsed_scheme(url@) matches Some(s) && web_scheme(s)),
{
    match scheme_of(url) {
        Some(scheme) => same_text(scheme.as_str(), "http") || same_text(scheme.as_str(), "https"),
        None => false,
    }
}

/// The domain of a URL, if it parses and names one.
pub fn extract_domain(url: &str) -> (r: Option<String>)
    ensures
        opt_view(r) == parsed_domain(url@),
{
    domain_of(url)
}

/// Whether both URLs name the same domain.
pub fn is_same_domain(url1: &str, url2: &str) -> (r: bool)
    ensures
        r == (parsed_domain(url1@) is Some && parsed_domain(url1@) == parsed_domain(url2@)),
{
    match (domain_of(url1), domain_of(url2)) {
        (Some(d1), Some(d2)) => same_text(d1.as_str(), d2.as_str()),
        _ => false,
    }
}

/// Whether `pat` occurs anywhere in `s`.
pub open spec fn occurs_in(s: Seq<char>, pat: Seq<char>) -> bool {
    exists|i: int|
        0 <= i && i + pat.len() <= s.len() && #[trigger] s.skip(i).take(pat.len() as int) == pat
}

fn contains_text(s: &Vec<char>, pat: &str) -> (r: bool)
    ensures
        r == occurs_in(s@, pat@),
{
    let n = s.len();
    let mut i: usize = 0;
    while i < n
        invariant
            n == s@.len(),
            i <= n,
            forall|k: int|
                0 <= k < i && k + pat@.len() <= s@.len() ==> #[trigger] s@.skip(k).take(
                    pat@.len() as int,
                ) != pat@,
        decreases n - i,
    {
        if occurs_at(s, i, pat) {
            return true;
        }
        i = i + 1;
    }
    occurs_at(s, n, pat)
}

fn chars_of(s: &str) -> (r: Vec<char>)
    ensures
        r@ == s@,
{
    let n = s.unicode_len();
    let mut v: Vec<char> = Vec::new();
    let mut i: usize = 0;
    while i < n
        invariant
            n == s@.len(),
            i <= n,
            v@ == s@.take(i as int),
        decreases n - i,
    {
        v.push(s.get_char(i));
        i = i + 1;
    }
    proof {
        assert(s@.take(n as int) =~= s@);
    }
    v
}

pub open spec fn ad_patterns() -> Seq<Seq<char>> {
    seq![
        "/ads/"@,
        "/ad/"@,
        "/advertisement/"@,
        "/advertising/"@,
        "googleads"@,
        "googlesyndication"@,
        "doubleclick"@,
        "adsystem"@,
        "adnxs"@,
        "amazon-adsystem"@,
    ]
}

pub open spec fn tracker_patterns() -> Seq<Seq<char>> {
    seq![
        "analytics"@,
        "tracking"@,
        "telemetry"@,
        "metrics"@,
        "hotjar"@,
        "mixpanel"@,
        "segment"@,
        "gtag"@,
        "facebook.com/tr"@,
        "twitter.com/i/adsct"@,
    ]
}

pub open spec fn default_blocked_domains() -> Seq<Seq<char>> {
    seq![
        "googletagmanager.com"@,
        "googlesyndication.com"@,
        "doubleclick.net"@,
        "googleadservices.com"@,
        "facebook.com"@,
        "twitter.com"@,
        "analytics.google.com"@,
        "google-analytics.com"@,
        "hotjar.com"@,
        "mixpanel.com"@,
        "segment.com"@,
    ]
}

pub open spec fn default_blocked_resources() -> Seq<Seq<char>> {
    seq!["analytics"@, "tracking"@, "ads"@, "advertisement"@]
}

/// Whether one of `pats` occurs in `s`.
pub open spec fn any_occurs(s: Seq<char>, pats: Seq<Seq<char>>) -> bool {
    exists|k: int| 0 <= k < pats.len() && occurs_in(s, #[trigger] pats[k])
}

fn any_pattern(s: &Vec<char>, pats: &Vec<&str>) -> (r: bool)
    ensures
        r == any_occurs(s@, pats@.map_values(|p: &str| p@)),
{
    let mut k: usize = 0;
    while k < pats.len()
        invariant
            k <= pats@.len(),
            forall|j: int| 0 <= j < k ==> !occurs_in(s@, #[trigger] pats@[j]@),
        decreases pats@.len() - k,
    {
        if contains_text(s, pats[k]) {
            proof {
                assert(pats@.map_values(|p: &str| p@)[k as int] == pats@[k as int]@);
            }
            return true;
        }
        k = k + 1;
    }
    proof {
        let pv = pats@.map_values(|p: &str| p@);
        assert forall|j: int| 0 <= j < pv.len() implies !occurs_in(s@, #[trigger] pv[j]) by {
            assert(pv[j] == pats@[j]@);
        }
    }
    false
}

fn ad_pattern_list() -> (r: Vec<&'static str>)
    ensures
        r@.map_values(|p: &str| p@) == ad_patterns(),
{
    let r = vec![
        "/ads/",
        "/ad/",
        "/advertisement/",
        "/advertising/",
        "googleads",
        "googlesyndication",
        "doubleclick",
        "adsystem",
        "adnxs",
        "amazon-adsystem",
    ];
    proof {
        assert(r@.map_values(|p: &str| p@) =~= ad_patterns());
    }
    r
}

fn tracker_pattern_list() -> (r: Vec<&'static str>)
    ensures
        r@.map_values(|p: &str| p@) == tracker_patterns(),
{
    let r = vec![
        "analytics",
        "tracking",
        "telemetry",
        "metrics",
        "hotjar",
        "mixpanel",
        "segment",
        "gtag",
        "facebook.com/tr",
        "twitter.com/i/adsct",
    ];
    proof {
        assert(r@.map_values(|p: &str| p@) =~= tracker_patterns());
    }
    r
}

fn strings_of(lits: &Vec<&str>) -> (r: Vec<String>)
    ensures
        views(r@) == lits@.map_values(|p: &str| p@),
{
    let mut r: Vec<String> = Vec::new();
    let mut i: usize = 0;
    while i < lits.len()
        invariant
            i <= lits@.len(),
            r@.len() == i,
            forall|k: int| 0 <= k < i ==> (#[trigger] r@[k])@ == lits@[k]@,
        decreases lits@.len() - i,
    {
        r.push(String::from_str(lits[i]));
        i = i + 1;
    }
    proof {
        assert(views(r@) =~= lits@.map_values(|p: &str| p@));
    }
    r
}

proof fn lemma_push_contains(s: Seq<Seq<char>>, a: Seq<char>, x: Seq<char>)
    ensures
        s.push(a).contains(x) <==> (s.contains(x) || x == a),
{
    if s.contains(x) {
        let k = choose|k: int| 0 <= k < s.len() && s[k] == x;
        assert(s.push(a)[k] == x);
    }
    if x == a {
        assert(s.push(a)[s.len() as int] == x);
    }
    if s.push(a).contains(x) {
        let k = choose|k: int| 0 <= k < s.push(a).len() && s.push(a)[k] == x;
        if k < s.len() {
            assert(s[k] == x);
        }
    }
}

/// Decides which sub-resource requests a page may not make: those to a
/// blocked domain, those whose URL carries an ad or tracker pattern (as
/// configured), and images when images are blocked.
pub struct RequestInterceptor {
    pub block_ads: bool,
    pub block_trackers: bool,
    pub block_images: bool,
    pub blocked_domains: Vec<String>,
    pub blocked_resources: Vec<String>,
}

impl RequestInterceptor {
    pub open spec fn domains(&self) -> Seq<Seq<char>> {
        views(self.blocked_domains@)
    }

    /// The blocked domains, as a set.
    /// Each blocked domain is listed once.
    pub open spec fn wf(&self) -> bool {
        self.domains().no_duplicates()
    }

    pub open spec fn domain_set(&self) -> Set<Seq<char>> {
        self.domains().to_set()
    }

    /// Ads and trackers blocked, images allowed, and the common ad and
    /// tracker domains listed.
    pub fn new() -> (r: Self)
        ensures
            r.wf(),
            r.block_ads && r.block_trackers && !r.block_images,
            r.domains() == default_blocked_domains(),
            views(r.blocked_resources@) == default_blocked_resources(),
    {
        let domains = vec![
            "googletagmanager.com",
            "googlesyndication.com",
            "doubleclick.net",
            "googleadservices.com",
            "facebook.com",
            "twitter.com",
            "analytics.google.com",
            "google-analytics.com",
            "hotjar.com",
            "mixpanel.com",
            "segment.com",
        ];
        let resources = vec!["analytics", "tracking", "ads", "advertisement"];
        let blocked_domains = strings_of(&domains);
        let blocked_resources = strings_of(&resources);
        proof {
            assert(domains@.map_values(|p: &str| p@) =~= default_blocked_domains());
            lemma_default_domains_distinct();
            assert(resources@.map_values(|p: &str| p@) =~= default_blocked_resources());
        }
        RequestInterceptor {
            block_ads: true,
            block_trackers: true,
            block_images: false,
            blocked_domains,
            blocked_resources,
        }
    }

    fn is_blocked_domain(&self, domain: &str) -> (r: bool)
        ensures
            r == self.domain_set().contains(domain@),
    {
        let mut i: usize = 0;
        while i < self.blocked_domains.len()
            invariant
                i <= self.blocked_domains@.len(),
                forall|k: int| 0 <= k < i ==> (#[trigger] self.blocked_domains@[k])@ != domain@,
            decreases self.blocked_domains@.len() - i,
        {
            if same_text(self.blocked_domains[i].as_str(), domain) {
                proof {
                    assert(self.domains()[i as int] == domain@);
                }
                return true;
            }
            i = i + 1;
        }
        proof {
            if self.domain_set().contains(domain@) {
                let k = choose|k: int| 0 <= k < self.domains().len() && self.domains()[k] == domain@;
                assert(self.blocked_domains@[k]@ == domain@);
            }
        }
        false
    }

    /// Whether a request for `url` of the given resource type is refused.
    pub open spec fn blocks(&self, url: Seq<char>, resource_type: Seq<char>) -> bool {
        match parsed_domain(url) {
            None => false,
            Some(d) => self.domain_set().contains(d) || (self.block_ads && any_occurs(
                lower_of(url),
                ad_patterns(),
            )) || (self.block_trackers && any_occurs(lower_of(url), tracker_patterns())) || (
            self.block_images && resource_type == "image"@),
        }
    }

    pub fn should_block(&self, url: &str, resource_type: &str) -> (r: bool)
        ensures
            r == self.blocks(url@, resource_type@),
    {
        let domain = match domain_of(url) {
            Some(d) => d,
            None => return false,
        };
        if self.is_blocked_domain(domain.as_str()) {
            return true;
        }
        let lower = lowercase(url);
        let chars = chars_of(lower.as_str());
        if self.block_ads && any_pattern(&chars, &ad_pattern_list()) {
            return true;
        }
        if self.block_trackers && any_pattern(&chars, &tracker_pattern_list()) {
            return true;
        }
        if self.block_images && same_text(resource_type, "image") {
            return true;
        }
        false
    }

    /// Adds a domain to the blocked set.
    pub fn add_blocked_domain(&mut self, domain: String)
        requires
            old(self).wf(),
        ensures
            final(self).wf(),
            final(self).blocked_resources == old(self).blocked_resources,
            final(self).domain_set() == old(self).domain_set().insert(domain@),
            final(self).block_ads == old(self).block_ads,
            final(self).block_trackers == old(self).block_trackers,
            final(self).block_images == old(self).block_images,
    {
        if self.is_blocked_domain(domain.as_str()) {
            proof {
                assert(old(self).domain_set().insert(domain@) =~= old(self).domain_set());
            }
            return;
        }
        let ghost d0 = self.domains();
        self.blocked_domains.push(domain);
        proof {
            assert(self.domains() =~= d0.push(domain@));
            assert(!d0.contains(domain@));
            let dn = self.domains();
            assert forall|a: int, b: int| 0 <= a < dn.len() && 0 <= b < dn.len() && a != b implies dn[a]
                != dn[b] by {
                if a < d0.len() && b < d0.len() {
                } else if a < d0.len() {
                    assert(d0.contains(d0[a]));
                } else if b < d0.len() {
                    assert(d0.contains(d0[b]));
                }
            }
            assert(self.domain_set() =~= old(self).domain_set().insert(domain@)) by {
                assert forall|x: Seq<char>| #[trigger] self.domain_set().contains(x) <==> old(
                    self,
                ).domain_set().insert(domain@).contains(x) by {
                    if self.domain_set().contains(x) {
                        let k = choose|k: int| 0 <= k < self.domains().len() && self.domains()[k] == x;
                        if k < d0.len() {
                            assert(d0[k] == x);
                        }
                    }
                    if old(self).domain_set().contains(x) {
                        let k = choose|k: int| 0 <= k < d0.len() && d0[k] == x;
                        assert(self.domains()[k] == x);
                    }
                    if x == domain@ {
                        assert(self.domains()[d0.len() as int] == x);
                    }
                }
            }
        }
    }

    /// Removes a domain from the blocked set.
    pub fn remove_blocked_domain(&mut self, domain: &str)
        requires
            old(self).wf(),
        ensures
            final(self).wf(),
            final(self).blocked_resources == old(self).blocked_resources,
            final(self).domain_set() == old(self).domain_set().remove(domain@),
            final(self).block_ads == old(self).block_ads,
            final(self).block_trackers == old(self).block_trackers,
            final(self).block_images == old(self).block_images,
    {
        let ghost d0 = self.domains();
        let mut kept: Vec<String> = Vec::new();
        let mut rest: Vec<String> = Vec::new();
        std::mem::swap(&mut rest, &mut self.blocked_domains);
        proof {
            assert(views(rest@) == d0);
        }
        let n = rest.len();
        let mut i: usize = 0;
        while i < n
            invariant
                n == d0.len(),
                i <= n,
                views(rest@) == d0.skip(i as int),
                forall|k: int| 0 <= k < kept@.len() ==> (#[trigger] kept@[k])@ != domain@,
                d0.no_duplicates(),
                views(kept@).no_duplicates(),
                forall|x: Seq<char>|
                    #[trigger] views(kept@).contains(x) <==> (d0.take(
                        i as int,
                    ).contains(x) && x != domain@),
            decreases n - i,
        {
            let ghost kv = views(kept@);
            let ghost r0 = rest@;
            proof {
                assert(views(r0).len() == r0.len());
                assert(views(r0)[0] == r0[0]@);
            }
            let item = rest.remove(0);
            proof {
                assert(item@ == d0[i as int]) by {
                    assert(d0.skip(i as int)[0] == d0[i as int]);
                }
                assert forall|k: int| 0 <= k < views(rest@).len() implies views(rest@)[k] == d0.skip(
                    i + 1,
                )[k] by {
                    assert(rest@[k] == r0[k + 1]);
                    assert(views(r0)[k + 1] == d0.skip(i as int)[k + 1]);
                }
                assert(views(rest@) =~= d0.skip(i + 1));
            }
            if !same_text(item.as_str(), domain) {
                proof {
                    if kv.contains(d0[i as int]) {
                        let t0 = d0.take(i as int);
                        let k = choose|k: int| 0 <= k < t0.len() && t0[k] == d0[i as int];
                        assert(d0[k] == d0[i as int]);
                    }
                }
                kept.push(item);
                proof {
                    assert(views(kept@) =~= kv.push(d0[i as int]));
                    assert forall|a: int, b: int|
                        0 <= a < views(kept@).len() && 0 <= b < views(kept@).len() && a != b implies views(
                        kept@,
                    )[a] != views(kept@)[b] by {
                        if a < kv.len() && b < kv.len() {
                        } else if a < kv.len() {
                            assert(kv.contains(kv[a]));
                        } else if b < kv.len() {
                            assert(kv.contains(kv[b]));
                        }
                    }
                }
            }
            proof {
                let kv2 = views(kept@);
                assert(d0.take(i + 1) =~= d0.take(i as int).push(d0[i as int]));
                assert forall|x: Seq<char>| #[trigger] kv2.contains(x) <==> (d0.take(i + 1).contains(x)
                    && x != domain@) by {
                    lemma_push_contains(d0.take(i as int), d0[i as int], x);
                    if d0[i as int] != domain@ {
                        lemma_push_contains(kv, d0[i as int], x);
                    }
                }
            }
            i = i + 1;
        }
        self.blocked_domains = kept;
        proof {
            assert(d0.take(n as int) =~= d0);
            assert(self.domain_set() =~= old(self).domain_set().remove(domain@));
        }
    }

    pub fn get_blocked_domains(&self) -> (r: &Vec<String>)
        ensures
            r == &self.blocked_domains,
    {
        &self.blocked_domains
    }
}

proof fn lemma_default_domains_distinct()
    ensures
        default_blocked_domains().no_duplicates(),
{
    reveal_strlit("googletagmanager.com");
    reveal_strlit("googlesyndication.com");
    reveal_strlit("doubleclick.net");
    reveal_strlit("googleadservices.com");
    reveal_strlit("facebook.com");
    reveal_strlit("twitter.com");
    reveal_strlit("analytics.google.com");
    reveal_strlit("google-analytics.com");
    reveal_strlit("hotjar.com");
    reveal_strlit("mixpanel.com");
    reveal_strlit("segment.com");
    let d = default_blocked_domains();
    assert forall|a: int, b: int| 0 <= a < d.len() && 0 <= b < d.len() && a != b implies d[a]
        != d[b] by {
        if d[a].len() == d[b].len() {
            assert(d[a][0] != d[b][0] || d[a][1] != d[b][1] || d[a][6] != d[b][6] || d[a][9]
                != d[b][9] || d[a][12] != d[b][12]);
        }
    }
}

impl Default for RequestInterceptor {
    fn default() -> (r: Self)
        ensures
            r.wf(),
            r.block_ads && r.block_trackers && !r.block_images,
            r.domains() == default_blocked_domains(),
    {
        Self::new()
    }
}

} // verus!
