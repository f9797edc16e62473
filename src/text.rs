//! Text utilities: filename sanitation, human-readable durations and sizes,
//! output filenames for captured URLs, and URL-list parsing.

use std::time::Duration;
use vstd::prelude::*;

use crate::clock::{duration_secs, duration_subsec_millis, secs_of, subsec_ms_of};
use crate::config::OutputFormat;

verus! {

/// Relies on collecting a `char` iterator into a `String`: the string holds
/// exactly those characters.
#[verifier::external_body]
pub fn string_from_chars(v: &Vec<char>) -> (r: String)
    ensures
        r@ == v@,
{
    v.iter().collect()
}

/// Unicode control characters (general category Cc).
pub open spec fn is_control(c: char) -> bool {
    c <= '\x1f' || ('\x7f' <= c && c <= '\u{9f}')
}

/// Unicode `White_Space` characters.
pub open spec fn is_ws(c: char) -> bool {
    ('\t' <= c && c <= '\r') || c == ' ' || c == '\u{85}' || c == '\u{a0}' || c == '\u{1680}' || (
    '\u{2000}' <= c && c <= '\u{200a}') || c == '\u{2028}' || c == '\u{2029}' || c == '\u{202f}'
        || c == '\u{205f}' || c == '\u{3000}'
}

pub fn is_whitespace_char(c: char) -> (r: bool)
    ensures
        r == is_ws(c),
{
    ('\t' <= c && c <= '\r') || c == ' ' || c == '\u{85}' || c == '\u{a0}' || c == '\u{1680}' || (
    '\u{2000}' <= c && c <= '\u{200a}') || c == '\u{2028}' || c == '\u{2029}' || c == '\u{202f}'
        || c == '\u{205f}' || c == '\u{3000}'
}

pub open spec fn trim_start(s: Seq<char>) -> Seq<char>
    decreases s.len(),
{
    if s.len() > 0 && is_ws(s[0]) {
        trim_start(s.drop_first())
    } else {
        s
    }
}

pub open spec fn trim_end(s: Seq<char>) -> Seq<char>
    decreases s.len(),
{
    if s.len() > 0 && is_ws(s.last()) {
        trim_end(s.drop_last())
    } else {
        s
    }
}

/// `s` without leading or trailing white space.
pub open spec fn trim(s: Seq<char>) -> Seq<char> {
    trim_end(trim_start(s))
}

proof fn lemma_trim_start_skip(s: Seq<char>, k: int)
    requires
        0 <= k < s.len(),
        is_ws(s[k]),
    ensures
        trim_start(s.skip(k)) == trim_start(s.skip(k + 1)),
{
    assert(s.skip(k).drop_first() =~= s.skip(k + 1));
}

proof fn lemma_trim_end_take(s: Seq<char>, k: int)
    requires
        0 < k <= s.len(),
        is_ws(s[k - 1]),
    ensures
        trim_end(s.take(k)) == trim_end(s.take(k - 1)),
{
    assert(s.take(k).drop_last() =~= s.take(k - 1));
}

/// The part of `v` left after trimming white space at both ends.
pub fn trimmed(v: &Vec<char>) -> (r: Vec<char>)
    ensures
        r@ == trim(v@),
{
    let ghost s = v@;
    let n = v.len();
    let mut start: usize = 0;
    proof {
        assert(s.skip(0) =~= s);
    }
    while start < n && is_whitespace_char(v[start])
        invariant
            s == v@,
            n == s.len(),
            start <= n,
            trim_start(s) == trim_start(s.skip(start as int)),
        decreases n - start,
    {
        proof {
            lemma_trim_start_skip(s, start as int);
        }
        start = start + 1;
    }
    let ghost t = s.skip(start as int);
    proof {
        assert(s.skip(0) =~= s);
        if start == n {
            assert(t.len() == 0);
        }
        assert(trim_start(s) == t);
    }
    let mut end: usize = n;
    proof {
        assert(t.take(n - start) =~= t);
    }
    while end > start && is_whitespace_char(v[end - 1])
        invariant
            s == v@,
            n == s.len(),
            start <= end <= n,
            t == s.skip(start as int),
            trim_end(t) == trim_end(t.take(end - start)),
        decreases end - start,
    {
        proof {
            assert(t[end - start - 1] == s[end - 1]);
            lemma_trim_end_take(t, end - start);
        }
        end = end - 1;
    }
    let mut r: Vec<char> = Vec::new();
    let mut i: usize = start;
    while i < end
        invariant
            s == v@,
            start <= i <= end <= n,
            n == s.len(),
            r@ == s.subrange(start as int, i as int),
        decreases end - i,
    {
        r.push(v[i]);
        proof {
            assert(r@ =~= s.subrange(start as int, i + 1));
        }
        i = i + 1;
    }
    proof {
        assert(t.take(end - start) =~= s.subrange(start as int, end as int));
        if end - start > 0 {
            assert(!is_ws(t.take(end - start).last()));
        }
        assert(trim_end(t.take(end - start)) == t.take(end - start));
    }
    r
}

/// The characters that `sanitize_filename` replaces.
pub open spec fn unsafe_in_filename(c: char) -> bool {
    c == '/' || c == '\\' || c == ':' || c == '*' || c == '?' || c == '"' || c == '<' || c == '>'
        || c == '|' || is_control(c)
}

pub open spec fn sanitize_char(c: char) -> char {
    if unsafe_in_filename(c) { '_' } else { c }
}

/// Path separators, wildcard and quoting characters and control characters
/// become `_`; surrounding white space is trimmed.
pub open spec fn sanitized(s: Seq<char>) -> Seq<char> {
    trim(s.map_values(|c: char| sanitize_char(c)))
}

pub fn sanitize_filename(input: &str) -> (r: String)
    ensures
        r@ == sanitized(input@),
{
    let n = input.unicode_len();
    let mut mapped: Vec<char> = Vec::new();
    let mut i: usize = 0;
    while i < n
        invariant
            n == input@.len(),
            i <= n,
            mapped@ == input@.take(i as int).map_values(|c: char| sanitize_char(c)),
        decreases n - i,
    {
        let c = input.get_char(i);
        let unsafe_char = c == '/' || c == '\\' || c == ':' || c == '*' || c == '?' || c == '"' || c
            == '<' || c == '>' || c == '|' || c <= '\x1f' || ('\x7f' <= c && c <= '\u{9f}');
        if unsafe_char {
            mapped.push('_');
        } else {
            mapped.push(c);
        }
        proof {
            assert(mapped@ =~= input@.take(i + 1).map_values(|c: char| sanitize_char(c)));
        }
        i = i + 1;
    }
    proof {
        assert(input@.take(n as int) =~= input@);
    }
    let t = trimmed(&mapped);
    string_from_chars(&t)
}

pub open spec fn digit(d: nat) -> char {
    if d == 0 {
        '0'
    } else if d == 1 {
        '1'
    } else if d == 2 {
        '2'
    } else if d == 3 {
        '3'
    } else if d == 4 {
        '4'
    } else if d == 5 {
        '5'
    } else if d == 6 {
        '6'
    } else if d == 7 {
        '7'
    } else if d == 8 {
        '8'
    } else {
        '9'
    }
}

/// Decimal digits of `n`, without leading zeros.
pub open spec fn decimal(n: nat) -> Seq<char>
    decreases n,
{
    if n < 10 {
        seq![digit(n)]
    } else {
        decimal(n / 10).push(digit(n % 10))
    }
}

fn digit_char(d: u64) -> (r: char)
    requires
        d < 10,
    ensures
        r == digit(d as nat),
{
    if d == 0 {
        '0'
    } else if d == 1 {
        '1'
    } else if d == 2 {
        '2'
    } else if d == 3 {
        '3'
    } else if d == 4 {
        '4'
    } else if d == 5 {
        '5'
    } else if d == 6 {
        '6'
    } else if d == 7 {
        '7'
    } else if d == 8 {
        '8'
    } else {
        '9'
    }
}

/// Appends the decimal digits of `n`.
pub fn push_decimal(out: &mut Vec<char>, n: u64)
    ensures
        final(out)@ == old(out)@ + decimal(n as nat),
    decreases n,
{
    if n >= 10 {
        push_decimal(out, n / 10);
    }
    out.push(digit_char(n % 10));
    proof {
        assert(out@ =~= old(out)@ + decimal(n as nat));
    }
}

pub fn push_str(out: &mut Vec<char>, s: &str)
    ensures
        final(out)@ == old(out)@ + s@,
{
    let n = s.unicode_len();
    let mut i: usize = 0;
    let ghost o = out@;
    while i < n
        invariant
            n == s@.len(),
            i <= n,
            out@ == o + s@.take(i as int),
        decreases n - i,
    {
        out.push(s.get_char(i));
        proof {
            assert(out@ =~= o + s@.take(i + 1));
        }
        i = i + 1;
    }
    proof {
        assert(s@.take(n as int) =~= s@);
    }
}

/// `Nh Nm Ns` from an hour up, `Nm Ns` from a minute up, `N.Ds` (tenths)
/// from a second up, else `Nms`.
pub open spec fn duration_text(secs: nat, millis: nat) -> Seq<char> {
    let hours = secs / 3600;
    let minutes = (secs % 3600) / 60;
    let seconds = secs % 60;
    if hours > 0 {
        decimal(hours) + seq!['h', ' '] + decimal(minutes) + seq!['m', ' '] + decimal(seconds)
            + seq!['s']
    } else if minutes > 0 {
        decimal(minutes) + seq!['m', ' '] + decimal(seconds) + seq!['s']
    } else if seconds > 0 {
        decimal(seconds) + seq!['.'] + decimal(millis / 100) + seq!['s']
    } else {
        decimal(millis) + seq!['m', 's']
    }
}

/// Formats whole seconds and the milliseconds past them.
pub fn format_duration_parts(secs: u64, millis: u32) -> (r: String)
    ensures
        r@ == duration_text(secs as nat, millis as nat),
{
    let hours = secs / 3600;
    let minutes = (secs % 3600) / 60;
    let seconds = secs % 60;
    let mut out: Vec<char> = Vec::new();
    if hours > 0 {
        push_decimal(&mut out, hours);
        out.push('h');
        out.push(' ');
        push_decimal(&mut out, minutes);
        out.push('m');
        out.push(' ');
        push_decimal(&mut out, seconds);
        out.push('s');
    } else if minutes > 0 {
        push_decimal(&mut out, minutes);
        out.push('m');
        out.push(' ');
        push_decimal(&mut out, seconds);
        out.push('s');
    } else if seconds > 0 {
        push_decimal(&mut out, seconds);
        out.push('.');
        push_decimal(&mut out, (millis / 100) as u64);
        out.push('s');
    } else {
        push_decimal(&mut out, millis as u64);
        out.push('m');
        out.push('s');
    }
    proof {
        assert(out@ =~= duration_text(secs as nat, millis as nat));
    }
    string_from_chars(&out)
}

/// Human-readable duration: hours, minutes and seconds at their breakpoints.
pub fn format_duration(duration: Duration) -> (r: String)
    ensures
        r@ == duration_text(secs_of(duration) as nat, subsec_ms_of(duration) as nat),
{
    let secs = duration_secs(&duration);
    let millis = duration_subsec_millis(&duration);
    format_duration_parts(secs, millis)
}

pub open spec fn pow1024(k: nat) -> nat
    decreases k,
{
    if k == 0 {
        1
    } else {
        1024 * pow1024((k - 1) as nat)
    }
}

/// The unit a byte count is shown in: the largest of B, KB, MB, GB, TB
/// (0 to 4) that the count reaches.
pub open spec fn unit_index(bytes: nat) -> nat {
    if bytes >= pow1024(4) {
        4
    } else if bytes >= pow1024(3) {
        3
    } else if bytes >= pow1024(2) {
        2
    } else if bytes >= pow1024(1) {
        1
    } else {
        0
    }
}

/// `bytes / d` in hundredths, rounded half to even.
pub open spec fn hundredths(bytes: nat, d: nat) -> nat
    recommends
        d > 0,
{
    let q = (bytes * 100) / d;
    let rem = (bytes * 100) % d;
    if rem * 2 > d || (rem * 2 == d && q % 2 == 1) {
        q + 1
    } else {
        q
    }
}

pub open spec fn unit_name(k: nat) -> Seq<char> {
    if k == 1 {
        seq!['K', 'B']
    } else if k == 2 {
        seq!['M', 'B']
    } else if k == 3 {
        seq!['G', 'B']
    } else {
        seq!['T', 'B']
    }
}

/// Two decimal places of a count of hundredths.
pub open spec fn two_places(h: nat) -> Seq<char> {
    decimal(h / 100) + seq!['.', digit((h % 100) / 10), digit(h % 10)]
}

/// Bytes below one KiB as `N B`; larger counts in the largest unit reached,
/// base 1024, with two decimal places.
pub open spec fn bytes_text(bytes: nat) -> Seq<char> {
    let k = unit_index(bytes);
    if k == 0 {
        decimal(bytes) + seq![' ', 'B']
    } else {
        two_places(hundredths(bytes, pow1024(k))) + seq![' '] + unit_name(k)
    }
}

#[verifier::rlimit(80)]
pub fn format_bytes(bytes: usize) -> (r: String)
    ensures
        r@ == bytes_text(bytes as nat),
{
    let b = bytes as u128;
    let mut out: Vec<char> = Vec::new();
    proof {
        reveal_with_fuel(pow1024, 5);
    }
    let k: u32 = if b >= 1099511627776 {
        4
    } else if b >= 1073741824 {
        3
    } else if b >= 1048576 {
        2
    } else if b >= 1024 {
        1
    } else {
        0
    };
    if k == 0 {
        push_decimal(&mut out, bytes as u64);
        out.push(' ');
        out.push('B');
        proof {
            assert(out@ =~= bytes_text(bytes as nat));
        }
        return string_from_chars(&out);
    }
    let d: u128 = if k == 4 {
        1099511627776
    } else if k == 3 {
        1073741824
    } else if k == 2 {
        1048576
    } else {
        1024
    };
    proof {
        assert(d == pow1024(k as nat));
        assert(bytes as nat * 100 <= usize::MAX as nat * 100);
    }
    let scaled: u128 = b * 100;
    let q = scaled / d;
    let rem = scaled % d;
    let h: u128 = if rem * 2 > d || (rem * 2 == d && q % 2 == 1) {
        q + 1
    } else {
        q
    };
    proof {
        assert(h == hundredths(bytes as nat, pow1024(k as nat)));
        assert(q <= scaled);
    }
    push_decimal(&mut out, (h / 100) as u64);
    out.push('.');
    out.push(digit_char(((h % 100) / 10) as u64));
    out.push(digit_char((h % 10) as u64));
    out.push(' ');
    if k == 1 {
        out.push('K');
    } else if k == 2 {
        out.push('M');
    } else if k == 3 {
        out.push('G');
    } else {
        out.push('T');
    }
    out.push('B');
    proof {
        assert(out@ =~= bytes_text(bytes as nat));
    }
    string_from_chars(&out)
}

/// Whether `pat` occurs in `s` at position `i`.
pub fn occurs_at(s: &Vec<char>, i: usize, pat: &str) -> (r: bool)
    requires
        i <= s@.len(),
    ensures
        r == (s@.len() - i >= pat@.len() && s@.skip(i as int).take(pat@.len() as int) == pat@),
{
    let m = pat.unicode_len();
    let len = s.len();
    if len - i < m {
        return false;
    }
    let mut j: usize = 0;
    while j < m
        invariant
            m == pat@.len(),
            j <= m,
            len == s@.len(),
            i + m <= len,
            forall|k: int| 0 <= k < j ==> s@[i + k] == pat@[k],
        decreases m - j,
    {
        assert(i + j < len);
        if s[i + j] != pat.get_char(j) {
            proof {
                assert(s@.skip(i as int).take(m as int)[j as int] != pat@[j as int]);
            }
            return false;
        }
        j = j + 1;
    }
    proof {
        assert(s@.skip(i as int).take(m as int) =~= pat@);
    }
    true
}

/// The characters of a URL that become `_` in an output filename.
pub open spec fn url_separator(c: char) -> bool {
    c == '/' || c == '?' || c == '&' || c == '=' || c == ':'
}

/// URL separators and every character unsafe in a filename become `_`.
pub open spec fn filename_char(c: char) -> char {
    if url_separator(c) || unsafe_in_filename(c) { '_' } else { c }
}

pub open spec fn extension(format: OutputFormat) -> Seq<char> {
    match format {
        OutputFormat::Png => seq!['p', 'n', 'g'],
        OutputFormat::Jpeg => seq!['j', 'p', 'g'],
        OutputFormat::Webp => seq!['w', 'e', 'b', 'p'],
    }
}

/// Whether `s` starts with `p`.
pub open spec fn starts_with(s: Seq<char>, p: Seq<char>) -> bool {
    s.len() >= p.len() && s.take(p.len() as int) == p
}

/// The URL without its leading `https://` or `http://`, if it has one.
pub open spec fn url_stem(url: Seq<char>) -> Seq<char> {
    if starts_with(url, seq!['h', 't', 't', 'p', 's', ':', '/', '/']) {
        url.skip(8)
    } else if starts_with(url, seq!['h', 't', 't', 'p', ':', '/', '/']) {
        url.skip(7)
    } else {
        url
    }
}

/// The output filename of a capture: the URL without its leading
/// `https://` or `http://`, with `/ ? & = :` and every character unsafe in a filename
/// replaced by `_`, and the format's extension.
pub open spec fn output_filename(url: Seq<char>, format: OutputFormat) -> Seq<char> {
    url_stem(url).map_values(|c: char| filename_char(c)) + seq!['.'] + extension(format)
}

pub fn generate_filename(url: &str, format: &OutputFormat) -> (r: String)
    ensures
        r@ == output_filename(url@, *format),
{
    let n = url.unicode_len();
    let mut chars: Vec<char> = Vec::new();
    let mut i: usize = 0;
    while i < n
        invariant
            n == url@.len(),
            i <= n,
            chars@ == url@.take(i as int),
        decreases n - i,
    {
        chars.push(url.get_char(i));
        i = i + 1;
    }
    proof {
        assert(url@.take(n as int) =~= url@);
        reveal_strlit("https://");
        reveal_strlit("http://");
        assert("https://"@ =~= seq!['h', 't', 't', 'p', 's', ':', '/', '/']);
        assert("http://"@ =~= seq!['h', 't', 't', 'p', ':', '/', '/']);
    }
    let start: usize = if occurs_at(&chars, 0, "https://") {
        8
    } else if occurs_at(&chars, 0, "http://") {
        7
    } else {
        0
    };
    proof {
        assert(chars@.skip(0) =~= chars@);
        assert(chars@.skip(0).take(8) =~= chars@.take(8));
        assert(chars@.skip(0).take(7) =~= chars@.take(7));
    }
    let ghost stem = chars@.skip(start as int);
    proof {
        assert(stem == url_stem(url@));
    }
    let mut out: Vec<char> = Vec::new();
    let mut j: usize = start;
    while j < n
        invariant
            n == chars@.len(),
            start <= j <= n,
            stem == chars@.skip(start as int),
            out@ == stem.take(j - start).map_values(|c: char| filename_char(c)),
        decreases n - j,
    {
        let c = chars[j];
        if c == '/' || c == '?' || c == '&' || c == '=' || c == ':' || c == '\\' || c == '*' || c
            == '"' || c == '<' || c == '>' || c == '|' || c <= '\x1f' || ('\x7f' <= c && c
            <= '\u{9f}') {
            out.push('_');
        } else {
            out.push(c);
        }
        proof {
            assert(stem[j - start] == c);
            assert(out@ =~= stem.take(j + 1 - start).map_values(|c: char| filename_char(c)));
        }
        j = j + 1;
    }
    proof {
        assert(stem.take(n - start) =~= stem);
    }
    out.push('.');
    match format {
        OutputFormat::Png => {
            out.push('p');
            out.push('n');
            out.push('g');
        },
        OutputFormat::Jpeg => {
            out.push('j');
            out.push('p');
            out.push('g');
        },
        OutputFormat::Webp => {
            out.push('w');
            out.push('e');
            out.push('b');
            out.push('p');
        },
    }
    proof {
        assert(out@ =~= output_filename(url@, *format));
    }
    string_from_chars(&out)
}

/// Every output filename is a non-empty stem free of `/ \ : * ? " < > |`
/// and control characters, a dot, and `png`, `jpg` or `webp`, for every URL
/// that is not empty once its schemes are removed.
pub proof fn lemma_filename_shape(url: Seq<char>, format: OutputFormat)
    requires
        url_stem(url).len() > 0,
    ensures
        ({
            let name = output_filename(url, format);
            let stem_len = url_stem(url).len() as int;
            &&& stem_len > 0
            &&& forall|i: int| 0 <= i < stem_len ==> !unsafe_in_filename(#[trigger] name[i])
            &&& name[stem_len] == '.'
            &&& name.skip(stem_len + 1) == extension(format)
            &&& (extension(format) == seq!['p', 'n', 'g'] || extension(format) == seq!['j', 'p', 'g']
                || extension(format) == seq!['w', 'e', 'b', 'p'])
        }),
{
    let stem = url_stem(url);
    let name = output_filename(url, format);
    assert forall|i: int| 0 <= i < stem.len() implies !unsafe_in_filename(#[trigger] name[i]) by {
        assert(name[i] == filename_char(stem[i]));
    }
    assert(name.skip(stem.len() as int + 1) =~= extension(format));
}

/// One segment per `\n`-separated piece of `s` (the last may be empty).
pub open spec fn segments(s: Seq<char>) -> Seq<Seq<char>>
    decreases s.len(),
{
    if s.len() == 0 {
        seq![Seq::<char>::empty()]
    } else if s.last() == '\n' {
        segments(s.drop_last()).push(Seq::<char>::empty())
    } else {
        let prev = segments(s.drop_last());
        prev.update(prev.len() - 1, prev.last().push(s.last()))
    }
}

proof fn lemma_segments_nonempty(s: Seq<char>)
    ensures
        segments(s).len() > 0,
    decreases s.len(),
{
    if s.len() > 0 {
        lemma_segments_nonempty(s.drop_last());
    }
}

/// Lines kept from a URL list: trimmed, neither blank nor a `#` comment.
pub open spec fn keep_line(t: Seq<char>) -> bool {
    t.len() > 0 && t[0] != '#'
}

/// The trimmed lines of `s` that are kept, in order.
pub open spec fn kept_lines(lines: Seq<Seq<char>>) -> Seq<Seq<char>>
    decreases lines.len(),
{
    if lines.len() == 0 {
        Seq::empty()
    } else if keep_line(trim(lines.last())) {
        kept_lines(lines.drop_last()).push(trim(lines.last()))
    } else {
        kept_lines(lines.drop_last())
    }
}

/// The URLs of a URL list: one per line, trimmed, skipping blank lines and
/// lines that start with `#`.
pub fn parse_url_list(content: &str) -> (r: Vec<String>)
    ensures
        r@.map_values(|u: String| u@) == kept_lines(segments(content@)),
{
    let ghost s = content@;
    let n = content.unicode_len();
    let mut done: Vec<String> = Vec::new();
    let mut cur: Vec<char> = Vec::new();
    let mut i: usize = 0;
    proof {
        assert(s.take(0) =~= Seq::<char>::empty());
        assert(segments(s.take(0)).drop_last() =~= Seq::<Seq<char>>::empty());
        assert(done@.map_values(|u: String| u@) =~= Seq::<Seq<char>>::empty());
    }
    while i < n
        invariant
            s == content@,
            n == s.len(),
            i <= n,
            segments(s.take(i as int)).last() == cur@,
            done@.map_values(|u: String| u@) == kept_lines(segments(s.take(i as int)).drop_last()),
        decreases n - i,
    {
        let c = content.get_char(i);
        proof {
            assert(s.take(i + 1).drop_last() =~= s.take(i as int));
            assert(s.take(i + 1).last() == c);
            lemma_segments_nonempty(s.take(i as int));
        }
        if c == '\n' {
            let t = trimmed(&cur);
            let keep = t.len() > 0 && t[0] != '#';
            let ghost prev = segments(s.take(i as int));
            proof {
                assert(segments(s.take(i + 1)).drop_last() =~= prev);
                assert(prev =~= prev.drop_last().push(cur@));
            }
            if keep {
                let line = string_from_chars(&t);
                done.push(line);
            }
            cur = Vec::new();
            proof {
                assert(done@.map_values(|u: String| u@) =~= kept_lines(
                    segments(s.take(i + 1)).drop_last(),
                ));
            }
        } else {
            let ghost prev = segments(s.take(i as int));
            cur.push(c);
            proof {
                assert(segments(s.take(i + 1)).drop_last() =~= prev.drop_last());
            }
        }
        i = i + 1;
    }
    proof {
        assert(s.take(n as int) =~= s);
        lemma_segments_nonempty(s);
    }
    let t = trimmed(&cur);
    if t.len() > 0 && t[0] != '#' {
        let line = string_from_chars(&t);
        done.push(line);
    }
    proof {
        let segs = segments(s);
        assert(segs =~= segs.drop_last().push(cur@));
        assert(done@.map_values(|u: String| u@) =~= kept_lines(segs));
    }
    done
}

} // verus!
