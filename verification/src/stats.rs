//! Aggregated results of a run, and their JSON form.
//!
//! The aggregator tallies one counter per outcome kind and keeps a
//! drill-down list for failed, errored and timed-out URIs. A run
//! succeeded exactly when those three lists are empty. The JSON
//! writer and reader below are exact inverses: reading a written
//! stats value yields the same value.

use vstd::prelude::*;

use crate::checker::{Response, StatusView};
use crate::num::{all_digits, digits_val, is_digit, parse_u64, render_u64, spec_digits_of};
use crate::num::lemma_digits_roundtrip;
use crate::text::{chars_of, starts_with, string_from_chars, subrange_chars};

verus! {

/// The tallies of a run.
#[derive(Debug)]
pub struct ResponseStats {
    /// How many responses arrived.
    pub total: u64,
    /// How many were successes.
    pub successful: u64,
    /// How many were excluded.
    pub excluded: u64,
    /// How many stopped at a redirect.
    pub redirected: u64,
    /// The failed URIs, each with its response code.
    pub failures: Vec<(String, u16)>,
    /// The erring URIs, each with its message.
    pub errors: Vec<(String, String)>,
    /// The timed-out URIs, each with the last-seen code, if any.
    pub timeouts: Vec<(String, Option<u16>)>,
}

/// The mathematical content of a `ResponseStats`.
pub struct StatsView {
    pub total: u64,
    pub successful: u64,
    pub excluded: u64,
    pub redirected: u64,
    pub failures: Seq<(Seq<char>, u16)>,
    pub errors: Seq<(Seq<char>, Seq<char>)>,
    pub timeouts: Seq<(Seq<char>, Option<u16>)>,
}

impl View for ResponseStats {
    type V = StatsView;

    open spec fn view(&self) -> StatsView {
        StatsView {
            total: self.total,
            successful: self.successful,
            excluded: self.excluded,
            redirected: self.redirected,
            failures: self.failures@.map_values(|p: (String, u16)| (p.0@, p.1)),
            errors: self.errors@.map_values(|p: (String, String)| (p.0@, p.1@)),
            timeouts: self.timeouts@.map_values(|p: (String, Option<u16>)| (p.0@, p.1)),
        }
    }
}

impl ResponseStats {
    /// A fresh aggregator: nothing counted yet.
    pub fn new() -> (r: ResponseStats)
        ensures
            r.total == 0 && r.successful == 0 && r.excluded == 0 && r.redirected == 0,
            r@.failures.len() == 0 && r@.errors.len() == 0 && r@.timeouts.len() == 0,
    {
        let r = ResponseStats {
            total: 0,
            successful: 0,
            excluded: 0,
            redirected: 0,
            failures: Vec::new(),
            errors: Vec::new(),
            timeouts: Vec::new(),
        };
        proof {
            assert(r@.failures =~= Seq::<(Seq<char>, u16)>::empty());
            assert(r@.errors =~= Seq::<(Seq<char>, Seq<char>)>::empty());
            assert(r@.timeouts =~= Seq::<(Seq<char>, Option<u16>)>::empty());
        }
        r
    }

    /// Tallies one response: the total rises by one, and exactly the
    /// counter or list of the response's kind takes it.
    pub fn add(&mut self, response: Response)
        requires
            old(self).total < u64::MAX,
            old(self).successful < u64::MAX,
            old(self).excluded < u64::MAX,
            old(self).redirected < u64::MAX,
        ensures
            final(self).total == old(self).total + 1,
            match response.status@ {
                StatusView::Success(_) => final(self)@ == (StatsView {
                    total: final(self).total,
                    successful: (old(self).successful + 1) as u64,
                    ..old(self)@
                }),
                StatusView::Excluded => final(self)@ == (StatsView {
                    total: final(self).total,
                    excluded: (old(self).excluded + 1) as u64,
                    ..old(self)@
                }),
                StatusView::Redirected(_) => final(self)@ == (StatsView {
                    total: final(self).total,
                    redirected: (old(self).redirected + 1) as u64,
                    ..old(self)@
                }),
                StatusView::Failed(c) => final(self)@ == (StatsView {
                    total: final(self).total,
                    failures: old(self)@.failures.push((response.uri@.text(), c)),
                    ..old(self)@
                }),
                StatusView::Error(m) => final(self)@ == (StatsView {
                    total: final(self).total,
                    errors: old(self)@.errors.push((response.uri@.text(), m)),
                    ..old(self)@
                }),
                StatusView::Timeout(c) => final(self)@ == (StatsView {
                    total: final(self).total,
                    timeouts: old(self)@.timeouts.push((response.uri@.text(), c)),
                    ..old(self)@
                }),
            },
    {
        self.total = self.total + 1;
        let uri_text = response.uri.as_str().to_owned();
        match response.status {
            crate::checker::Status::Success(_) => {
                self.successful = self.successful + 1;
            },
            crate::checker::Status::Excluded => {
                self.excluded = self.excluded + 1;
            },
            crate::checker::Status::Redirected(_) => {
                self.redirected = self.redirected + 1;
            },
            crate::checker::Status::Failed(c) => {
                self.failures.push((uri_text, c));
                proof {
                    assert(self@.failures =~= old(self)@.failures.push(
                        (response.uri@.text(), response.status@->Failed_0),
                    ));
                }
            },
            crate::checker::Status::Error(m) => {
                let pair = (uri_text, m);
                self.errors.push(pair);
                proof {
                    assert(self@.errors =~= old(self)@.errors.push(
                        (response.uri@.text(), response.status@->Error_0),
                    ));
                }
            },
            crate::checker::Status::Timeout(c) => {
                self.timeouts.push((uri_text, c));
                proof {
                    assert(self@.timeouts =~= old(self)@.timeouts.push(
                        (response.uri@.text(), response.status@->Timeout_0),
                    ));
                }
            },
        }
    }

    /// Whether the run succeeded: no failures, no errors, no
    /// timeouts.
    pub fn is_success(&self) -> (r: bool)
        ensures
            r == (self@.failures.len() == 0 && self@.errors.len() == 0 && self@.timeouts.len()
                == 0),
    {
        self.failures.len() == 0 && self.errors.len() == 0 && self.timeouts.len() == 0
    }

    /// The process exit status the run's stats decide: zero for
    /// success, two when links failed.
    pub fn exit_code(&self) -> (r: i32)
        ensures
            r == 0 <==> (self@.failures.len() == 0 && self@.errors.len() == 0
                && self@.timeouts.len() == 0),
            r == 0 || r == 2,
    {
        if self.is_success() {
            0
        } else {
            2
        }
    }
}

/// A string's characters with `"` and `\` escaped.
pub open spec fn esc(s: Seq<char>) -> Seq<char>
    decreases s.len(),
{
    if s.len() == 0 {
        Seq::<char>::empty()
    } else {
        (if s[0] == '"' || s[0] == '\\' {
            seq!['\\', s[0]]
        } else {
            seq![s[0]]
        }) + esc(s.skip(1))
    }
}

/// A JSON string: the escaped text in quotes.
pub open spec fn jstr(s: Seq<char>) -> Seq<char> {
    seq!['"'] + esc(s) + seq!['"']
}

/// An optional code: its digits, or `null`.
pub open spec fn jopt_code(c: Option<u16>) -> Seq<char> {
    match c {
        Some(v) => spec_digits_of(v as nat),
        None => "null"@,
    }
}

/// One failed URI as a JSON object of text and code.
pub open spec fn render_failure(it: (Seq<char>, u16)) -> Seq<char> {
    "{\"uri\":"@ + jstr(it.0) + ",\"status_code\":"@ + spec_digits_of(it.1 as nat) + seq!['}']
}

/// One erring URI as a JSON object of text and message.
pub open spec fn render_error(it: (Seq<char>, Seq<char>)) -> Seq<char> {
    "{\"uri\":"@ + jstr(it.0) + ",\"error\":"@ + jstr(it.1) + seq!['}']
}

/// One timed-out URI as a JSON object of text and optional code.
pub open spec fn render_timeout(it: (Seq<char>, Option<u16>)) -> Seq<char> {
    "{\"uri\":"@ + jstr(it.0) + ",\"status_code\":"@ + jopt_code(it.1) + seq!['}']
}

/// The renderings of every failure.
pub open spec fn failure_renders(l: Seq<(Seq<char>, u16)>) -> Seq<Seq<char>> {
    l.map_values(|it: (Seq<char>, u16)| render_failure(it))
}

/// The renderings of every error.
pub open spec fn error_renders(l: Seq<(Seq<char>, Seq<char>)>) -> Seq<Seq<char>> {
    l.map_values(|it: (Seq<char>, Seq<char>)| render_error(it))
}

/// The renderings of every timeout.
pub open spec fn timeout_renders(l: Seq<(Seq<char>, Option<u16>)>) -> Seq<Seq<char>> {
    l.map_values(|it: (Seq<char>, Option<u16>)| render_timeout(it))
}

/// Rendered items joined with commas.
pub open spec fn render_items(rendered: Seq<Seq<char>>) -> Seq<char>
    decreases rendered.len(),
{
    if rendered.len() == 0 {
        Seq::<char>::empty()
    } else if rendered.len() == 1 {
        rendered[0]
    } else {
        rendered[0] + seq![','] + render_items(rendered.skip(1))
    }
}

/// A JSON array of rendered items.
pub open spec fn render_list(rendered: Seq<Seq<char>>) -> Seq<char> {
    seq!['['] + render_items(rendered) + seq![']']
}

/// The JSON form of a stats value: an object with the four counters
/// and the three drill-down arrays, in a fixed key order.
pub open spec fn spec_render_stats(v: StatsView) -> Seq<char> {
    "{\"total\":"@ + spec_digits_of(v.total as nat) + ",\"successful\":"@ + spec_digits_of(
        v.successful as nat,
    ) + ",\"excluded\":"@ + spec_digits_of(v.excluded as nat) + ",\"redirected\":"@
        + spec_digits_of(v.redirected as nat) + ",\"failures\":"@ + render_list(
        failure_renders(v.failures),
    ) + ",\"errors\":"@ + render_list(error_renders(v.errors)) + ",\"timeouts\":"@ + render_list(
        timeout_renders(v.timeouts),
    ) + "}"@
}

/// Appends a string's characters.
fn push_str_chars(out: &mut Vec<char>, s: &str)
    ensures
        final(out)@ == old(out)@ + s@,
{
    let mut cs = chars_of(s);
    out.append(&mut cs);
}

/// The escaped characters of a string.
fn esc_chars(s: &str) -> (r: Vec<char>)
    ensures
        r@ == esc(s@),
{
    let cs = chars_of(s);
    let n = cs.len();
    let mut out: Vec<char> = Vec::new();
    let mut i: usize = 0;
    proof {
        assert(cs@.skip(0) =~= cs@);
    }
    while i < n
        invariant
            n == cs@.len(),
            cs@ == s@,
            i <= n,
            out@ + esc(s@.skip(i as int)) == esc(s@),
        decreases n - i,
    {
        let ghost prev = out@;
        let c = cs[i];
        if c == '"' || c == '\\' {
            out.push('\\');
            out.push(c);
        } else {
            out.push(c);
        }
        proof {
            let tail = s@.skip(i as int);
            assert(tail[0] == s@[i as int]);
            assert(tail.skip(1) =~= s@.skip(i as int + 1));
            assert(esc(tail) == (if tail[0] == '"' || tail[0] == '\\' {
                seq!['\\', tail[0]]
            } else {
                seq![tail[0]]
            }) + esc(tail.skip(1)));
            if c == '"' || c == '\\' {
                assert(out@ =~= prev + seq!['\\', c]);
            } else {
                assert(out@ =~= prev + seq![c]);
            }
            assert(out@ + esc(s@.skip(i as int + 1)) =~= prev + esc(tail));
        }
        i = i + 1;
    }
    proof {
        assert(s@.skip(n as int) =~= Seq::<char>::empty());
        assert(out@ =~= out@ + esc(s@.skip(n as int)));
    }
    out
}

/// The JSON-string characters of a text.
fn jstr_chars(s: &str) -> (r: Vec<char>)
    ensures
        r@ == jstr(s@),
{
    let mut out: Vec<char> = Vec::new();
    out.push('"');
    let mut e = esc_chars(s);
    out.append(&mut e);
    out.push('"');
    proof {
        assert(out@ =~= jstr(s@));
    }
    out
}

/// The JSON characters of one failure.
fn render_failure_chars(uri: &String, code: u16) -> (r: Vec<char>)
    ensures
        r@ == render_failure((uri@, code)),
{
    let mut out: Vec<char> = Vec::new();
    push_str_chars(&mut out, "{\"uri\":");
    let mut q = jstr_chars(uri.as_str());
    out.append(&mut q);
    push_str_chars(&mut out, ",\"status_code\":");
    let mut d = render_u64(code as u64);
    out.append(&mut d);
    out.push('}');
    proof {
        assert(out@ =~= render_failure((uri@, code)));
    }
    out
}

/// The JSON characters of one error.
fn render_error_chars(uri: &String, msg: &String) -> (r: Vec<char>)
    ensures
        r@ == render_error((uri@, msg@)),
{
    let mut out: Vec<char> = Vec::new();
    push_str_chars(&mut out, "{\"uri\":");
    let mut q = jstr_chars(uri.as_str());
    out.append(&mut q);
    push_str_chars(&mut out, ",\"error\":");
    let mut m = jstr_chars(msg.as_str());
    out.append(&mut m);
    out.push('}');
    proof {
        assert(out@ =~= render_error((uri@, msg@)));
    }
    out
}

/// The JSON characters of one timeout.
fn render_timeout_chars(uri: &String, code: &Option<u16>) -> (r: Vec<char>)
    ensures
        r@ == render_timeout((uri@, *code)),
{
    let mut out: Vec<char> = Vec::new();
    push_str_chars(&mut out, "{\"uri\":");
    let mut q = jstr_chars(uri.as_str());
    out.append(&mut q);
    push_str_chars(&mut out, ",\"status_code\":");
    match code {
        Some(c) => {
            let mut d = render_u64(*c as u64);
            out.append(&mut d);
        },
        None => {
            push_str_chars(&mut out, "null");
        },
    }
    out.push('}');
    proof {
        assert(out@ =~= render_timeout((uri@, *code)));
    }
    out
}

fn render_failures_from(l: &Vec<(String, u16)>, idx: usize) -> (r: Vec<char>)
    requires
        idx <= l@.len(),
    ensures
        r@ == render_items(failure_renders(stats_failures_view(l@)).skip(idx as int)),
    decreases l@.len() - idx,
{
    let ghost mapped = failure_renders(stats_failures_view(l@));
    if idx == l.len() {
        proof {
            assert(mapped.skip(idx as int) =~= Seq::<Seq<char>>::empty());
        }
        return Vec::new();
    }
    let pair = &l[idx];
    let mut out = render_failure_chars(&pair.0, pair.1);
    proof {
        assert(mapped.skip(idx as int)[0] == mapped[idx as int]);
        assert(mapped[idx as int] == render_failure((l@[idx as int].0@, l@[idx as int].1)));
    }
    if idx + 1 < l.len() {
        out.push(',');
        let mut rest = render_failures_from(l, idx + 1);
        out.append(&mut rest);
        proof {
            assert(mapped.skip(idx as int).skip(1) =~= mapped.skip(idx as int + 1));
            assert(out@ =~= render_items(mapped.skip(idx as int)));
        }
    } else {
        proof {
            assert(mapped.skip(idx as int).len() == 1);
            assert(out@ =~= render_items(mapped.skip(idx as int)));
        }
    }
    out
}

fn render_errors_from(l: &Vec<(String, String)>, idx: usize) -> (r: Vec<char>)
    requires
        idx <= l@.len(),
    ensures
        r@ == render_items(error_renders(stats_errors_view(l@)).skip(idx as int)),
    decreases l@.len() - idx,
{
    let ghost mapped = error_renders(stats_errors_view(l@));
    if idx == l.len() {
        proof {
            assert(mapped.skip(idx as int) =~= Seq::<Seq<char>>::empty());
        }
        return Vec::new();
    }
    let pair = &l[idx];
    let mut out = render_error_chars(&pair.0, &pair.1);
    proof {
        assert(mapped.skip(idx as int)[0] == mapped[idx as int]);
        assert(mapped[idx as int] == render_error((l@[idx as int].0@, l@[idx as int].1@)));
    }
    if idx + 1 < l.len() {
        out.push(',');
        let mut rest = render_errors_from(l, idx + 1);
        out.append(&mut rest);
        proof {
            assert(mapped.skip(idx as int).skip(1) =~= mapped.skip(idx as int + 1));
            assert(out@ =~= render_items(mapped.skip(idx as int)));
        }
    } else {
        proof {
            assert(mapped.skip(idx as int).len() == 1);
            assert(out@ =~= render_items(mapped.skip(idx as int)));
        }
    }
    out
}

fn render_timeouts_from(l: &Vec<(String, Option<u16>)>, idx: usize) -> (r: Vec<char>)
    requires
        idx <= l@.len(),
    ensures
        r@ == render_items(timeout_renders(stats_timeouts_view(l@)).skip(idx as int)),
    decreases l@.len() - idx,
{
    let ghost mapped = timeout_renders(stats_timeouts_view(l@));
    if idx == l.len() {
        proof {
            assert(mapped.skip(idx as int) =~= Seq::<Seq<char>>::empty());
        }
        return Vec::new();
    }
    let pair = &l[idx];
    let mut out = render_timeout_chars(&pair.0, &pair.1);
    proof {
        assert(mapped.skip(idx as int)[0] == mapped[idx as int]);
        assert(mapped[idx as int] == render_timeout((l@[idx as int].0@, l@[idx as int].1)));
    }
    if idx + 1 < l.len() {
        out.push(',');
        let mut rest = render_timeouts_from(l, idx + 1);
        out.append(&mut rest);
        proof {
            assert(mapped.skip(idx as int).skip(1) =~= mapped.skip(idx as int + 1));
            assert(out@ =~= render_items(mapped.skip(idx as int)));
        }
    } else {
        proof {
            assert(mapped.skip(idx as int).len() == 1);
            assert(out@ =~= render_items(mapped.skip(idx as int)));
        }
    }
    out
}

/// The failure pairs of the exec list, as the view maps them.
pub open spec fn stats_failures_view(l: Seq<(String, u16)>) -> Seq<(Seq<char>, u16)> {
    l.map_values(|p: (String, u16)| (p.0@, p.1))
}

/// The error pairs of the exec list, as the view maps them.
pub open spec fn stats_errors_view(l: Seq<(String, String)>) -> Seq<(Seq<char>, Seq<char>)> {
    l.map_values(|p: (String, String)| (p.0@, p.1@))
}

/// The timeout pairs of the exec list, as the view maps them.
pub open spec fn stats_timeouts_view(l: Seq<(String, Option<u16>)>) -> Seq<
    (Seq<char>, Option<u16>),
> {
    l.map_values(|p: (String, Option<u16>)| (p.0@, p.1))
}

impl ResponseStats {
    /// Writes the stats as JSON text.
    pub fn render_json(&self) -> (r: String)
        ensures
            r@ == spec_render_stats(self@),
    {
        let mut out: Vec<char> = Vec::new();
        push_str_chars(&mut out, "{\"total\":");
        let mut d = render_u64(self.total);
        out.append(&mut d);
        push_str_chars(&mut out, ",\"successful\":");
        let mut d = render_u64(self.successful);
        out.append(&mut d);
        push_str_chars(&mut out, ",\"excluded\":");
        let mut d = render_u64(self.excluded);
        out.append(&mut d);
        push_str_chars(&mut out, ",\"redirected\":");
        let mut d = render_u64(self.redirected);
        out.append(&mut d);
        push_str_chars(&mut out, ",\"failures\":");
        out.push('[');
        let mut items = render_failures_from(&self.failures, 0);
        out.append(&mut items);
        out.push(']');
        push_str_chars(&mut out, ",\"errors\":");
        out.push('[');
        let mut items = render_errors_from(&self.errors, 0);
        out.append(&mut items);
        out.push(']');
        push_str_chars(&mut out, ",\"timeouts\":");
        out.push('[');
        let mut items = render_timeouts_from(&self.timeouts, 0);
        out.append(&mut items);
        out.push(']');
        push_str_chars(&mut out, "}");
        proof {
            assert(failure_renders(stats_failures_view(self.failures@)).skip(0)
                =~= failure_renders(self@.failures));
            assert(error_renders(stats_errors_view(self.errors@)).skip(0) =~= error_renders(
                self@.errors,
            ));
            assert(timeout_renders(stats_timeouts_view(self.timeouts@)).skip(0)
                =~= timeout_renders(self@.timeouts));
            assert(out@ =~= spec_render_stats(self@));
        }
        string_from_chars(&out)
    }
}

/// The rest of `s` after a literal prefix, when `s` begins with it.
pub open spec fn expect(s: Seq<char>, lit: Seq<char>) -> Option<Seq<char>> {
    if lit.len() <= s.len() && s.subrange(0, lit.len() as int) == lit {
        Some(s.skip(lit.len() as int))
    } else {
        None
    }
}

proof fn lemma_expect(lit: Seq<char>, rest: Seq<char>)
    ensures
        expect(lit + rest, lit) == Some(rest),
{
    assert((lit + rest).subrange(0, lit.len() as int) =~= lit);
    assert((lit + rest).skip(lit.len() as int) =~= rest);
}

/// How many digits `s` begins with.
pub open spec fn digit_prefix_len(s: Seq<char>) -> int
    decreases s.len(),
{
    if s.len() > 0 && is_digit(s[0]) {
        1 + digit_prefix_len(s.skip(1))
    } else {
        0
    }
}

/// The number at the head of `s` and what follows it.
pub open spec fn parse_num(s: Seq<char>) -> Option<(nat, Seq<char>)> {
    let n = digit_prefix_len(s);
    if n >= 1 {
        Some((digits_val(s.subrange(0, n)), s.skip(n)))
    } else {
        None
    }
}

proof fn lemma_digit_prefix(a: Seq<char>, b: Seq<char>)
    requires
        all_digits(a),
        b.len() == 0 || !is_digit(b[0]),
    ensures
        digit_prefix_len(a + b) == a.len(),
    decreases a.len(),
{
    if a.len() == 0 {
        assert(a + b =~= b);
    } else {
        assert((a + b)[0] == a[0]);
        assert((a + b).skip(1) =~= a.skip(1) + b);
        assert(all_digits(a.skip(1)));
        lemma_digit_prefix(a.skip(1), b);
    }
}

proof fn lemma_parse_num(v: nat, rest: Seq<char>)
    requires
        rest.len() == 0 || !is_digit(rest[0]),
    ensures
        parse_num(spec_digits_of(v) + rest) == Some((v, rest)),
{
    lemma_digits_roundtrip(v);
    lemma_digit_prefix(spec_digits_of(v), rest);
    let d = spec_digits_of(v);
    assert((d + rest).subrange(0, d.len() as int) =~= d);
    assert((d + rest).skip(d.len() as int) =~= rest);
}

/// The string at the head of `s`, read up to an unescaped quote.
pub open spec fn parse_jstring_body(s: Seq<char>) -> Option<(Seq<char>, Seq<char>)>
    decreases s.len(),
{
    if s.len() == 0 {
        None
    } else if s[0] == '"' {
        Some((Seq::<char>::empty(), s.skip(1)))
    } else if s[0] == '\\' {
        if s.len() >= 2 {
            match parse_jstring_body(s.skip(2)) {
                Some(p) => Some((seq![s[1]] + p.0, p.1)),
                None => None,
            }
        } else {
            None
        }
    } else {
        match parse_jstring_body(s.skip(1)) {
            Some(p) => Some((seq![s[0]] + p.0, p.1)),
            None => None,
        }
    }
}

/// The quoted string at the head of `s` and what follows it.
pub open spec fn parse_jstr(s: Seq<char>) -> Option<(Seq<char>, Seq<char>)> {
    if s.len() >= 1 && s[0] == '"' {
        parse_jstring_body(s.skip(1))
    } else {
        None
    }
}

proof fn lemma_parse_jstring_body(a: Seq<char>, rest: Seq<char>)
    ensures
        parse_jstring_body(esc(a) + seq!['"'] + rest) == Some((a, rest)),
    decreases a.len(),
{
    let s = esc(a) + seq!['"'] + rest;
    if a.len() == 0 {
        assert(s =~= seq!['"'] + rest);
        assert(s[0] == '"');
        assert(s.skip(1) =~= rest);
    } else {
        lemma_parse_jstring_body(a.skip(1), rest);
        if a[0] == '"' || a[0] == '\\' {
            assert(esc(a) =~= seq!['\\', a[0]] + esc(a.skip(1)));
            assert(s[0] == '\\');
            assert(s[1] == a[0]);
            assert(s.len() >= 2);
            assert(s.skip(2) =~= esc(a.skip(1)) + seq!['"'] + rest);
            assert(seq![a[0]] + a.skip(1) =~= a);
        } else {
            assert(esc(a) =~= seq![a[0]] + esc(a.skip(1)));
            assert(s[0] == a[0]);
            assert(s.skip(1) =~= esc(a.skip(1)) + seq!['"'] + rest);
            assert(seq![a[0]] + a.skip(1) =~= a);
        }
    }
}

proof fn lemma_parse_jstr(a: Seq<char>, rest: Seq<char>)
    ensures
        parse_jstr(jstr(a) + rest) == Some((a, rest)),
{
    let s = jstr(a) + rest;
    assert(s[0] == '"');
    assert(s.skip(1) =~= esc(a) + seq!['"'] + rest);
    lemma_parse_jstring_body(a, rest);
}

/// The optional code at the head of `s`: `null` or a code's digits.
pub open spec fn parse_opt_code(s: Seq<char>) -> Option<(Option<u16>, Seq<char>)> {
    match expect(s, "null"@) {
        Some(r) => Some((None, r)),
        None => match parse_num(s) {
            Some((v, rest)) => if v < 65536 {
                Some((Some(v as u16), rest))
            } else {
                None
            },
            None => None,
        },
    }
}

proof fn lemma_parse_opt_code(c: Option<u16>, rest: Seq<char>)
    requires
        rest.len() == 0 || !is_digit(rest[0]),
    ensures
        parse_opt_code(jopt_code(c) + rest) == Some((c, rest)),
{
    reveal_strlit("null");
    match c {
        Some(v) => {
            lemma_digits_roundtrip(v as nat);
            lemma_parse_num(v as nat, rest);
            let s = spec_digits_of(v as nat) + rest;
            assert(s[0] == spec_digits_of(v as nat)[0]);
            assert(is_digit(s[0]));
            assert(expect(s, "null"@) is None) by {
                if "null"@.len() <= s.len() && s.subrange(0, "null"@.len() as int) == "null"@ {
                    assert(s.subrange(0, 4)[0] == 'n');
                }
            }
        },
        None => {
            lemma_expect("null"@, rest);
        },
    }
}

/// One failure object at the head of `s`.
pub open spec fn parse_failure_item(s: Seq<char>) -> Option<((Seq<char>, u16), Seq<char>)> {
    match expect(s, "{\"uri\":"@) {
        Some(r0) => match parse_jstr(r0) {
            Some((uri, r1)) => match expect(r1, ",\"status_code\":"@) {
                Some(r2) => match parse_num(r2) {
                    Some((v, r3)) => if v < 65536 && r3.len() >= 1 && r3[0] == '}' {
                        Some(((uri, v as u16), r3.skip(1)))
                    } else {
                        None
                    },
                    None => None,
                },
                None => None,
            },
            None => None,
        },
        None => None,
    }
}

proof fn lemma_parse_failure_item(it: (Seq<char>, u16), rest: Seq<char>)
    ensures
        parse_failure_item(render_failure(it) + rest) == Some((it, rest)),
{
    let s = render_failure(it) + rest;
    let digits = spec_digits_of(it.1 as nat);
    assert(s =~= "{\"uri\":"@ + (jstr(it.0) + (",\"status_code\":"@ + digits + seq!['}']
        + rest)));
    lemma_expect("{\"uri\":"@, jstr(it.0) + (",\"status_code\":"@ + digits + seq!['}'] + rest));
    lemma_parse_jstr(it.0, ",\"status_code\":"@ + digits + seq!['}'] + rest);
    let r1 = ",\"status_code\":"@ + digits + seq!['}'] + rest;
    assert(r1 =~= ",\"status_code\":"@ + (digits + (seq!['}'] + rest)));
    lemma_expect(",\"status_code\":"@, digits + (seq!['}'] + rest));
    lemma_parse_num(it.1 as nat, seq!['}'] + rest);
    assert(digits + (seq!['}'] + rest) =~= spec_digits_of(it.1 as nat) + (seq!['}'] + rest));
    let r3 = seq!['}'] + rest;
    assert(r3[0] == '}');
    assert(r3.skip(1) =~= rest);
}

/// One error object at the head of `s`.
pub open spec fn parse_error_item(s: Seq<char>) -> Option<((Seq<char>, Seq<char>), Seq<char>)> {
    match expect(s, "{\"uri\":"@) {
        Some(r0) => match parse_jstr(r0) {
            Some((uri, r1)) => match expect(r1, ",\"error\":"@) {
                Some(r2) => match parse_jstr(r2) {
                    Some((msg, r3)) => if r3.len() >= 1 && r3[0] == '}' {
                        Some(((uri, msg), r3.skip(1)))
                    } else {
                        None
                    },
                    None => None,
                },
                None => None,
            },
            None => None,
        },
        None => None,
    }
}

proof fn lemma_parse_error_item(it: (Seq<char>, Seq<char>), rest: Seq<char>)
    ensures
        parse_error_item(render_error(it) + rest) == Some((it, rest)),
{
    let s = render_error(it) + rest;
    assert(s =~= "{\"uri\":"@ + (jstr(it.0) + (",\"error\":"@ + jstr(it.1) + seq!['}'] + rest)));
    lemma_expect("{\"uri\":"@, jstr(it.0) + (",\"error\":"@ + jstr(it.1) + seq!['}'] + rest));
    lemma_parse_jstr(it.0, ",\"error\":"@ + jstr(it.1) + seq!['}'] + rest);
    let r1 = ",\"error\":"@ + jstr(it.1) + seq!['}'] + rest;
    assert(r1 =~= ",\"error\":"@ + (jstr(it.1) + (seq!['}'] + rest)));
    lemma_expect(",\"error\":"@, jstr(it.1) + (seq!['}'] + rest));
    lemma_parse_jstr(it.1, seq!['}'] + rest);
    let r3 = seq!['}'] + rest;
    assert(r3[0] == '}');
    assert(r3.skip(1) =~= rest);
}

/// One timeout object at the head of `s`.
pub open spec fn parse_timeout_item(s: Seq<char>) -> Option<((Seq<char>, Option<u16>), Seq<char>)> {
    match expect(s, "{\"uri\":"@) {
        Some(r0) => match parse_jstr(r0) {
            Some((uri, r1)) => match expect(r1, ",\"status_code\":"@) {
                Some(r2) => match parse_opt_code(r2) {
                    Some((c, r3)) => if r3.len() >= 1 && r3[0] == '}' {
                        Some(((uri, c), r3.skip(1)))
                    } else {
                        None
                    },
                    None => None,
                },
                None => None,
            },
            None => None,
        },
        None => None,
    }
}

proof fn lemma_parse_timeout_item(it: (Seq<char>, Option<u16>), rest: Seq<char>)
    ensures
        parse_timeout_item(render_timeout(it) + rest) == Some((it, rest)),
{
    let s = render_timeout(it) + rest;
    assert(s =~= "{\"uri\":"@ + (jstr(it.0) + (",\"status_code\":"@ + jopt_code(it.1)
        + seq!['}'] + rest)));
    lemma_expect(
        "{\"uri\":"@,
        jstr(it.0) + (",\"status_code\":"@ + jopt_code(it.1) + seq!['}'] + rest),
    );
    lemma_parse_jstr(it.0, ",\"status_code\":"@ + jopt_code(it.1) + seq!['}'] + rest);
    let r1 = ",\"status_code\":"@ + jopt_code(it.1) + seq!['}'] + rest;
    assert(r1 =~= ",\"status_code\":"@ + (jopt_code(it.1) + (seq!['}'] + rest)));
    lemma_expect(",\"status_code\":"@, jopt_code(it.1) + (seq!['}'] + rest));
    lemma_parse_opt_code(it.1, seq!['}'] + rest);
    let r3 = seq!['}'] + rest;
    assert(r3[0] == '}');
    assert(r3.skip(1) =~= rest);
}

/// The failure pairs at the head of `s`, read until the closing
/// bracket; `fuel` bounds the recursion.
pub open spec fn parse_failures_items(s: Seq<char>, fuel: nat) -> Option<
    (Seq<(Seq<char>, u16)>, Seq<char>),
>
    decreases fuel,
{
    match parse_failure_item(s) {
        Some((it, rest)) => if rest.len() >= 1 && rest[0] == ',' {
            if fuel > 0 {
                match parse_failures_items(rest.skip(1), (fuel - 1) as nat) {
                    Some((items, r2)) => Some((seq![it] + items, r2)),
                    None => None,
                }
            } else {
                None
            }
        } else if rest.len() >= 1 && rest[0] == ']' {
            Some((seq![it], rest.skip(1)))
        } else {
            None
        },
        None => None,
    }
}

/// The error pairs at the head of `s`.
pub open spec fn parse_errors_items(s: Seq<char>, fuel: nat) -> Option<
    (Seq<(Seq<char>, Seq<char>)>, Seq<char>),
>
    decreases fuel,
{
    match parse_error_item(s) {
        Some((it, rest)) => if rest.len() >= 1 && rest[0] == ',' {
            if fuel > 0 {
                match parse_errors_items(rest.skip(1), (fuel - 1) as nat) {
                    Some((items, r2)) => Some((seq![it] + items, r2)),
                    None => None,
                }
            } else {
                None
            }
        } else if rest.len() >= 1 && rest[0] == ']' {
            Some((seq![it], rest.skip(1)))
        } else {
            None
        },
        None => None,
    }
}

/// The timeout pairs at the head of `s`.
pub open spec fn parse_timeouts_items(s: Seq<char>, fuel: nat) -> Option<
    (Seq<(Seq<char>, Option<u16>)>, Seq<char>),
>
    decreases fuel,
{
    match parse_timeout_item(s) {
        Some((it, rest)) => if rest.len() >= 1 && rest[0] == ',' {
            if fuel > 0 {
                match parse_timeouts_items(rest.skip(1), (fuel - 1) as nat) {
                    Some((items, r2)) => Some((seq![it] + items, r2)),
                    None => None,
                }
            } else {
                None
            }
        } else if rest.len() >= 1 && rest[0] == ']' {
            Some((seq![it], rest.skip(1)))
        } else {
            None
        },
        None => None,
    }
}

/// The failure array at the head of `s`.
pub open spec fn parse_failures_list(s: Seq<char>) -> Option<(Seq<(Seq<char>, u16)>, Seq<char>)> {
    if s.len() >= 1 && s[0] == '[' {
        let t = s.skip(1);
        if t.len() >= 1 && t[0] == ']' {
            Some((Seq::<(Seq<char>, u16)>::empty(), t.skip(1)))
        } else {
            parse_failures_items(t, t.len() as nat)
        }
    } else {
        None
    }
}

/// The error array at the head of `s`.
pub open spec fn parse_errors_list(s: Seq<char>) -> Option<
    (Seq<(Seq<char>, Seq<char>)>, Seq<char>),
> {
    if s.len() >= 1 && s[0] == '[' {
        let t = s.skip(1);
        if t.len() >= 1 && t[0] == ']' {
            Some((Seq::<(Seq<char>, Seq<char>)>::empty(), t.skip(1)))
        } else {
            parse_errors_items(t, t.len() as nat)
        }
    } else {
        None
    }
}

/// The timeout array at the head of `s`.
pub open spec fn parse_timeouts_list(s: Seq<char>) -> Option<
    (Seq<(Seq<char>, Option<u16>)>, Seq<char>),
> {
    if s.len() >= 1 && s[0] == '[' {
        let t = s.skip(1);
        if t.len() >= 1 && t[0] == ']' {
            Some((Seq::<(Seq<char>, Option<u16>)>::empty(), t.skip(1)))
        } else {
            parse_timeouts_items(t, t.len() as nat)
        }
    } else {
        None
    }
}

proof fn lemma_render_items_len(rendered: Seq<Seq<char>>)
    requires
        forall|i: int| 0 <= i < rendered.len() ==> (#[trigger] rendered[i]).len() >= 1,
    ensures
        render_items(rendered).len() >= rendered.len(),
    decreases rendered.len(),
{
    if rendered.len() > 1 {
        assert forall|i: int| 0 <= i < rendered.skip(1).len() implies (#[trigger] rendered.skip(1)[i]).len()
            >= 1 by {
            assert(rendered.skip(1)[i] == rendered[i + 1]);
        }
        lemma_render_items_len(rendered.skip(1));
    }
}

proof fn lemma_failures_items_roundtrip(items: Seq<(Seq<char>, u16)>, tail: Seq<char>, fuel: nat)
    requires
        items.len() >= 1,
        fuel >= items.len(),
        tail.len() >= 1,
        tail[0] == ']',
    ensures
        parse_failures_items(render_items(failure_renders(items)) + tail, fuel) == Some(
            (items, tail.skip(1)),
        ),
    decreases items.len(),
{
    let rendered = failure_renders(items);
    if items.len() == 1 {
        assert(render_items(rendered) == rendered[0]);
        lemma_parse_failure_item(items[0], tail);
        assert(rendered[0] + tail =~= render_failure(items[0]) + tail);
        assert(seq![items[0]] =~= items);
    } else {
        let s = render_items(rendered) + tail;
        let after = seq![','] + render_items(rendered.skip(1)) + tail;
        assert(s =~= render_failure(items[0]) + after);
        lemma_parse_failure_item(items[0], after);
        assert(after[0] == ',');
        assert(failure_renders(items.skip(1)) =~= rendered.skip(1));
        assert(after.skip(1) =~= render_items(failure_renders(items.skip(1))) + tail);
        lemma_failures_items_roundtrip(items.skip(1), tail, (fuel - 1) as nat);
        assert(seq![items[0]] + items.skip(1) =~= items);
    }
}

proof fn lemma_errors_items_roundtrip(
    items: Seq<(Seq<char>, Seq<char>)>,
    tail: Seq<char>,
    fuel: nat,
)
    requires
        items.len() >= 1,
        fuel >= items.len(),
        tail.len() >= 1,
        tail[0] == ']',
    ensures
        parse_errors_items(render_items(error_renders(items)) + tail, fuel) == Some(
            (items, tail.skip(1)),
        ),
    decreases items.len(),
{
    let rendered = error_renders(items);
    if items.len() == 1 {
        assert(render_items(rendered) == rendered[0]);
        lemma_parse_error_item(items[0], tail);
        assert(rendered[0] + tail =~= render_error(items[0]) + tail);
        assert(seq![items[0]] =~= items);
    } else {
        let s = render_items(rendered) + tail;
        let after = seq![','] + render_items(rendered.skip(1)) + tail;
        assert(s =~= render_error(items[0]) + after);
        lemma_parse_error_item(items[0], after);
        assert(after[0] == ',');
        assert(error_renders(items.skip(1)) =~= rendered.skip(1));
        assert(after.skip(1) =~= render_items(error_renders(items.skip(1))) + tail);
        lemma_errors_items_roundtrip(items.skip(1), tail, (fuel - 1) as nat);
        assert(seq![items[0]] + items.skip(1) =~= items);
    }
}

proof fn lemma_timeouts_items_roundtrip(
    items: Seq<(Seq<char>, Option<u16>)>,
    tail: Seq<char>,
    fuel: nat,
)
    requires
        items.len() >= 1,
        fuel >= items.len(),
        tail.len() >= 1,
        tail[0] == ']',
    ensures
        parse_timeouts_items(render_items(timeout_renders(items)) + tail, fuel) == Some(
            (items, tail.skip(1)),
        ),
    decreases items.len(),
{
    let rendered = timeout_renders(items);
    if items.len() == 1 {
        assert(render_items(rendered) == rendered[0]);
        lemma_parse_timeout_item(items[0], tail);
        assert(rendered[0] + tail =~= render_timeout(items[0]) + tail);
        assert(seq![items[0]] =~= items);
    } else {
        let s = render_items(rendered) + tail;
        let after = seq![','] + render_items(rendered.skip(1)) + tail;
        assert(s =~= render_timeout(items[0]) + after);
        lemma_parse_timeout_item(items[0], after);
        assert(after[0] == ',');
        assert(timeout_renders(items.skip(1)) =~= rendered.skip(1));
        assert(after.skip(1) =~= render_items(timeout_renders(items.skip(1))) + tail);
        lemma_timeouts_items_roundtrip(items.skip(1), tail, (fuel - 1) as nat);
        assert(seq![items[0]] + items.skip(1) =~= items);
    }
}

proof fn lemma_failures_list_roundtrip(items: Seq<(Seq<char>, u16)>, rest: Seq<char>)
    ensures
        parse_failures_list(render_list(failure_renders(items)) + rest) == Some((items, rest)),
{
    let rendered = failure_renders(items);
    let s = render_list(rendered) + rest;
    assert(s[0] == '[');
    let t = s.skip(1);
    assert(t =~= render_items(rendered) + (seq![']'] + rest));
    if items.len() == 0 {
        assert(render_items(rendered) =~= Seq::<char>::empty());
        assert(t =~= seq![']'] + rest);
        assert(t[0] == ']');
        assert(t.skip(1) =~= rest);
        assert(items =~= Seq::<(Seq<char>, u16)>::empty());
    } else {
        assert(rendered[0] == render_failure(items[0]));
        assert(rendered[0][0] == '{') by {
            reveal_strlit("{\"uri\":");
        }
        assert(render_items(rendered)[0] == rendered[0][0]) by {
            if rendered.len() == 1 {
            } else {
                assert(render_items(rendered) == rendered[0] + seq![','] + render_items(
                    rendered.skip(1),
                ));
            }
        }
        assert(t[0] == '{');
        assert forall|i: int| 0 <= i < rendered.len() implies (#[trigger] rendered[i]).len()
            >= 1 by {
            assert(rendered[i] == render_failure(items[i]));
        }
        lemma_render_items_len(rendered);
        assert(t.len() >= items.len() + 1);
        lemma_failures_items_roundtrip(items, seq![']'] + rest, t.len() as nat);
        assert((seq![']'] + rest).skip(1) =~= rest);
    }
}

proof fn lemma_errors_list_roundtrip(items: Seq<(Seq<char>, Seq<char>)>, rest: Seq<char>)
    ensures
        parse_errors_list(render_list(error_renders(items)) + rest) == Some((items, rest)),
{
    let rendered = error_renders(items);
    let s = render_list(rendered) + rest;
    assert(s[0] == '[');
    let t = s.skip(1);
    assert(t =~= render_items(rendered) + (seq![']'] + rest));
    if items.len() == 0 {
        assert(render_items(rendered) =~= Seq::<char>::empty());
        assert(t =~= seq![']'] + rest);
        assert(t[0] == ']');
        assert(t.skip(1) =~= rest);
        assert(items =~= Seq::<(Seq<char>, Seq<char>)>::empty());
    } else {
        assert(rendered[0] == render_error(items[0]));
        assert(rendered[0][0] == '{') by {
            reveal_strlit("{\"uri\":");
        }
        assert(render_items(rendered)[0] == rendered[0][0]) by {
            if rendered.len() == 1 {
            } else {
                assert(render_items(rendered) == rendered[0] + seq![','] + render_items(
                    rendered.skip(1),
                ));
            }
        }
        assert(t[0] == '{');
        assert forall|i: int| 0 <= i < rendered.len() implies (#[trigger] rendered[i]).len()
            >= 1 by {
            assert(rendered[i] == render_error(items[i]));
        }
        lemma_render_items_len(rendered);
        assert(t.len() >= items.len() + 1);
        lemma_errors_items_roundtrip(items, seq![']'] + rest, t.len() as nat);
        assert((seq![']'] + rest).skip(1) =~= rest);
    }
}

proof fn lemma_timeouts_list_roundtrip(items: Seq<(Seq<char>, Option<u16>)>, rest: Seq<char>)
    ensures
        parse_timeouts_list(render_list(timeout_renders(items)) + rest) == Some((items, rest)),
{
    let rendered = timeout_renders(items);
    let s = render_list(rendered) + rest;
    assert(s[0] == '[');
    let t = s.skip(1);
    assert(t =~= render_items(rendered) + (seq![']'] + rest));
    if items.len() == 0 {
        assert(render_items(rendered) =~= Seq::<char>::empty());
        assert(t =~= seq![']'] + rest);
        assert(t[0] == ']');
        assert(t.skip(1) =~= rest);
        assert(items =~= Seq::<(Seq<char>, Option<u16>)>::empty());
    } else {
        assert(rendered[0] == render_timeout(items[0]));
        assert(rendered[0][0] == '{') by {
            reveal_strlit("{\"uri\":");
        }
        assert(render_items(rendered)[0] == rendered[0][0]) by {
            if rendered.len() == 1 {
            } else {
                assert(render_items(rendered) == rendered[0] + seq![','] + render_items(
                    rendered.skip(1),
                ));
            }
        }
        assert(t[0] == '{');
        assert forall|i: int| 0 <= i < rendered.len() implies (#[trigger] rendered[i]).len()
            >= 1 by {
            assert(rendered[i] == render_timeout(items[i]));
        }
        lemma_render_items_len(rendered);
        assert(t.len() >= items.len() + 1);
        lemma_timeouts_items_roundtrip(items, seq![']'] + rest, t.len() as nat);
        assert((seq![']'] + rest).skip(1) =~= rest);
    }
}

/// A labelled counter at the head of `s`: the label, then a number
/// that fits an unsigned 64-bit value.
pub open spec fn parse_counter(s: Seq<char>, lit: Seq<char>) -> Option<(u64, Seq<char>)> {
    match expect(s, lit) {
        Some(r) => match parse_num(r) {
            Some((v, r2)) => if v <= u64::MAX {
                Some((v as u64, r2))
            } else {
                None
            },
            None => None,
        },
        None => None,
    }
}

proof fn lemma_parse_counter(lit: Seq<char>, v: u64, rest: Seq<char>)
    requires
        rest.len() == 0 || !is_digit(rest[0]),
    ensures
        parse_counter(lit + spec_digits_of(v as nat) + rest, lit) == Some((v, rest)),
{
    let s = lit + spec_digits_of(v as nat) + rest;
    assert(s =~= lit + (spec_digits_of(v as nat) + rest));
    lemma_expect(lit, spec_digits_of(v as nat) + rest);
    lemma_parse_num(v as nat, rest);
}

/// The stats value that a complete JSON text denotes, when it is
/// exactly the writer's rendering shape.
pub open spec fn parse_stats_text(s: Seq<char>) -> Option<StatsView> {
    match parse_counter(s, "{\"total\":"@) {
        Some((total, r)) => match parse_counter(r, ",\"successful\":"@) {
            Some((successful, r)) => match parse_counter(r, ",\"excluded\":"@) {
                Some((excluded, r)) => match parse_counter(r, ",\"redirected\":"@) {
                    Some((redirected, r)) => match expect(r, ",\"failures\":"@) {
                        Some(r) => match parse_failures_list(r) {
                            Some((failures, r)) => match expect(r, ",\"errors\":"@) {
                                Some(r) => match parse_errors_list(r) {
                                    Some((errors, r)) => match expect(r, ",\"timeouts\":"@) {
                                        Some(r) => match parse_timeouts_list(r) {
                                            Some((timeouts, r)) => match expect(r, "}"@) {
                                                Some(r) => if r.len() == 0 {
                                                    Some(
                                                        StatsView {
                                                            total,
                                                            successful,
                                                            excluded,
                                                            redirected,
                                                            failures,
                                                            errors,
                                                            timeouts,
                                                        },
                                                    )
                                                } else {
                                                    None
                                                },
                                                None => None,
                                            },
                                            None => None,
                                        },
                                        None => None,
                                    },
                                    None => None,
                                },
                                None => None,
                            },
                            None => None,
                        },
                        None => None,
                    },
                    None => None,
                },
                None => None,
            },
            None => None,
        },
        None => None,
    }
}

/// Law: writing a stats value as JSON and reading the text back
/// yields the same logical stats.
#[verifier::rlimit(100)]
pub proof fn lemma_stats_json_roundtrip(v: StatsView)
    ensures
        parse_stats_text(spec_render_stats(v)) == Some(v),
{
    reveal_strlit(",\"successful\":");
    reveal_strlit(",\"excluded\":");
    reveal_strlit(",\"redirected\":");
    reveal_strlit(",\"failures\":");
    reveal_strlit(",\"errors\":");
    reveal_strlit(",\"timeouts\":");
    reveal_strlit("}");
    let s = spec_render_stats(v);
    let r7: Seq<char> = "}"@;
    let r6: Seq<char> = ",\"timeouts\":"@ + render_list(timeout_renders(v.timeouts)) + r7;
    let r5: Seq<char> = ",\"errors\":"@ + render_list(error_renders(v.errors)) + r6;
    let r4: Seq<char> = ",\"failures\":"@ + render_list(failure_renders(v.failures)) + r5;
    let r3: Seq<char> = ",\"redirected\":"@ + spec_digits_of(v.redirected as nat) + r4;
    let r2: Seq<char> = ",\"excluded\":"@ + spec_digits_of(v.excluded as nat) + r3;
    let r1: Seq<char> = ",\"successful\":"@ + spec_digits_of(v.successful as nat) + r2;
    assert(s =~= "{\"total\":"@ + spec_digits_of(v.total as nat) + r1);
    assert(r1[0] == ',' && !is_digit(r1[0]));
    lemma_parse_counter("{\"total\":"@, v.total, r1);
    assert(r2[0] == ',' && !is_digit(r2[0]));
    assert(r1 =~= ",\"successful\":"@ + spec_digits_of(v.successful as nat) + r2);
    lemma_parse_counter(",\"successful\":"@, v.successful, r2);
    assert(r3[0] == ',' && !is_digit(r3[0]));
    assert(r2 =~= ",\"excluded\":"@ + spec_digits_of(v.excluded as nat) + r3);
    lemma_parse_counter(",\"excluded\":"@, v.excluded, r3);
    assert(r4[0] == ',' && !is_digit(r4[0]));
    assert(r3 =~= ",\"redirected\":"@ + spec_digits_of(v.redirected as nat) + r4);
    lemma_parse_counter(",\"redirected\":"@, v.redirected, r4);
    assert(r4 =~= ",\"failures\":"@ + (render_list(failure_renders(v.failures)) + r5));
    lemma_expect(",\"failures\":"@, render_list(failure_renders(v.failures)) + r5);
    lemma_failures_list_roundtrip(v.failures, r5);
    assert(r5 =~= ",\"errors\":"@ + (render_list(error_renders(v.errors)) + r6));
    lemma_expect(",\"errors\":"@, render_list(error_renders(v.errors)) + r6);
    lemma_errors_list_roundtrip(v.errors, r6);
    assert(r6 =~= ",\"timeouts\":"@ + (render_list(timeout_renders(v.timeouts)) + r7));
    lemma_expect(",\"timeouts\":"@, render_list(timeout_renders(v.timeouts)) + r7);
    lemma_timeouts_list_roundtrip(v.timeouts, r7);
    assert(r7 =~= "}"@ + Seq::<char>::empty());
    lemma_expect("}"@, Seq::<char>::empty());
}

proof fn lemma_dpl_range(s: Seq<char>)
    ensures
        0 <= digit_prefix_len(s) <= s.len(),
    decreases s.len(),
{
    if s.len() > 0 && is_digit(s[0]) {
        lemma_dpl_range(s.skip(1));
    }
}

proof fn lemma_jstring_body_consumes(s: Seq<char>)
    ensures
        match parse_jstring_body(s) {
            Some(p) => p.1.len() < s.len(),
            None => true,
        },
    decreases s.len(),
{
    if s.len() == 0 {
    } else if s[0] == '"' {
    } else if s[0] == '\\' {
        if s.len() >= 2 {
            lemma_jstring_body_consumes(s.skip(2));
        }
    } else {
        lemma_jstring_body_consumes(s.skip(1));
    }
}

proof fn lemma_failure_item_consumes(s: Seq<char>)
    ensures
        match parse_failure_item(s) {
            Some(p) => p.1.len() < s.len(),
            None => true,
        },
{
    match expect(s, "{\"uri\":"@) {
        Some(r0) => {
            if r0.len() >= 1 && r0[0] == '"' {
                lemma_jstring_body_consumes(r0.skip(1));
            }
            match parse_jstr(r0) {
                Some((_uri, r1)) => match expect(r1, ",\"status_code\":"@) {
                    Some(r2) => {
                        lemma_dpl_range(r2);
                    },
                    None => {},
                },
                None => {},
            }
        },
        None => {},
    }
}

proof fn lemma_error_item_consumes(s: Seq<char>)
    ensures
        match parse_error_item(s) {
            Some(p) => p.1.len() < s.len(),
            None => true,
        },
{
    match expect(s, "{\"uri\":"@) {
        Some(r0) => {
            if r0.len() >= 1 && r0[0] == '"' {
                lemma_jstring_body_consumes(r0.skip(1));
            }
            match parse_jstr(r0) {
                Some((_uri, r1)) => match expect(r1, ",\"error\":"@) {
                    Some(r2) => {
                        if r2.len() >= 1 && r2[0] == '"' {
                            lemma_jstring_body_consumes(r2.skip(1));
                        }
                    },
                    None => {},
                },
                None => {},
            }
        },
        None => {},
    }
}

proof fn lemma_timeout_item_consumes(s: Seq<char>)
    ensures
        match parse_timeout_item(s) {
            Some(p) => p.1.len() < s.len(),
            None => true,
        },
{
    match expect(s, "{\"uri\":"@) {
        Some(r0) => {
            if r0.len() >= 1 && r0[0] == '"' {
                lemma_jstring_body_consumes(r0.skip(1));
            }
            match parse_jstr(r0) {
                Some((_uri, r1)) => match expect(r1, ",\"status_code\":"@) {
                    Some(r2) => {
                        lemma_dpl_range(r2);
                    },
                    None => {},
                },
                None => {},
            }
        },
        None => {},
    }
}

/// The rest of the text after a literal prefix, when it begins with it.
fn ex_expect(v: &Vec<char>, lit: &str) -> (r: Option<Vec<char>>)
    ensures
        match expect(v@, lit@) {
            Some(rest) => r is Some && r.unwrap()@ == rest,
            None => r is None,
        },
{
    if starts_with(v, lit) {
        let n = lit.unicode_len();
        proof {
            assert(v@.skip(lit@.len() as int) =~= v@.subrange(lit@.len() as int, v@.len() as int));
        }
        Some(subrange_chars(v, n, v.len()))
    } else {
        None
    }
}

/// The number at the head of the text, when it fits an unsigned
/// 64-bit value.
fn ex_parse_num(v: &Vec<char>) -> (r: Option<(u64, Vec<char>)>)
    ensures
        match parse_num(v@) {
            Some(p) => if p.0 <= u64::MAX {
                r is Some && (r.unwrap().0 as nat) == p.0 && r.unwrap().1@ == p.1
            } else {
                r is None
            },
            None => r is None,
        },
{
    let n = v.len();
    let mut i: usize = 0;
    proof {
        assert(v@.skip(0) =~= v@);
    }
    while i < n
        invariant
            n == v@.len(),
            i <= n,
            digit_prefix_len(v@) == i + digit_prefix_len(v@.skip(i as int)),
            all_digits(v@.subrange(0, i as int)),
        ensures
            i <= n,
            n == v@.len(),
            all_digits(v@.subrange(0, i as int)),
            digit_prefix_len(v@) == i as int,
        decreases n - i,
    {
        let c = v[i];
        let ghost t = v@.skip(i as int);
        proof {
            assert(t[0] == c);
        }
        if !('0' <= c && c <= '9') {
            proof {
                assert(digit_prefix_len(t) == 0);
            }
            break ;
        }
        proof {
            assert(t.skip(1) =~= v@.skip(i as int + 1));
            assert(digit_prefix_len(t) == 1 + digit_prefix_len(t.skip(1)));
            assert forall|j: int|
                0 <= j < i + 1 implies is_digit(#[trigger] v@.subrange(0, i as int + 1)[j]) by {
                if j < i {
                    assert(v@.subrange(0, i as int)[j] == v@[j]);
                }
            }
        }
        i = i + 1;
    }
    proof {
        if i == n {
            assert(v@.skip(n as int).len() == 0);
        }
    }
    if i == 0 {
        return None;
    }
    let piece = subrange_chars(v, 0, i);
    let rest = subrange_chars(v, i, n);
    proof {
        assert(rest@ =~= v@.skip(i as int));
    }
    match parse_u64(&piece) {
        Some(val) => Some((val, rest)),
        None => {
            proof {
                assert(piece@.len() > 0 && all_digits(piece@));
                assert(digits_val(piece@) > u64::MAX);
            }
            None
        },
    }
}

/// The string body at the head of the text, read to an unescaped
/// quote.
fn ex_parse_jstring_body(v: &Vec<char>) -> (r: Option<(String, Vec<char>)>)
    ensures
        match parse_jstring_body(v@) {
            Some(p) => r is Some && r.unwrap().0@ == p.0 && r.unwrap().1@ == p.1,
            None => r is None,
        },
{
    let n = v.len();
    let mut acc: Vec<char> = Vec::new();
    let mut i: usize = 0;
    proof {
        assert(v@.skip(0) =~= v@);
        match parse_jstring_body(v@) {
            Some(p) => {
                assert(Seq::<char>::empty() + p.0 =~= p.0);
            },
            None => {},
        }
    }
    while i < n
        invariant
            n == v@.len(),
            i <= n,
            (match parse_jstring_body(v@.skip(i as int)) {
                Some(p) => parse_jstring_body(v@) == Some((acc@ + p.0, p.1)),
                None => parse_jstring_body(v@) is None,
            }),
        decreases n - i,
    {
        let c = v[i];
        let ghost t = v@.skip(i as int);
        proof {
            assert(t[0] == c);
        }
        if c == '"' {
            proof {
                assert(t.skip(1) =~= v@.skip(i as int + 1));
                assert(parse_jstring_body(t) == Some((Seq::<char>::empty(), t.skip(1))));
                assert(acc@ + Seq::<char>::empty() =~= acc@);
            }
            let rest = subrange_chars(v, i + 1, n);
            proof {
                assert(rest@ =~= t.skip(1));
            }
            return Some((string_from_chars(&acc), rest));
        }
        if c == '\\' {
            if i + 1 >= n {
                proof {
                    assert(t.len() == 1);
                }
                return None;
            }
            let d = v[i + 1];
            proof {
                assert(t[1] == d);
                assert(t.skip(2) =~= v@.skip(i as int + 2));
                match parse_jstring_body(v@.skip(i as int + 2)) {
                    Some(q) => {
                        assert(parse_jstring_body(t) == Some((seq![d] + q.0, q.1)));
                        assert(acc@ + (seq![d] + q.0) =~= acc@.push(d) + q.0);
                    },
                    None => {},
                }
            }
            acc.push(d);
            i = i + 2;
        } else {
            proof {
                assert(t.skip(1) =~= v@.skip(i as int + 1));
                match parse_jstring_body(v@.skip(i as int + 1)) {
                    Some(q) => {
                        assert(parse_jstring_body(t) == Some((seq![c] + q.0, q.1)));
                        assert(acc@ + (seq![c] + q.0) =~= acc@.push(c) + q.0);
                    },
                    None => {},
                }
            }
            acc.push(c);
            i = i + 1;
        }
    }
    proof {
        assert(v@.skip(i as int).len() == 0);
    }
    None
}

/// The quoted string at the head of the text.
fn ex_parse_jstr(v: &Vec<char>) -> (r: Option<(String, Vec<char>)>)
    ensures
        match parse_jstr(v@) {
            Some(p) => r is Some && r.unwrap().0@ == p.0 && r.unwrap().1@ == p.1,
            None => r is None,
        },
{
    if v.len() >= 1 {
        if v[0] == '"' {
            let inner = subrange_chars(v, 1, v.len());
            proof {
                assert(inner@ =~= v@.skip(1));
            }
            return ex_parse_jstring_body(&inner);
        }
    }
    None
}

/// The optional code at the head of the text.
fn ex_parse_opt_code(v: &Vec<char>) -> (r: Option<(Option<u16>, Vec<char>)>)
    ensures
        match parse_opt_code(v@) {
            Some(p) => r is Some && r.unwrap().0 == p.0 && r.unwrap().1@ == p.1,
            None => r is None,
        },
{
    match ex_expect(v, "null") {
        Some(rest) => Some((None, rest)),
        None => match ex_parse_num(v) {
            Some((n, rest)) => {
                if n < 65536 {
                    Some((Some(n as u16), rest))
                } else {
                    None
                }
            },
            None => None,
        },
    }
}

/// One failure object at the head of the text.
fn ex_parse_failure_item(v: &Vec<char>) -> (r: Option<((String, u16), Vec<char>)>)
    ensures
        match parse_failure_item(v@) {
            Some(p) => r is Some && (r.unwrap().0).0@ == (p.0).0 && (r.unwrap().0).1 == (p.0).1
                && r.unwrap().1@ == p.1,
            None => r is None,
        },
{
    let r0 = match ex_expect(v, "{\"uri\":") {
        Some(x) => x,
        None => {
            return None;
        },
    };
    let (uri, r1) = match ex_parse_jstr(&r0) {
        Some(x) => x,
        None => {
            return None;
        },
    };
    let r2 = match ex_expect(&r1, ",\"status_code\":") {
        Some(x) => x,
        None => {
            return None;
        },
    };
    let (val, r3) = match ex_parse_num(&r2) {
        Some(x) => x,
        None => {
            return None;
        },
    };
    if val >= 65536 {
        return None;
    }
    if r3.len() >= 1 {
        if r3[0] == '}' {
            let rest = subrange_chars(&r3, 1, r3.len());
            proof {
                assert(rest@ =~= r3@.skip(1));
            }
            return Some(((uri, val as u16), rest));
        }
    }
    None
}

/// One error object at the head of the text.
fn ex_parse_error_item(v: &Vec<char>) -> (r: Option<((String, String), Vec<char>)>)
    ensures
        match parse_error_item(v@) {
            Some(p) => r is Some && (r.unwrap().0).0@ == (p.0).0 && (r.unwrap().0).1@ == (p.0).1
                && r.unwrap().1@ == p.1,
            None => r is None,
        },
{
    let r0 = match ex_expect(v, "{\"uri\":") {
        Some(x) => x,
        None => {
            return None;
        },
    };
    let (uri, r1) = match ex_parse_jstr(&r0) {
        Some(x) => x,
        None => {
            return None;
        },
    };
    let r2 = match ex_expect(&r1, ",\"error\":") {
        Some(x) => x,
        None => {
            return None;
        },
    };
    let (msg, r3) = match ex_parse_jstr(&r2) {
        Some(x) => x,
        None => {
            return None;
        },
    };
    if r3.len() >= 1 {
        if r3[0] == '}' {
            let rest = subrange_chars(&r3, 1, r3.len());
            proof {
                assert(rest@ =~= r3@.skip(1));
            }
            return Some(((uri, msg), rest));
        }
    }
    None
}

/// One timeout object at the head of the text.
fn ex_parse_timeout_item(v: &Vec<char>) -> (r: Option<((String, Option<u16>), Vec<char>)>)
    ensures
        match parse_timeout_item(v@) {
            Some(p) => r is Some && (r.unwrap().0).0@ == (p.0).0 && (r.unwrap().0).1 == (p.0).1
                && r.unwrap().1@ == p.1,
            None => r is None,
        },
{
    let r0 = match ex_expect(v, "{\"uri\":") {
        Some(x) => x,
        None => {
            return None;
        },
    };
    let (uri, r1) = match ex_parse_jstr(&r0) {
        Some(x) => x,
        None => {
            return None;
        },
    };
    let r2 = match ex_expect(&r1, ",\"status_code\":") {
        Some(x) => x,
        None => {
            return None;
        },
    };
    let (code, r3) = match ex_parse_opt_code(&r2) {
        Some(x) => x,
        None => {
            return None;
        },
    };
    if r3.len() >= 1 {
        if r3[0] == '}' {
            let rest = subrange_chars(&r3, 1, r3.len());
            proof {
                assert(rest@ =~= r3@.skip(1));
            }
            return Some(((uri, code), rest));
        }
    }
    None
}

/// The failure array at the head of the text.
fn ex_parse_failures_list(v: &Vec<char>) -> (r: Option<(Vec<(String, u16)>, Vec<char>)>)
    ensures
        match parse_failures_list(v@) {
            Some(p) => r is Some && stats_failures_view(r.unwrap().0@) == p.0 && r.unwrap().1@
                == p.1,
            None => r is None,
        },
{
    if v.len() == 0 {
        return None;
    }
    if v[0] != '[' {
        return None;
    }
    let t = subrange_chars(v, 1, v.len());
    proof {
        assert(t@ =~= v@.skip(1));
    }
    if t.len() >= 1 {
        if t[0] == ']' {
            let rest = subrange_chars(&t, 1, t.len());
            proof {
                assert(rest@ =~= t@.skip(1));
                assert(stats_failures_view(Seq::<(String, u16)>::empty()) =~= Seq::<
                    (Seq<char>, u16),
                >::empty());
            }
            return Some((Vec::new(), rest));
        }
    }
    let ghost t0 = t@;
    let mut cur = t;
    let mut items: Vec<(String, u16)> = Vec::new();
    let ghost mut f: nat = t0.len() as nat;
    proof {
        match parse_failures_items(cur@, f) {
            Some(p) => {
                assert(stats_failures_view(items@) + p.0 =~= p.0);
            },
            None => {},
        }
    }
    loop
        invariant
            cur@.len() <= f,
            parse_failures_list(v@) == parse_failures_items(t0, t0.len() as nat),
            (match parse_failures_items(cur@, f) {
                Some(p) => parse_failures_items(t0, t0.len() as nat) == Some(
                    (stats_failures_view(items@) + p.0, p.1),
                ),
                None => parse_failures_items(t0, t0.len() as nat) is None,
            }),
        decreases cur@.len(),
    {
        let ghost prev = stats_failures_view(items@);
        proof {
            lemma_failure_item_consumes(cur@);
        }
        match ex_parse_failure_item(&cur) {
            Some((pair, rest)) => {
                let ghost itv = (pair.0@, pair.1);
                items.push(pair);
                proof {
                    assert(stats_failures_view(items@) =~= prev.push(itv));
                }
                if rest.len() >= 1 && rest[0] == ',' {
                    proof {
                        assert(f > 0);
                        match parse_failures_items(rest@.skip(1), (f - 1) as nat) {
                            Some(q) => {
                                assert(prev + (seq![itv] + q.0) =~= prev.push(itv) + q.0);
                            },
                            None => {},
                        }
                    }
                    let next = subrange_chars(&rest, 1, rest.len());
                    proof {
                        assert(next@ =~= rest@.skip(1));
                        f = (f - 1) as nat;
                    }
                    cur = next;
                } else if rest.len() >= 1 && rest[0] == ']' {
                    let after = subrange_chars(&rest, 1, rest.len());
                    proof {
                        assert(after@ =~= rest@.skip(1));
                        assert(prev + seq![itv] =~= prev.push(itv));
                    }
                    return Some((items, after));
                } else {
                    return None;
                }
            },
            None => {
                return None;
            },
        }
    }
}

/// The error array at the head of the text.
fn ex_parse_errors_list(v: &Vec<char>) -> (r: Option<(Vec<(String, String)>, Vec<char>)>)
    ensures
        match parse_errors_list(v@) {
            Some(p) => r is Some && stats_errors_view(r.unwrap().0@) == p.0 && r.unwrap().1@
                == p.1,
            None => r is None,
        },
{
    if v.len() == 0 {
        return None;
    }
    if v[0] != '[' {
        return None;
    }
    let t = subrange_chars(v, 1, v.len());
    proof {
        assert(t@ =~= v@.skip(1));
    }
    if t.len() >= 1 {
        if t[0] == ']' {
            let rest = subrange_chars(&t, 1, t.len());
            proof {
                assert(rest@ =~= t@.skip(1));
                assert(stats_errors_view(Seq::<(String, String)>::empty()) =~= Seq::<
                    (Seq<char>, Seq<char>),
                >::empty());
            }
            return Some((Vec::new(), rest));
        }
    }
    let ghost t0 = t@;
    let mut cur = t;
    let mut items: Vec<(String, String)> = Vec::new();
    let ghost mut f: nat = t0.len() as nat;
    proof {
        match parse_errors_items(cur@, f) {
            Some(p) => {
                assert(stats_errors_view(items@) + p.0 =~= p.0);
            },
            None => {},
        }
    }
    loop
        invariant
            cur@.len() <= f,
            parse_errors_list(v@) == parse_errors_items(t0, t0.len() as nat),
            (match parse_errors_items(cur@, f) {
                Some(p) => parse_errors_items(t0, t0.len() as nat) == Some(
                    (stats_errors_view(items@) + p.0, p.1),
                ),
                None => parse_errors_items(t0, t0.len() as nat) is None,
            }),
        decreases cur@.len(),
    {
        let ghost prev = stats_errors_view(items@);
        proof {
            lemma_error_item_consumes(cur@);
        }
        match ex_parse_error_item(&cur) {
            Some((pair, rest)) => {
                let ghost itv = (pair.0@, pair.1@);
                items.push(pair);
                proof {
                    assert(stats_errors_view(items@) =~= prev.push(itv));
                }
                if rest.len() >= 1 && rest[0] == ',' {
                    proof {
                        assert(f > 0);
                        match parse_errors_items(rest@.skip(1), (f - 1) as nat) {
                            Some(q) => {
                                assert(prev + (seq![itv] + q.0) =~= prev.push(itv) + q.0);
                            },
                            None => {},
                        }
                    }
                    let next = subrange_chars(&rest, 1, rest.len());
                    proof {
                        assert(next@ =~= rest@.skip(1));
                        f = (f - 1) as nat;
                    }
                    cur = next;
                } else if rest.len() >= 1 && rest[0] == ']' {
                    let after = subrange_chars(&rest, 1, rest.len());
                    proof {
                        assert(after@ =~= rest@.skip(1));
                        assert(prev + seq![itv] =~= prev.push(itv));
                    }
                    return Some((items, after));
                } else {
                    return None;
                }
            },
            None => {
                return None;
            },
        }
    }
}

/// The timeout array at the head of the text.
fn ex_parse_timeouts_list(v: &Vec<char>) -> (r: Option<(Vec<(String, Option<u16>)>, Vec<char>)>)
    ensures
        match parse_timeouts_list(v@) {
            Some(p) => r is Some && stats_timeouts_view(r.unwrap().0@) == p.0 && r.unwrap().1@
                == p.1,
            None => r is None,
        },
{
    if v.len() == 0 {
        return None;
    }
    if v[0] != '[' {
        return None;
    }
    let t = subrange_chars(v, 1, v.len());
    proof {
        assert(t@ =~= v@.skip(1));
    }
    if t.len() >= 1 {
        if t[0] == ']' {
            let rest = subrange_chars(&t, 1, t.len());
            proof {
                assert(rest@ =~= t@.skip(1));
                assert(stats_timeouts_view(Seq::<(String, Option<u16>)>::empty()) =~= Seq::<
                    (Seq<char>, Option<u16>),
                >::empty());
            }
            return Some((Vec::new(), rest));
        }
    }
    let ghost t0 = t@;
    let mut cur = t;
    let mut items: Vec<(String, Option<u16>)> = Vec::new();
    let ghost mut f: nat = t0.len() as nat;
    proof {
        match parse_timeouts_items(cur@, f) {
            Some(p) => {
                assert(stats_timeouts_view(items@) + p.0 =~= p.0);
            },
            None => {},
        }
    }
    loop
        invariant
            cur@.len() <= f,
            parse_timeouts_list(v@) == parse_timeouts_items(t0, t0.len() as nat),
            (match parse_timeouts_items(cur@, f) {
                Some(p) => parse_timeouts_items(t0, t0.len() as nat) == Some(
                    (stats_timeouts_view(items@) + p.0, p.1),
                ),
                None => parse_timeouts_items(t0, t0.len() as nat) is None,
            }),
        decreases cur@.len(),
    {
        let ghost prev = stats_timeouts_view(items@);
        proof {
            lemma_timeout_item_consumes(cur@);
        }
        match ex_parse_timeout_item(&cur) {
            Some((pair, rest)) => {
                let ghost itv = (pair.0@, pair.1);
                items.push(pair);
                proof {
                    assert(stats_timeouts_view(items@) =~= prev.push(itv));
                }
                if rest.len() >= 1 && rest[0] == ',' {
                    proof {
                        assert(f > 0);
                        match parse_timeouts_items(rest@.skip(1), (f - 1) as nat) {
                            Some(q) => {
                                assert(prev + (seq![itv] + q.0) =~= prev.push(itv) + q.0);
                            },
                            None => {},
                        }
                    }
                    let next = subrange_chars(&rest, 1, rest.len());
                    proof {
                        assert(next@ =~= rest@.skip(1));
                        f = (f - 1) as nat;
                    }
                    cur = next;
                } else if rest.len() >= 1 && rest[0] == ']' {
                    let after = subrange_chars(&rest, 1, rest.len());
                    proof {
                        assert(after@ =~= rest@.skip(1));
                        assert(prev + seq![itv] =~= prev.push(itv));
                    }
                    return Some((items, after));
                } else {
                    return None;
                }
            },
            None => {
                return None;
            },
        }
    }
}

impl ResponseStats {
    /// Reads stats back from their JSON text: the exact inverse of the
    /// writer on every text the JSON shape admits.
    pub fn parse_json(s: &str) -> (r: Option<ResponseStats>)
        ensures
            match parse_stats_text(s@) {
                Some(view) => r is Some && r.unwrap()@ == view,
                None => r is None,
            },
    {
        let v = chars_of(s);
        let r0 = match ex_expect(&v, "{\"total\":") {
            Some(x) => x,
            None => {
                return None;
            },
        };
        let (total, r1) = match ex_parse_num(&r0) {
            Some(x) => x,
            None => {
                return None;
            },
        };
        let r2 = match ex_expect(&r1, ",\"successful\":") {
            Some(x) => x,
            None => {
                return None;
            },
        };
        let (successful, r3) = match ex_parse_num(&r2) {
            Some(x) => x,
            None => {
                return None;
            },
        };
        let r4 = match ex_expect(&r3, ",\"excluded\":") {
            Some(x) => x,
            None => {
                return None;
            },
        };
        let (excluded, r5) = match ex_parse_num(&r4) {
            Some(x) => x,
            None => {
                return None;
            },
        };
        let r6 = match ex_expect(&r5, ",\"redirected\":") {
            Some(x) => x,
            None => {
                return None;
            },
        };
        let (redirected, r7) = match ex_parse_num(&r6) {
            Some(x) => x,
            None => {
                return None;
            },
        };
        let r8 = match ex_expect(&r7, ",\"failures\":") {
            Some(x) => x,
            None => {
                return None;
            },
        };
        let (failures, r9) = match ex_parse_failures_list(&r8) {
            Some(x) => x,
            None => {
                return None;
            },
        };
        let r10 = match ex_expect(&r9, ",\"errors\":") {
            Some(x) => x,
            None => {
                return None;
            },
        };
        let (errors, r11) = match ex_parse_errors_list(&r10) {
            Some(x) => x,
            None => {
                return None;
            },
        };
        let r12 = match ex_expect(&r11, ",\"timeouts\":") {
            Some(x) => x,
            None => {
                return None;
            },
        };
        let (timeouts, r13) = match ex_parse_timeouts_list(&r12) {
            Some(x) => x,
            None => {
                return None;
            },
        };
        let r14 = match ex_expect(&r13, "}") {
            Some(x) => x,
            None => {
                return None;
            },
        };
        if r14.len() != 0 {
            return None;
        }
        let parsed = ResponseStats {
            total,
            successful,
            excluded,
            redirected,
            failures,
            errors,
            timeouts,
        };
        proof {
            assert(parsed@.failures =~= stats_failures_view(parsed.failures@));
            assert(parsed@.errors =~= stats_errors_view(parsed.errors@));
            assert(parsed@.timeouts =~= stats_timeouts_view(parsed.timeouts@));
        }
        Some(parsed)
    }
}

} // verus!
