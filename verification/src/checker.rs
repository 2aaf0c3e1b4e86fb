//! The checker client: one URI in, one classified outcome out.
//!
//! A check first consults the exclusion policy — an excluded URI and a
//! mail address are answered at once, with no network traffic. A
//! website URI is fetched, redirects are followed up to the configured
//! limit, and the final outcome is classified. A failed check of a
//! `github.com` URL falls back to the vendor's metadata API when a
//! token is configured.

use vstd::prelude::*;

use crate::config::opt_text;
use crate::excludes::{spec_excluded, Excludes};
use crate::text::{chars_of, find_sub, spec_find_sub, split_char, split_on, string_from_chars, subrange_chars};
use vstd::string::StringExecFns;
use crate::uri::{Uri, UriView, Website};

verus! {

/// The outcome of one link check.
#[derive(Clone, Debug)]
pub enum Status {
    /// A success code: 2xx, or one the run accepts.
    Success(u16),
    /// The terminal status after the redirect limit is a redirect.
    Redirected(u16),
    /// A response with any other code.
    Failed(u16),
    /// A transport, name-resolution or protocol failure.
    Error(String),
    /// The deadline passed; the last-seen code, if any.
    Timeout(Option<u16>),
    /// The URI matched an exclusion rule, or is a mail address.
    Excluded,
}

/// The mathematical content of a `Status`.
pub enum StatusView {
    Success(u16),
    Redirected(u16),
    Failed(u16),
    Error(Seq<char>),
    Timeout(Option<u16>),
    Excluded,
}

impl View for Status {
    type V = StatusView;

    open spec fn view(&self) -> StatusView {
        match self {
            Status::Success(c) => StatusView::Success(*c),
            Status::Redirected(c) => StatusView::Redirected(*c),
            Status::Failed(c) => StatusView::Failed(*c),
            Status::Error(m) => StatusView::Error(m@),
            Status::Timeout(c) => StatusView::Timeout(*c),
            Status::Excluded => StatusView::Excluded,
        }
    }
}

impl Status {
    /// Whether the outcome counts as a success.
    pub fn is_success(&self) -> (r: bool)
        ensures
            r == (self@ is Success),
    {
        match self {
            Status::Success(_) => true,
            _ => false,
        }
    }

    /// Whether the URI was excluded from checking.
    pub fn is_excluded(&self) -> (r: bool)
        ensures
            r == (self@ is Excluded),
    {
        match self {
            Status::Excluded => true,
            _ => false,
        }
    }
}

/// One checked URI together with its outcome.
#[derive(Clone, Debug)]
pub struct Response {
    pub uri: Uri,
    pub status: Status,
}

/// The mathematical content of a `Response`.
pub struct ResponseView {
    pub uri: UriView,
    pub status: StatusView,
}

impl View for Response {
    type V = ResponseView;

    open spec fn view(&self) -> ResponseView {
        ResponseView { uri: self.uri@, status: self.status@ }
    }
}

#[verifier::external_type_specification]
#[verifier::external_body]
pub struct ExClient(reqwest::blocking::Client);

/// What one HTTP exchange came back with.
#[derive(Debug)]
pub enum HttpOutcome {
    /// The response's status code and its `Location` header text.
    Code(u16, Option<String>),
    /// The deadline passed.
    TimedOut,
    /// A transport failure, with its message.
    Transport(String),
}

/// The mathematical content of an `HttpOutcome`.
pub enum HttpOutcomeView {
    Code(u16, Option<Seq<char>>),
    TimedOut,
    Transport(Seq<char>),
}

impl View for HttpOutcome {
    type V = HttpOutcomeView;

    open spec fn view(&self) -> HttpOutcomeView {
        match self {
            HttpOutcome::Code(c, loc) => HttpOutcomeView::Code(
                *c,
                match loc {
                    Some(l) => Some(l@),
                    None => None,
                },
            ),
            HttpOutcome::TimedOut => HttpOutcomeView::TimedOut,
            HttpOutcome::Transport(m) => HttpOutcomeView::Transport(m@),
        }
    }
}

/// Relies on `reqwest::blocking::ClientBuilder`: a client with the
/// given user agent, TLS laxness, deadline and custom headers, which
/// never follows redirects on its own. Building fails on a malformed
/// header name or value.
#[verifier::external_body]
fn build_client(
    user_agent: &str,
    allow_insecure: bool,
    timeout_secs: u64,
    headers: &Vec<(String, String)>,
) -> (r: Option<reqwest::blocking::Client>) {
    let mut map = reqwest::header::HeaderMap::new();
    for (k, v) in headers.iter() {
        let name = reqwest::header::HeaderName::from_bytes(k.as_bytes()).ok()?;
        map.insert(name, reqwest::header::HeaderValue::from_str(v).ok()?);
    }
    reqwest::blocking::ClientBuilder::new()
        .user_agent(user_agent)
        .danger_accept_invalid_certs(allow_insecure)
        .timeout(std::time::Duration::from_secs(timeout_secs))
        .redirect(reqwest::redirect::Policy::none())
        .default_headers(map)
        .build()
        .ok()
}

/// Relies on `reqwest::blocking::Client::request` and `send`: one HTTP
/// exchange without following redirects. A status code is always a
/// three-digit number; a passed deadline is told apart by
/// `reqwest::Error::is_timeout`.
#[verifier::external_body]
fn http_request(client: &reqwest::blocking::Client, method: &str, url: &str) -> (r: HttpOutcome)
    ensures
        r@ matches HttpOutcomeView::Code(c, _) ==> 100 <= c <= 999,
{
    let m = match reqwest::Method::from_bytes(method.to_uppercase().as_bytes()) {
        Ok(m) => m,
        Err(e) => return HttpOutcome::Transport(e.to_string()),
    };
    match client.request(m, url).send() {
        Ok(resp) => {
            let loc = resp.headers().get(reqwest::header::LOCATION).and_then(|v| v.to_str().ok()).map(|s| s.to_string());
            HttpOutcome::Code(resp.status().as_u16(), loc)
        },
        Err(e) if e.is_timeout() => HttpOutcome::TimedOut,
        Err(e) => HttpOutcome::Transport(e.to_string()),
    }
}

/// Relies on `reqwest::blocking::Client::get` and `send`: one GET to
/// the given URL, authenticated with the bearer token; the result is
/// the response's status code.
#[verifier::external_body]
fn http_get_bearer(client: &reqwest::blocking::Client, token: &str, url: &str) -> (r: Option<u16>)
    ensures
        r is Some ==> 100 <= r.unwrap() <= 999,
{
    client.get(url)
        .header(reqwest::header::AUTHORIZATION, format!("Bearer {}", token))
        .send()
        .ok()
        .map(|resp| resp.status().as_u16())
}

/// The vendor's repository metadata endpoint for an owner and a
/// repository.
fn github_api_url(owner: &str, repo: &str) -> (r: String)
    ensures
        r@ == "https://api.github.com/repos/"@ + owner@ + "/"@ + repo@,
{
    let mut url = "https://api.github.com/repos/".to_owned();
    url.append(owner);
    url.append("/");
    url.append(repo);
    url
}

/// The view of an optional accepted-codes list.
pub open spec fn accepted_view(a: Option<Vec<u16>>) -> Option<Seq<u16>> {
    match a {
        Some(v) => Some(v@),
        None => None,
    }
}

/// Whether a code is among the run's accepted codes.
pub open spec fn spec_accepts(accepted: Option<Seq<u16>>, code: u16) -> bool {
    match accepted {
        Some(a) => a.contains(code),
        None => false,
    }
}

/// How a final response code is classified: an accepted or 2xx code is
/// a success, a redirect code that was not followed further stands as
/// redirected, anything else failed.
pub open spec fn spec_classify_code(code: u16, accepted: Option<Seq<u16>>) -> StatusView {
    if spec_accepts(accepted, code) || (200 <= code < 300) {
        StatusView::Success(code)
    } else if 300 <= code < 400 {
        StatusView::Redirected(code)
    } else {
        StatusView::Failed(code)
    }
}

/// The status of a terminal HTTP outcome.
pub open spec fn spec_outcome_status(o: HttpOutcomeView, accepted: Option<Seq<u16>>) -> StatusView {
    match o {
        HttpOutcomeView::Code(c, _) => spec_classify_code(c, accepted),
        HttpOutcomeView::TimedOut => StatusView::Timeout(None),
        HttpOutcomeView::Transport(m) => StatusView::Error(m),
    }
}

/// Whether a code is among the accepted codes.
fn accepts(accepted: &Option<Vec<u16>>, code: u16) -> (r: bool)
    ensures
        r == spec_accepts(accepted_view(*accepted), code),
{
    match accepted {
        Some(a) => {
            let n = a.len();
            let mut i: usize = 0;
            while i < n
                invariant
                    n == a@.len(),
                    i <= n,
                    accepted_view(*accepted) == Some(a@),
                    forall|j: int| 0 <= j < i ==> a@[j] != code,
                decreases n - i,
            {
                if a[i] == code {
                    proof {
                        assert(a@[i as int] == code);
                    }
                    return true;
                }
                i = i + 1;
            }
            proof {
                assert(!a@.contains(code));
            }
            false
        },
        None => false,
    }
}

/// Classifies a final response code.
pub fn classify_code(code: u16, accepted: &Option<Vec<u16>>) -> (r: Status)
    ensures
        r@ == spec_classify_code(code, accepted_view(*accepted)),
{
    if accepts(accepted, code) || (200 <= code && code < 300) {
        Status::Success(code)
    } else if 300 <= code && code < 400 {
        Status::Redirected(code)
    } else {
        Status::Failed(code)
    }
}

/// Classifies a terminal HTTP outcome.
pub fn outcome_status(o: HttpOutcome, accepted: &Option<Vec<u16>>) -> (r: Status)
    ensures
        r@ == spec_outcome_status(o@, accepted_view(*accepted)),
{
    match o {
        HttpOutcome::Code(c, _) => classify_code(c, accepted),
        HttpOutcome::TimedOut => Status::Timeout(None),
        HttpOutcome::Transport(m) => Status::Error(m),
    }
}

/// What the GitHub fallback decides: a 2xx from the metadata API
/// promotes the direct outcome to a success; anything else leaves it.
pub open spec fn spec_promote(api: Option<u16>, direct: StatusView) -> StatusView {
    match api {
        Some(c) => if 200 <= c < 300 {
            StatusView::Success(200)
        } else {
            direct
        },
        None => direct,
    }
}

/// Applies the GitHub fallback's answer to a direct outcome.
pub fn promote(api: Option<u16>, direct: Status) -> (r: Status)
    ensures
        r@ == spec_promote(api, direct@),
{
    match api {
        Some(c) => {
            if 200 <= c && c < 300 {
                Status::Success(200)
            } else {
                direct
            }
        },
        None => direct,
    }
}

/// The owner and repository found at or after `from`: the first
/// `github.com/` occurrence that two non-empty segments follow; an
/// occurrence whose tail lacks them is passed over, as a backtracking
/// pattern search would. `fuel` bounds the search.
pub open spec fn spec_github_from(s: Seq<char>, from: int, fuel: nat) -> Option<
    (Seq<char>, Seq<char>),
>
    decreases fuel,
{
    match spec_find_sub(s, "github.com/"@, from) {
        Some(i) => {
            let rest = s.skip(i + "github.com/"@.len() as int);
            let parts = split_on(rest, '/');
            if parts.len() >= 2 && parts[0].len() > 0 && parts[1].len() > 0 {
                Some((parts[0], parts[1]))
            } else if fuel > 0 {
                spec_github_from(s, i + 1, (fuel - 1) as nat)
            } else {
                None
            }
        },
        None => None,
    }
}

/// The owner and repository named by a `github.com` URL text.
pub open spec fn spec_github_owner_repo(s: Seq<char>) -> Option<(Seq<char>, Seq<char>)> {
    spec_github_from(s, 0, (s.len() + 1) as nat)
}

proof fn lemma_find_sub_valid(s: Seq<char>, p: Seq<char>, from: int)
    ensures
        match spec_find_sub(s, p, from) {
            Some(i) => from <= i && i + p.len() <= s.len() && 0 <= i,
            None => true,
        },
    decreases s.len() + 1 - from,
{
    if !(from < 0 || from + p.len() > s.len()) && s.subrange(from, from + p.len()) != p {
        lemma_find_sub_valid(s, p, from + 1);
    }
}

/// With fuel for every position left of the end, the search's answer
/// does not depend on the exact fuel.
proof fn lemma_github_fuel(s: Seq<char>, from: int, f1: nat, f2: nat)
    requires
        f1 >= s.len() + 1 - from,
        f2 >= s.len() + 1 - from,
    ensures
        spec_github_from(s, from, f1) == spec_github_from(s, from, f2),
    decreases f1 + f2,
{
    lemma_find_sub_valid(s, "github.com/"@, from);
    match spec_find_sub(s, "github.com/"@, from) {
        Some(i) => {
            let rest = s.skip(i + "github.com/"@.len() as int);
            let parts = split_on(rest, '/');
            if !(parts.len() >= 2 && parts[0].len() > 0 && parts[1].len() > 0) {
                assert(f1 > 0 && f2 > 0);
                lemma_github_fuel(s, i + 1, (f1 - 1) as nat, (f2 - 1) as nat);
            }
        },
        None => {},
    }
}

/// What a check will do for a URI: answer at once, or fetch a website.
pub enum CheckPlan {
    /// No request is made; the answer is already decided.
    NoRequest(Status),
    /// The website will be fetched over the network.
    Fetch(Website),
}

/// A link checker: the exclusion policy, the classification options,
/// and the HTTP client the checks run on.
pub struct Checker {
    /// The HTTP client the checks run on.
    pub client: reqwest::blocking::Client,
    /// The exclusion policy consulted before any request.
    pub excludes: Excludes,
    /// How many redirects one check may follow.
    pub max_redirects: usize,
    /// Codes treated as success regardless of 2xx membership.
    pub accepted: Option<Vec<u16>>,
    /// Token for the GitHub fallback.
    pub github_token: Option<String>,
    /// The request method, as configured.
    pub method: String,
    /// Report each link's outcome, not only failures.
    pub verbose: bool,
}

impl Checker {
    /// Builds a checker. Building fails only when the HTTP client
    /// refuses the header set.
    pub fn try_new(
        github_token: Option<String>,
        excludes: Excludes,
        max_redirects: usize,
        user_agent: String,
        allow_insecure: bool,
        headers: Vec<(String, String)>,
        method: String,
        accepted: Option<Vec<u16>>,
        timeout_secs: u64,
        verbose: bool,
    ) -> (r: Option<Checker>)
        ensures
            r is Some ==> {
                let c = r.unwrap();
                &&& c.excludes@ == excludes@
                &&& c.max_redirects == max_redirects
                &&& accepted_view(c.accepted) == accepted_view(accepted)
                &&& opt_text(c.github_token) == opt_text(github_token)
                &&& c.method@ == method@
                &&& c.verbose == verbose
            },
    {
        match build_client(user_agent.as_str(), allow_insecure, timeout_secs, &headers) {
            Some(client) => Some(
                Checker { client, excludes, max_redirects, accepted, github_token, method, verbose },
            ),
            None => None,
        }
    }

    /// The owner and repository named by a `github.com` URL text.
    pub fn extract_github(&self, url_text: &str) -> (r: Option<(String, String)>)
        ensures
            match r {
                Some(p) => spec_github_owner_repo(url_text@) == Some((p.0@, p.1@)),
                None => spec_github_owner_repo(url_text@) is None,
            },
    {
        let cs = chars_of(url_text);
        let pat = chars_of("github.com/");
        let cn = cs.len();
        let mut from: usize = 0;
        loop
            invariant
                cs@ == url_text@,
                pat@ == "github.com/"@,
                cn == cs@.len(),
                from <= cn + 1,
                spec_github_owner_repo(url_text@) == spec_github_from(
                    cs@,
                    from as int,
                    (cs@.len() + 1 - from) as nat,
                ),
            decreases cn + 1 - from,
        {
            match find_sub(&cs, &pat, from) {
                Some(i) => {
                    proof {
                        lemma_find_sub_valid(cs@, pat@, from as int);
                        reveal_strlit("github.com/");
                        assert(pat@.len() == 11);
                        assert(i + pat@.len() <= cs@.len());
                    }
                    let rest = subrange_chars(&cs, i + pat.len(), cn);
                    proof {
                        assert(rest@ =~= cs@.skip(i + "github.com/"@.len() as int));
                    }
                    let parts = split_char(&rest, '/');
                    proof {
                        assert(parts@.map_values(|p: Vec<char>| p@)[0] == parts@[0]@);
                        if parts@.len() >= 2 {
                            assert(parts@.map_values(|p: Vec<char>| p@)[1] == parts@[1]@);
                        }
                    }
                    if parts.len() >= 2 && parts[0].len() > 0 && parts[1].len() > 0 {
                        return Some((string_from_chars(&parts[0]), string_from_chars(&parts[1])));
                    }
                    proof {
                        let f = (cs@.len() + 1 - from) as nat;
                        assert(f > 0);
                        assert(spec_github_from(cs@, from as int, f) == spec_github_from(
                            cs@,
                            i + 1,
                            (f - 1) as nat,
                        ));
                        lemma_github_fuel(
                            cs@,
                            i + 1,
                            (f - 1) as nat,
                            (cs@.len() + 1 - (i + 1)) as nat,
                        );
                    }
                    from = i + 1;
                },
                None => {
                    return None;
                },
            }
        }
    }

    /// What checking this URI will do: an excluded URI and a mail
    /// address are answered `Excluded` with no network traffic; only
    /// an allowed website is fetched.
    pub fn check_plan(&self, uri: &Uri) -> (r: CheckPlan)
        ensures
            spec_excluded(self.excludes@, uri@) ==> (r matches CheckPlan::NoRequest(s) && s@
                is Excluded),
            uri@ is Mail ==> (r matches CheckPlan::NoRequest(s) && s@ is Excluded),
            !spec_excluded(self.excludes@, uri@) && uri@ is Website ==> (r
                matches CheckPlan::Fetch(w) && uri@ == UriView::Website(w@)),
    {
        if self.excludes.excluded(uri) {
            return CheckPlan::NoRequest(Status::Excluded);
        }
        match uri {
            Uri::Mail(_) => CheckPlan::NoRequest(Status::Excluded),
            Uri::Website(w) => {
                let host = match &w.host {
                    Some(h) => Some(h.clone()),
                    None => None,
                };
                CheckPlan::Fetch(Website { url: w.url.clone(), scheme: w.scheme.clone(), host })
            },
        }
    }

    /// Fetches a website, following redirects up to the limit, and
    /// classifies the terminal outcome; a failed `github.com` check
    /// falls back to the vendor API when a token is configured. The
    /// outcome is never `Excluded`; a success is an accepted or 2xx
    /// code, a redirected outcome carries the 3xx code that was not
    /// followed further, and a failed outcome carries a code that is
    /// none of those.
    pub fn check_real(&self, website: &Website) -> (r: Status)
        ensures
            !(r@ is Excluded),
            r@ matches StatusView::Success(c) ==> spec_accepts(accepted_view(self.accepted), c) || (200
                <= c < 300),
            r@ matches StatusView::Redirected(c) ==> (300 <= c < 400) && !spec_accepts(
                accepted_view(self.accepted),
                c,
            ),
            r@ matches StatusView::Failed(c) ==> 100 <= c <= 999 && !spec_accepts(
                accepted_view(self.accepted),
                c,
            ) && !(200 <= c < 400),
    {
        let mut current: String = website.url.clone();
        let mut hops: usize = 0;
        let mut outcome = http_request(&self.client, self.method.as_str(), current.as_str());
        while hops < self.max_redirects
            invariant
                outcome@ matches HttpOutcomeView::Code(c, _) ==> 100 <= c <= 999,
            decreases self.max_redirects - hops,
        {
            let follow: Option<String> = match &outcome {
                HttpOutcome::Code(c, Some(loc)) => {
                    if 300 <= *c && *c < 400 && !accepts(&self.accepted, *c) {
                        match Website::join(current.as_str(), loc.as_str()) {
                            Some(w) => Some(w.url),
                            None => None,
                        }
                    } else {
                        None
                    }
                },
                _ => None,
            };
            match follow {
                Some(next) => {
                    current = next;
                    outcome = http_request(&self.client, self.method.as_str(), current.as_str());
                },
                None => {
                    break;
                },
            }
            hops = hops + 1;
        }
        let direct = outcome_status(outcome, &self.accepted);
        let failed_or_error = match &direct {
            Status::Failed(_) => true,
            Status::Error(_) => true,
            _ => false,
        };
        let is_github = match &website.host {
            Some(h) => {
                let hc = chars_of(h.as_str());
                crate::text::chars_eq_str(&hc, "github.com")
            },
            None => false,
        };
        if failed_or_error && is_github {
            match &self.github_token {
                Some(token) => match self.extract_github(website.url.as_str()) {
                    Some((owner, repo)) => {
                        let api_url = github_api_url(owner.as_str(), repo.as_str());
                        let api = http_get_bearer(&self.client, token.as_str(), api_url.as_str());
                        promote(api, direct)
                    },
                    None => direct,
                },
                None => direct,
            }
        } else {
            direct
        }
    }

    /// Checks one URI and classifies the outcome. The check is total:
    /// every failure becomes a `Status`. An excluded URI or a mail
    /// address is answered `Excluded` without any network traffic.
    pub fn check(&self, uri: Uri) -> (r: Response)
        ensures
            r.uri@ == uri@,
            r.status@ is Excluded <==> (spec_excluded(self.excludes@, uri@) || uri@ is Mail),
            r.status@ matches StatusView::Success(c) ==> spec_accepts(
                accepted_view(self.accepted),
                c,
            ) || (200 <= c < 300),
            r.status@ matches StatusView::Redirected(c) ==> (300 <= c < 400) && !spec_accepts(
                accepted_view(self.accepted),
                c,
            ),
            r.status@ matches StatusView::Failed(c) ==> 100 <= c <= 999 && !spec_accepts(
                accepted_view(self.accepted),
                c,
            ) && !(200 <= c < 400),
    {
        let status = match self.check_plan(&uri) {
            CheckPlan::NoRequest(s) => s,
            CheckPlan::Fetch(w) => self.check_real(&w),
        };
        Response { uri, status }
    }
}

} // verus!
