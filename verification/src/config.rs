//! Run configuration: option values, their parsing, and the merge of
//! command-line values with config-file values.

use vstd::prelude::*;

use crate::num::{all_digits, digits_val, parse_u64};
use crate::text::{chars_eq_str, chars_of, split_char, split_on, str_views, string_from_chars};
use vstd::string::StringSliceAdditionalSpecFns;
use vstd::string::StrSliceExecFns;
use vstd::string::StringExecFns;

verus! {

/// A configuration value that cannot be used.
#[derive(Clone, Copy, Debug, PartialEq, Eq, Structural)]
pub enum ConfigError {
    /// A custom header was not of the form `key=value`.
    InvalidHeader,
    /// An accepted status code was not a three-digit number.
    InvalidStatusCode,
    /// A basic-auth credential was not of the form `username:password`.
    InvalidBasicAuth,
    /// A timeout was not a number of seconds.
    InvalidTimeout,
}

/// Splits one `key=value` header argument.
pub fn read_header(input: &str) -> (r: Result<(String, String), ConfigError>)
    ensures
        match r {
            Ok(p) => split_on(input@, '=').len() == 2 && p.0@ == split_on(input@, '=')[0] && p.1@
                == split_on(input@, '=')[1],
            Err(e) => e == ConfigError::InvalidHeader && split_on(input@, '=').len() != 2,
        },
{
    let cs = chars_of(input);
    let parts = split_char(&cs, '=');
    if parts.len() != 2 {
        return Err(ConfigError::InvalidHeader);
    }
    let key = string_from_chars(&parts[0]);
    let val = string_from_chars(&parts[1]);
    proof {
        assert(parts@.map_values(|p: Vec<char>| p@)[0] == parts@[0]@);
        assert(parts@.map_values(|p: Vec<char>| p@)[1] == parts@[1]@);
    }
    Ok((key, val))
}

/// Splits each `key=value` header argument; the first malformed one is
/// the error.
pub fn parse_headers(headers: &Vec<String>) -> (r: Result<
    Vec<(String, String)>,
    ConfigError,
>)
    ensures
        match r {
            Ok(pairs) => pairs@.len() == headers@.len() && (forall|i: int|
                0 <= i < headers@.len() ==> {
                    let parts = split_on((#[trigger] headers@[i])@, '=');
                    parts.len() == 2 && pairs@[i].0@ == parts[0] && pairs@[i].1@ == parts[1]
                }),
            Err(e) => e == ConfigError::InvalidHeader && (exists|i: int|
                0 <= i < headers@.len() && split_on((#[trigger] headers@[i])@, '=').len() != 2),
        },
{
    let mut pairs: Vec<(String, String)> = Vec::new();
    let n = headers.len();
    let mut i: usize = 0;
    while i < n
        invariant
            n == headers@.len(),
            i <= n,
            pairs@.len() == i,
            forall|j: int|
                0 <= j < i ==> {
                    let parts = split_on((#[trigger] headers@[j])@, '=');
                    parts.len() == 2 && pairs@[j].0@ == parts[0] && pairs@[j].1@ == parts[1]
                },
        decreases n - i,
    {
        match read_header(headers[i].as_str()) {
            Ok(p) => {
                pairs.push(p);
            },
            Err(e) => {
                return Err(e);
            },
        }
        i = i + 1;
    }
    Ok(pairs)
}

/// Reads a timeout as a whole number of seconds.
pub fn parse_timeout(timeout: &str) -> (r: Result<u64, ConfigError>)
    ensures
        match r {
            Ok(n) => timeout@.len() > 0 && all_digits(timeout@) && digits_val(timeout@) == n as nat,
            Err(e) => e == ConfigError::InvalidTimeout && (timeout@.len() == 0 || !all_digits(
                timeout@,
            ) || digits_val(timeout@) > u64::MAX),
        },
{
    let cs = chars_of(timeout);
    match parse_u64(&cs) {
        Some(n) => Ok(n),
        None => Err(ConfigError::InvalidTimeout),
    }
}

/// Whether a piece of text is a valid status code: three digits naming
/// a number from 100 through 999.
pub open spec fn valid_code_text(p: Seq<char>) -> bool {
    p.len() == 3 && all_digits(p) && 100 <= digits_val(p) <= 999
}

/// Reads a comma-separated list of accepted status codes. An empty
/// list means no overrides at all.
pub fn parse_statuscodes(accept: &str) -> (r: Result<Option<Vec<u16>>, ConfigError>)
    ensures
        accept@.len() == 0 ==> r == Ok::<Option<Vec<u16>>, ConfigError>(None),
        accept@.len() > 0 ==> match r {
            Ok(codes) => codes is Some && {
                let v = codes.unwrap();
                let parts = split_on(accept@, ',');
                v@.len() == parts.len() && (forall|i: int|
                    0 <= i < parts.len() ==> valid_code_text(#[trigger] parts[i]) && v@[i] as nat
                        == digits_val(parts[i]))
            },
            Err(e) => e == ConfigError::InvalidStatusCode && (exists|i: int|
                0 <= i < split_on(accept@, ',').len() && !valid_code_text(
                    #[trigger] split_on(accept@, ',')[i],
                )),
        },
{
    let cs = chars_of(accept);
    if cs.len() == 0 {
        return Ok(None);
    }
    let parts = split_char(&cs, ',');
    let ghost gparts = split_on(accept@, ',');
    let mut codes: Vec<u16> = Vec::new();
    let n = parts.len();
    let mut i: usize = 0;
    while i < n
        invariant
            n == parts@.len(),
            i <= n,
            accept@.len() > 0,
            gparts == split_on(accept@, ','),
            parts@.map_values(|p: Vec<char>| p@) == gparts,
            codes@.len() == i,
            forall|j: int|
                0 <= j < i ==> valid_code_text(#[trigger] gparts[j]) && codes@[j] as nat
                    == digits_val(gparts[j]),
        decreases n - i,
    {
        proof {
            assert(gparts[i as int] == parts@[i as int]@);
        }
        let piece = &parts[i];
        if piece.len() != 3 {
            proof {
                assert(!valid_code_text(gparts[i as int]));
            }
            return Err(ConfigError::InvalidStatusCode);
        }
        match parse_u64(piece) {
            Some(v) => {
                if v < 100 || v > 999 {
                    proof {
                        assert(!valid_code_text(gparts[i as int]));
                    }
                    return Err(ConfigError::InvalidStatusCode);
                }
                codes.push(v as u16);
            },
            None => {
                proof {
                    assert(piece@.len() == 3);
                    if all_digits(piece@) && digits_val(piece@) > u64::MAX {
                        assert(!valid_code_text(gparts[i as int]));
                    }
                    assert(!valid_code_text(gparts[i as int]));
                }
                return Err(ConfigError::InvalidStatusCode);
            },
        }
        i = i + 1;
    }
    Ok(Some(codes))
}

/// The base64 alphabet, in order.
pub open spec fn b64_alphabet() -> Seq<char> {
    "ABCDEFGHIJKLMNOPQRSTUVWXYZabcdefghijklmnopqrstuvwxyz0123456789+/"@
}

/// The base64 digit of a value below 64.
pub open spec fn b64_char(n: nat) -> char {
    b64_alphabet()[n as int]
}

/// The base64 encoding of a byte string, with `=` padding.
pub open spec fn spec_base64(bytes: Seq<u8>) -> Seq<char>
    decreases bytes.len(),
{
    if bytes.len() == 0 {
        Seq::<char>::empty()
    } else if bytes.len() == 1 {
        let b0 = bytes[0];
        seq![b64_char((b0 >> 2) as nat), b64_char(((b0 & 3) << 4) as nat), '=', '=']
    } else if bytes.len() == 2 {
        let b0 = bytes[0];
        let b1 = bytes[1];
        seq![
            b64_char((b0 >> 2) as nat),
            b64_char((((b0 & 3) << 4) | (b1 >> 4)) as nat),
            b64_char(((b1 & 15) << 2) as nat),
            '=',
        ]
    } else {
        let b0 = bytes[0];
        let b1 = bytes[1];
        let b2 = bytes[2];
        seq![
            b64_char((b0 >> 2) as nat),
            b64_char((((b0 & 3) << 4) | (b1 >> 4)) as nat),
            b64_char((((b1 & 15) << 2) | (b2 >> 6)) as nat),
            b64_char((b2 & 63) as nat),
        ] + spec_base64(bytes.skip(3))
    }
}

/// The base64 digit of a value below 64.
fn b64_digit(d: u8) -> (r: char)
    requires
        d < 64,
    ensures
        r == b64_char(d as nat),
{
    let s = "ABCDEFGHIJKLMNOPQRSTUVWXYZabcdefghijklmnopqrstuvwxyz0123456789+/";
    proof {
        reveal_strlit("ABCDEFGHIJKLMNOPQRSTUVWXYZabcdefghijklmnopqrstuvwxyz0123456789+/");
    }
    s.get_char(d as usize)
}

/// Encodes a byte string in base64.
pub fn base64_chars(v: &Vec<u8>) -> (r: Vec<char>)
    ensures
        r@ == spec_base64(v@),
{
    let mut out: Vec<char> = Vec::new();
    let n = v.len();
    let mut i: usize = 0;
    proof {
        assert(v@.skip(0) =~= v@);
    }
    while n - i >= 3
        invariant
            n == v@.len(),
            i <= n,
            out@ + spec_base64(v@.skip(i as int)) == spec_base64(v@),
        decreases n - i,
    {
        let ghost prev = out@;
        let b0 = v[i];
        let b1 = v[i + 1];
        let b2 = v[i + 2];
        let c0 = b0 >> 2;
        let c1 = ((b0 & 3) << 4) | (b1 >> 4);
        let c2 = ((b1 & 15) << 2) | (b2 >> 6);
        let c3 = b2 & 63;
        proof {
            assert(b0 >> 2 < 64) by (bit_vector);
            assert(((b0 & 3) << 4) | (b1 >> 4) < 64) by (bit_vector);
            assert(((b1 & 15) << 2) | (b2 >> 6) < 64) by (bit_vector);
            assert(b2 & 63 < 64) by (bit_vector);
        }
        out.push(b64_digit(c0));
        out.push(b64_digit(c1));
        out.push(b64_digit(c2));
        out.push(b64_digit(c3));
        proof {
            let s = v@.skip(i as int);
            assert(s.len() == n - i >= 3);
            assert(s[0] == b0 && s[1] == b1 && s[2] == b2);
            assert(s.skip(3) =~= v@.skip(i as int + 3));
            assert(out@ =~= prev + seq![
                b64_char(c0 as nat),
                b64_char(c1 as nat),
                b64_char(c2 as nat),
                b64_char(c3 as nat),
            ]);
            assert(out@ + spec_base64(v@.skip(i as int + 3)) =~= prev + spec_base64(s));
        }
        i = i + 3;
    }
    let ghost prev = out@;
    let ghost s = v@.skip(i as int);
    if n - i == 1 {
        let b0 = v[i];
        let c0 = b0 >> 2;
        let c1 = (b0 & 3) << 4;
        proof {
            assert(b0 >> 2 < 64) by (bit_vector);
            assert((b0 & 3) << 4 < 64) by (bit_vector);
            assert(s.len() == 1 && s[0] == b0);
        }
        out.push(b64_digit(c0));
        out.push(b64_digit(c1));
        out.push('=');
        out.push('=');
        proof {
            assert(out@ =~= prev + spec_base64(s));
        }
    } else if n - i == 2 {
        let b0 = v[i];
        let b1 = v[i + 1];
        let c0 = b0 >> 2;
        let c1 = ((b0 & 3) << 4) | (b1 >> 4);
        let c2 = (b1 & 15) << 2;
        proof {
            assert(b0 >> 2 < 64) by (bit_vector);
            assert(((b0 & 3) << 4) | (b1 >> 4) < 64) by (bit_vector);
            assert((b1 & 15) << 2 < 64) by (bit_vector);
            assert(s.len() == 2 && s[0] == b0 && s[1] == b1);
        }
        out.push(b64_digit(c0));
        out.push(b64_digit(c1));
        out.push(b64_digit(c2));
        out.push('=');
        proof {
            assert(out@ =~= prev + spec_base64(s));
        }
    } else {
        proof {
            assert(s.len() == 0);
            assert(out@ =~= prev + spec_base64(s));
        }
    }
    out
}

/// Reads a `username:password` credential and renders the HTTP header
/// that carries it: the name `authorization` with a `Basic` value
/// holding the credential in base64.
pub fn parse_basic_auth(auth: &str) -> (r: Result<(String, String), ConfigError>)
    ensures
        match r {
            Ok(p) => split_on(auth@, ':').len() == 2 && p.0@ == "authorization"@ && p.1@
                == "Basic "@ + spec_base64(auth.spec_bytes()),
            Err(e) => e == ConfigError::InvalidBasicAuth && split_on(auth@, ':').len() != 2,
        },
{
    let cs = chars_of(auth);
    let parts = split_char(&cs, ':');
    if parts.len() != 2 {
        return Err(ConfigError::InvalidBasicAuth);
    }
    let bytes = auth.as_bytes_vec();
    let enc = base64_chars(&bytes);
    let enc_str = string_from_chars(&enc);
    let mut value = "Basic ".to_owned();
    value.append(enc_str.as_str());
    Ok(("authorization".to_owned(), value))
}

/// The text of an optional string.
pub open spec fn opt_text(o: Option<String>) -> Option<Seq<char>> {
    match o {
        Some(s) => Some(s@),
        None => None,
    }
}

/// The value a key takes when a command-line value and a config-file
/// value meet: the file value wins only where the command line is left
/// at the key's default and the file is not.
pub open spec fn merged<T>(cli: T, file: T, dflt: T) -> T {
    if cli == dflt && file != dflt {
        file
    } else {
        cli
    }
}

/// The default user agent, a curl-like identifier.
pub open spec fn default_user_agent() -> Seq<char> {
    "curl/7.71.1"@
}

/// The default timeout, in seconds, as written on a command line.
pub open spec fn default_timeout() -> Seq<char> {
    "20"@
}

/// The default request method.
pub open spec fn default_method() -> Seq<char> {
    "get"@
}

/// The options of a run, as the command line and the config file
/// provide them.
#[derive(Clone, Debug)]
pub struct Config {
    /// Report each link's outcome, not only failures.
    pub verbose: bool,
    /// Show a progress bar.
    pub progress: bool,
    /// How many redirects a check may follow.
    pub max_redirects: usize,
    /// Worker threads; the runtime's default when absent.
    pub threads: Option<usize>,
    /// The `User-Agent` header value.
    pub user_agent: String,
    /// Proceed on invalid TLS certificates.
    pub insecure: bool,
    /// When set, only this scheme is checked.
    pub scheme: Option<String>,
    /// Whitelist patterns; empty means every URI is allowed.
    pub includes: Vec<String>,
    /// Exclusion patterns.
    pub exclude: Vec<String>,
    /// Exclude every private address class.
    pub exclude_all_private: bool,
    /// Exclude private address ranges.
    pub exclude_private: bool,
    /// Exclude link-local address ranges.
    pub exclude_link_local: bool,
    /// Exclude loopback address ranges.
    pub exclude_loopback: bool,
    /// Custom headers, each of the form `key=value`.
    pub headers: Vec<String>,
    /// Comma-separated accepted status codes.
    pub accept: Option<String>,
    /// Request timeout in seconds, as written.
    pub timeout: String,
    /// Request method, lower-case.
    pub method: String,
    /// Base URL for resolving relative references.
    pub base_url: Option<String>,
    /// How many checks may run at once.
    pub max_concurrency: usize,
    /// Skip unreadable inputs instead of failing.
    pub skip_missing: bool,
    /// Token for the GitHub fallback.
    pub github_token: Option<String>,
    /// Basic-auth credential of the form `username:password`.
    pub basic_auth: Option<String>,
}

impl Default for Config {
    /// The documented default of every option.
    fn default() -> (r: Config)
        ensures
            r.verbose == false,
            r.progress == false,
            r.max_redirects == 10,
            r.threads is None,
            r.user_agent@ == default_user_agent(),
            r.insecure == false,
            r.scheme is None,
            r.includes@.len() == 0,
            r.exclude@.len() == 0,
            r.exclude_all_private == false,
            r.exclude_private == false,
            r.exclude_link_local == false,
            r.exclude_loopback == false,
            r.headers@.len() == 0,
            r.accept is None,
            r.timeout@ == default_timeout(),
            r.method@ == default_method(),
            r.base_url is None,
            r.max_concurrency == 256,
            r.skip_missing == false,
            r.github_token is None,
            r.basic_auth is None,
    {
        Config {
            verbose: false,
            progress: false,
            max_redirects: 10,
            threads: None,
            user_agent: "curl/7.71.1".to_owned(),
            insecure: false,
            scheme: None,
            includes: Vec::new(),
            exclude: Vec::new(),
            exclude_all_private: false,
            exclude_private: false,
            exclude_link_local: false,
            exclude_loopback: false,
            headers: Vec::new(),
            accept: None,
            timeout: "20".to_owned(),
            method: "get".to_owned(),
            base_url: None,
            max_concurrency: 256,
            skip_missing: false,
            github_token: None,
            basic_auth: None,
        }
    }
}

/// Whether an optional string is set; `None` is every such key's
/// default.
fn opt_is_set(o: &Option<String>) -> (r: bool)
    ensures
        r == (opt_text(*o) is Some),
{
    match o {
        Some(_) => true,
        None => false,
    }
}

/// Picks between a command-line and a config-file string by comparing
/// the command-line value with the key's default.
fn merge_string(cli: String, file: String, dflt: &str) -> (r: String)
    ensures
        r@ == merged(cli@, file@, dflt@),
{
    let cli_chars = chars_of(cli.as_str());
    let file_chars = chars_of(file.as_str());
    if chars_eq_str(&cli_chars, dflt) && !chars_eq_str(&file_chars, dflt) {
        file
    } else {
        cli
    }
}

/// Picks between a command-line and a config-file optional string; the
/// default of such a key is to be unset.
fn merge_opt_string(cli: Option<String>, file: Option<String>) -> (r: Option<String>)
    ensures
        opt_text(r) == merged(opt_text(cli), opt_text(file), None),
{
    if !opt_is_set(&cli) && opt_is_set(&file) {
        file
    } else {
        cli
    }
}

/// Picks between a command-line and a config-file pattern list; the
/// default of such a key is the empty list.
fn merge_string_list(cli: Vec<String>, file: Vec<String>) -> (r: Vec<String>)
    ensures
        str_views(r@) == merged(str_views(cli@), str_views(file@), Seq::<Seq<char>>::empty()),
{
    proof {
        if cli@.len() == 0 {
            assert(str_views(cli@) =~= Seq::<Seq<char>>::empty());
        }
        if file@.len() == 0 {
            assert(str_views(file@) =~= Seq::<Seq<char>>::empty());
        }
    }
    if cli.len() == 0 && file.len() > 0 {
        file
    } else {
        cli
    }
}

impl Config {
    /// Merges a config file's values into the command line's values:
    /// for each key, the file's value is taken exactly when the
    /// command line is left at the key's documented default and the
    /// file is not.
    pub fn merge(self, file: Config) -> (r: Config)
        ensures
            r.verbose == merged(self.verbose, file.verbose, false),
            r.progress == merged(self.progress, file.progress, false),
            r.max_redirects == merged(self.max_redirects, file.max_redirects, 10),
            r.threads == merged(self.threads, file.threads, None),
            r.user_agent@ == merged(self.user_agent@, file.user_agent@, default_user_agent()),
            r.insecure == merged(self.insecure, file.insecure, false),
            opt_text(r.scheme) == merged(opt_text(self.scheme), opt_text(file.scheme), None),
            str_views(r.includes@) == merged(
                str_views(self.includes@),
                str_views(file.includes@),
                Seq::<Seq<char>>::empty(),
            ),
            str_views(r.exclude@) == merged(
                str_views(self.exclude@),
                str_views(file.exclude@),
                Seq::<Seq<char>>::empty(),
            ),
            r.exclude_all_private == merged(
                self.exclude_all_private,
                file.exclude_all_private,
                false,
            ),
            r.exclude_private == merged(self.exclude_private, file.exclude_private, false),
            r.exclude_link_local == merged(self.exclude_link_local, file.exclude_link_local, false),
            r.exclude_loopback == merged(self.exclude_loopback, file.exclude_loopback, false),
            str_views(r.headers@) == merged(
                str_views(self.headers@),
                str_views(file.headers@),
                Seq::<Seq<char>>::empty(),
            ),
            opt_text(r.accept) == merged(opt_text(self.accept), opt_text(file.accept), None),
            r.timeout@ == merged(self.timeout@, file.timeout@, default_timeout()),
            r.method@ == merged(self.method@, file.method@, default_method()),
            opt_text(r.base_url) == merged(opt_text(self.base_url), opt_text(file.base_url), None),
            r.max_concurrency == merged(self.max_concurrency, file.max_concurrency, 256),
            r.skip_missing == merged(self.skip_missing, file.skip_missing, false),
            opt_text(r.github_token) == merged(
                opt_text(self.github_token),
                opt_text(file.github_token),
                None,
            ),
            opt_text(r.basic_auth) == merged(
                opt_text(self.basic_auth),
                opt_text(file.basic_auth),
                None,
            ),
    {
        Config {
            verbose: if !self.verbose && file.verbose {
                file.verbose
            } else {
                self.verbose
            },
            progress: if !self.progress && file.progress {
                file.progress
            } else {
                self.progress
            },
            max_redirects: if self.max_redirects == 10 && file.max_redirects != 10 {
                file.max_redirects
            } else {
                self.max_redirects
            },
            threads: match (self.threads, file.threads) {
                (None, Some(t)) => Some(t),
                (cli, _) => cli,
            },
            user_agent: merge_string(self.user_agent, file.user_agent, "curl/7.71.1"),
            insecure: if !self.insecure && file.insecure {
                file.insecure
            } else {
                self.insecure
            },
            scheme: merge_opt_string(self.scheme, file.scheme),
            includes: merge_string_list(self.includes, file.includes),
            exclude: merge_string_list(self.exclude, file.exclude),
            exclude_all_private: if !self.exclude_all_private && file.exclude_all_private {
                file.exclude_all_private
            } else {
                self.exclude_all_private
            },
            exclude_private: if !self.exclude_private && file.exclude_private {
                file.exclude_private
            } else {
                self.exclude_private
            },
            exclude_link_local: if !self.exclude_link_local && file.exclude_link_local {
                file.exclude_link_local
            } else {
                self.exclude_link_local
            },
            exclude_loopback: if !self.exclude_loopback && file.exclude_loopback {
                file.exclude_loopback
            } else {
                self.exclude_loopback
            },
            headers: merge_string_list(self.headers, file.headers),
            accept: merge_opt_string(self.accept, file.accept),
            timeout: merge_string(self.timeout, file.timeout, "20"),
            method: merge_string(self.method, file.method, "get"),
            base_url: merge_opt_string(self.base_url, file.base_url),
            max_concurrency: if self.max_concurrency == 256 && file.max_concurrency != 256 {
                file.max_concurrency
            } else {
                self.max_concurrency
            },
            skip_missing: if !self.skip_missing && file.skip_missing {
                file.skip_missing
            } else {
                self.skip_missing
            },
            github_token: merge_opt_string(self.github_token, file.github_token),
            basic_auth: merge_opt_string(self.basic_auth, file.basic_auth),
        }
    }
}

} // verus!
