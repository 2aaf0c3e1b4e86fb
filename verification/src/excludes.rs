//! The exclusion policy: which URIs a run does not check.
//!
//! Four rules apply, in order, and the first that fires decides: a
//! configured scheme that the URI does not carry; a non-empty include
//! list that nothing matches; an exclude pattern that matches; and an
//! excluded address class of the URI's literal-IP host.

use vstd::prelude::*;

use crate::config::opt_text;
use crate::ip::{
    is_link_local_host, is_loopback_host, is_private_host, spec_is_link_local, spec_is_loopback,
    spec_is_private,
};
use crate::text::{chars_of, eq_chars, str_views};
use crate::uri::{Uri, UriView};

verus! {

#[verifier::external_type_specification]
#[verifier::external_body]
pub struct ExRegexSet(regex::RegexSet);

/// The patterns that a compiled regex set was built from.
pub uninterp spec fn patterns_of(s: regex::RegexSet) -> Seq<Seq<char>>;

/// Whether any of the patterns matches the text.
pub uninterp spec fn regexes_match(patterns: Seq<Seq<char>>, text: Seq<char>) -> bool;

/// Whether a pattern list compiles: every pattern is valid regex
/// syntax and the compiled set fits the default size limit.
pub uninterp spec fn regex_set_ok(patterns: Seq<Seq<char>>) -> bool;

/// Relies on `regex::RegexSet::new`: compilation succeeds or fails as
/// a function of the patterns alone, and a compiled set holds exactly
/// the given patterns.
#[verifier::external_body]
fn compile_set(patterns: &Vec<String>) -> (r: Option<regex::RegexSet>)
    ensures
        r is Some <==> regex_set_ok(str_views(patterns@)),
        r is Some ==> patterns_of(r.unwrap()) == str_views(patterns@),
{
    regex::RegexSet::new(patterns).ok()
}

/// Relies on `regex::RegexSet::is_match`: true if and only if at least
/// one pattern of the set matches the text.
#[verifier::external_body]
fn set_is_match(set: &regex::RegexSet, text: &str) -> (r: bool)
    ensures
        r == regexes_match(patterns_of(*set), text@),
{
    set.is_match(text)
}

/// The rule that excluded a URI.
#[derive(Clone, Copy, Debug, PartialEq, Eq, Structural)]
pub enum ExcludeReason {
    /// A scheme is configured and the URI does not carry it.
    WrongScheme,
    /// Include patterns exist and none of them matches.
    NotIncluded,
    /// An exclude pattern matches.
    Matched,
    /// The URI's host lies in an excluded address class.
    AddressClass,
}

/// The mathematical content of an exclusion policy.
pub struct ExcludesView {
    /// The include patterns; empty allows everything.
    pub includes: Seq<Seq<char>>,
    /// The exclude patterns.
    pub excludes: Seq<Seq<char>>,
    /// The scheme to which a run is restricted, when set.
    pub scheme: Option<Seq<char>>,
    /// Exclude every private address class.
    pub all_private: bool,
    /// Exclude private addresses.
    pub private_ips: bool,
    /// Exclude link-local addresses.
    pub link_local_ips: bool,
    /// Exclude loopback addresses.
    pub loopback_ips: bool,
}

/// Rule one: a scheme is configured and the URI's scheme is another,
/// or the URI has none.
pub open spec fn rule_scheme(v: ExcludesView, uri: UriView) -> bool {
    v.scheme is Some && uri.scheme() != v.scheme
}

/// Rule two: include patterns exist and none matches the URI's text.
pub open spec fn rule_not_included(v: ExcludesView, uri: UriView) -> bool {
    v.includes.len() > 0 && !regexes_match(v.includes, uri.text())
}

/// Rule three: an exclude pattern matches the URI's text.
pub open spec fn rule_excluded_pattern(v: ExcludesView, uri: UriView) -> bool {
    v.excludes.len() > 0 && regexes_match(v.excludes, uri.text())
}

/// Whether a host, as a literal IP, lies in an address class the
/// policy excludes.
pub open spec fn spec_host_class_excluded(v: ExcludesView, h: Seq<char>) -> bool {
    ||| ((v.loopback_ips || v.all_private) && spec_is_loopback(h))
    ||| ((v.link_local_ips || v.all_private) && spec_is_link_local(h))
    ||| ((v.private_ips || v.all_private) && spec_is_private(h))
}

/// Rule four: the URI's host is a literal IP in an excluded class.
pub open spec fn rule_address_class(v: ExcludesView, uri: UriView) -> bool {
    match uri.host() {
        Some(h) => spec_host_class_excluded(v, h),
        None => false,
    }
}

/// The first rule that fires, in the policy's order.
pub open spec fn spec_exclusion_reason(v: ExcludesView, uri: UriView) -> Option<ExcludeReason> {
    if rule_scheme(v, uri) {
        Some(ExcludeReason::WrongScheme)
    } else if rule_not_included(v, uri) {
        Some(ExcludeReason::NotIncluded)
    } else if rule_excluded_pattern(v, uri) {
        Some(ExcludeReason::Matched)
    } else if rule_address_class(v, uri) {
        Some(ExcludeReason::AddressClass)
    } else {
        None
    }
}

/// Whether the policy excludes the URI: some rule fires.
pub open spec fn spec_excluded(v: ExcludesView, uri: UriView) -> bool {
    spec_exclusion_reason(v, uri) is Some
}

/// Law: an empty include list treats every URI as allowed — with no
/// include patterns the include rule can never be what excludes a URI.
pub proof fn lemma_empty_includes_allow(v: ExcludesView, uri: UriView)
    requires
        v.includes.len() == 0,
    ensures
        !rule_not_included(v, uri),
        spec_exclusion_reason(v, uri) != Some(ExcludeReason::NotIncluded),
{
}

/// Law: the rules decide in their stated order — whichever earlier
/// rules do not fire, the reason is the first that does.
pub proof fn lemma_exclusion_precedence(v: ExcludesView, uri: UriView)
    ensures
        rule_scheme(v, uri) ==> spec_exclusion_reason(v, uri) == Some(ExcludeReason::WrongScheme),
        !rule_scheme(v, uri) && rule_not_included(v, uri) ==> spec_exclusion_reason(v, uri) == Some(
            ExcludeReason::NotIncluded,
        ),
        !rule_scheme(v, uri) && !rule_not_included(v, uri) && rule_excluded_pattern(v, uri)
            ==> spec_exclusion_reason(v, uri) == Some(ExcludeReason::Matched),
        !rule_scheme(v, uri) && !rule_not_included(v, uri) && !rule_excluded_pattern(v, uri)
            && rule_address_class(v, uri) ==> spec_exclusion_reason(v, uri) == Some(
            ExcludeReason::AddressClass,
        ),
        spec_excluded(v, uri) <==> (rule_scheme(v, uri) || rule_not_included(v, uri)
            || rule_excluded_pattern(v, uri) || rule_address_class(v, uri)),
{
}

/// A compiled exclusion policy.
pub struct Excludes {
    include_list: Vec<String>,
    include_set: Option<regex::RegexSet>,
    exclude_list: Vec<String>,
    exclude_set: Option<regex::RegexSet>,
    scheme: Option<String>,
    all_private: bool,
    private_ips: bool,
    link_local_ips: bool,
    loopback_ips: bool,
}

impl View for Excludes {
    type V = ExcludesView;

    closed spec fn view(&self) -> ExcludesView {
        ExcludesView {
            includes: str_views(self.include_list@),
            excludes: str_views(self.exclude_list@),
            scheme: opt_text(self.scheme),
            all_private: self.all_private,
            private_ips: self.private_ips,
            link_local_ips: self.link_local_ips,
            loopback_ips: self.loopback_ips,
        }
    }
}

impl Excludes {
    /// The compiled sets hold exactly the kept pattern lists, and a
    /// set exists exactly when its list is non-empty.
    #[verifier::type_invariant]
    spec fn wf(self) -> bool {
        &&& match self.include_set {
            Some(s) => patterns_of(s) == str_views(self.include_list@) && self.include_list@.len()
                > 0,
            None => self.include_list@.len() == 0,
        }
        &&& match self.exclude_set {
            Some(s) => patterns_of(s) == str_views(self.exclude_list@) && self.exclude_list@.len()
                > 0,
            None => self.exclude_list@.len() == 0,
        }
    }

    /// Compiles an exclusion policy: it succeeds exactly when every
    /// non-empty pattern list compiles; the failure is a pattern that
    /// is not valid regex syntax.
    pub fn new(
        includes: Vec<String>,
        excludes: Vec<String>,
        scheme: Option<String>,
        exclude_all_private: bool,
        exclude_private_ips: bool,
        exclude_link_local_ips: bool,
        exclude_loopback_ips: bool,
    ) -> (r: Option<Excludes>)
        ensures
            r is Some <==> ((includes@.len() == 0 || regex_set_ok(str_views(includes@))) && (
            excludes@.len() == 0 || regex_set_ok(str_views(excludes@)))),
            r is Some ==> r.unwrap()@ == (ExcludesView {
                includes: str_views(includes@),
                excludes: str_views(excludes@),
                scheme: opt_text(scheme),
                all_private: exclude_all_private,
                private_ips: exclude_private_ips,
                link_local_ips: exclude_link_local_ips,
                loopback_ips: exclude_loopback_ips,
            }),
    {
        let include_set = if includes.len() > 0 {
            match compile_set(&includes) {
                Some(s) => Some(s),
                None => {
                    return None;
                },
            }
        } else {
            None
        };
        let exclude_set = if excludes.len() > 0 {
            match compile_set(&excludes) {
                Some(s) => Some(s),
                None => {
                    return None;
                },
            }
        } else {
            None
        };
        Some(
            Excludes {
                include_list: includes,
                include_set,
                exclude_list: excludes,
                exclude_set,
                scheme,
                all_private: exclude_all_private,
                private_ips: exclude_private_ips,
                link_local_ips: exclude_link_local_ips,
                loopback_ips: exclude_loopback_ips,
            },
        )
    }

    /// The first rule that excludes the URI, in the policy's order;
    /// `None` when the URI is allowed.
    pub fn exclusion_reason(&self, uri: &Uri) -> (r: Option<ExcludeReason>)
        ensures
            r == spec_exclusion_reason(self@, uri@),
    {
        proof {
            use_type_invariant(self);
        }
        let scheme_fires = match (&self.scheme, uri) {
            (Some(s), Uri::Website(w)) => {
                let a = chars_of(s.as_str());
                let b = chars_of(w.scheme.as_str());
                !eq_chars(&a, &b)
            },
            (Some(_), Uri::Mail(_)) => true,
            (None, _) => false,
        };
        if scheme_fires {
            return Some(ExcludeReason::WrongScheme);
        }
        let include_fires = match &self.include_set {
            Some(set) => !set_is_match(set, uri.as_str()),
            None => false,
        };
        proof {
            if self.include_set is None {
                assert(str_views(self.include_list@).len() == self.include_list@.len());
            }
        }
        if include_fires {
            return Some(ExcludeReason::NotIncluded);
        }
        let exclude_fires = match &self.exclude_set {
            Some(set) => set_is_match(set, uri.as_str()),
            None => false,
        };
        proof {
            if self.exclude_set is None {
                assert(str_views(self.exclude_list@).len() == self.exclude_list@.len());
            }
        }
        if exclude_fires {
            return Some(ExcludeReason::Matched);
        }
        let ip_fires = match uri {
            Uri::Website(w) => match &w.host {
                Some(h) => {
                    let hc = chars_of(h.as_str());
                    ((self.loopback_ips || self.all_private) && is_loopback_host(&hc)) || ((
                    self.link_local_ips || self.all_private) && is_link_local_host(&hc)) || ((
                    self.private_ips || self.all_private) && is_private_host(&hc))
                },
                None => false,
            },
            Uri::Mail(_) => false,
        };
        if ip_fires {
            return Some(ExcludeReason::AddressClass);
        }
        None
    }

    /// Whether a host, given as the text of a literal IP, lies in an
    /// address class the policy excludes. A caller that resolved a
    /// hostname can classify the address it obtained.
    pub fn host_class_excluded(&self, host: &str) -> (r: bool)
        ensures
            r == spec_host_class_excluded(self@, host@),
    {
        let hc = chars_of(host);
        ((self.loopback_ips || self.all_private) && is_loopback_host(&hc)) || ((self.link_local_ips
            || self.all_private) && is_link_local_host(&hc)) || ((self.private_ips
            || self.all_private) && is_private_host(&hc))
    }

    /// Whether the policy excludes the URI.
    pub fn excluded(&self, uri: &Uri) -> (r: bool)
        ensures
            r == spec_excluded(self@, uri@),
    {
        match self.exclusion_reason(uri) {
            Some(_) => true,
            None => false,
        }
    }
}

} // verus!
