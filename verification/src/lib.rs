//! A verified core for a concurrent link checker.
//!
//! The library discovers hyperlinks in Markdown, HTML and plaintext
//! content, decides which of them a run should check, classifies the
//! outcome of each network request, and aggregates the results into
//! statistics. Network and filesystem work is confined to small trusted
//! wrappers around outside crates; everything that decides or computes
//! is verified.

pub mod checker;
pub mod collector;
pub mod config;
pub mod excludes;
pub mod extract;
pub mod ip;
pub mod num;
pub mod pool;
pub mod stats;
pub mod text;
pub mod uri;

pub use checker::Checker;
pub use checker::Response;
pub use checker::Status;
pub use collector::Input;
pub use config::Config;
pub use excludes::Excludes;
pub use extract::FileType;
pub use pool::ClientPool;
pub use stats::ResponseStats;
pub use uri::Uri;

use vstd::prelude::*;

verus! {

/// Checks one URL with a checker built from the default options: no
/// exclusions, ten redirects, a twenty-second deadline. The answer is
/// `None` for text that is not an absolute URL, or when the HTTP
/// client cannot be built; nothing is excluded, so a success is a 2xx
/// code, a redirected outcome an unfollowed 3xx, and a failed outcome
/// any other code.
pub fn check(url: &str) -> (r: Option<Response>)
    ensures
        uri::url_norm(url@) is None ==> r is None,
        r is Some ==> r.unwrap().uri@.text() == uri::url_norm(url@).unwrap(),
        r is Some ==> (r.unwrap().status@ matches checker::StatusView::Success(c) ==> 200 <= c
            < 300),
        r is Some ==> (r.unwrap().status@ matches checker::StatusView::Redirected(c) ==> 300 <= c
            < 400),
        r is Some ==> (r.unwrap().status@ matches checker::StatusView::Failed(c) ==> 100 <= c <= 999
            && !(200 <= c < 400)),
{
    let website = match uri::Website::parse(url) {
        Some(w) => w,
        None => {
            return None;
        },
    };
    let excludes = match excludes::Excludes::new(
        Vec::new(),
        Vec::new(),
        None,
        false,
        false,
        false,
        false,
    ) {
        Some(e) => e,
        None => {
            proof {
                assert(false);
            }
            return None;
        },
    };
    let client = match checker::Checker::try_new(
        None,
        excludes,
        10,
        "curl/7.71.1".to_owned(),
        false,
        Vec::new(),
        "get".to_owned(),
        None,
        20,
        false,
    ) {
        Some(c) => c,
        None => {
            return None;
        },
    };
    Some(client.check(Uri::Website(website)))
}

} // verus!
