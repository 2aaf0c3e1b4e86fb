//! The collector's core: classifying inputs, inferring formats, and
//! uniting the links of many contents into one deduplicated set.
//!
//! Reading files, expanding globs and fetching remote inputs is I/O
//! and lives with the caller; what is verified here is every decision
//! that follows from the data itself.

use vstd::prelude::*;

use crate::extract::{
    extract_links, extracted_contains, spec_base_text, FileType, InputContent,
};
use crate::text::{chars_eq_str, chars_of, lemma_contains_push, spec_starts_with, starts_with, str_views};
use crate::uri::{uri_views, website_wf, Uri, UriView, Website};
use crate::uri::url_norm;

verus! {

/// One source of content to scan for links.
#[derive(Debug)]
pub enum Input {
    /// A URL to fetch; its body becomes content.
    RemoteUrl(String),
    /// A file to read.
    FilePath(String),
    /// A glob pattern; every match is a file to read.
    Glob(String),
    /// The standard input.
    Stdin,
    /// Content given directly, with its format.
    Text(String, FileType),
}

/// The format that a Content-Type header selects: `text/html` is
/// HTML, `text/markdown` is Markdown, everything else is plaintext.
pub open spec fn spec_content_type_file_type(ct: Seq<char>) -> FileType {
    if spec_starts_with(ct, "text/html"@) {
        FileType::HTML
    } else if spec_starts_with(ct, "text/markdown"@) {
        FileType::Markdown
    } else {
        FileType::Plaintext
    }
}

/// Infers a fetched body's format from its Content-Type header.
pub fn file_type_from_content_type(ct: &str) -> (r: FileType)
    ensures
        r == spec_content_type_file_type(ct@),
{
    let cs = chars_of(ct);
    if starts_with(&cs, "text/html") {
        FileType::HTML
    } else if starts_with(&cs, "text/markdown") {
        FileType::Markdown
    } else {
        FileType::Plaintext
    }
}

/// How a textual input is read: `-` is the standard input, an
/// absolute URL is fetched, anything else is a glob over files.
pub fn classify_input(s: &str) -> (r: Input)
    ensures
        s@ == "-"@ ==> r is Stdin,
        s@ != "-"@ && url_norm(s@) is Some ==> (r matches Input::RemoteUrl(u) && u@ == s@),
        s@ != "-"@ && url_norm(s@) is None ==> (r matches Input::Glob(p) && p@ == s@),
{
    let cs = chars_of(s);
    if chars_eq_str(&cs, "-") {
        return Input::Stdin;
    }
    match Website::parse(s) {
        Some(_) => Input::RemoteUrl(s.to_owned()),
        None => Input::Glob(s.to_owned()),
    }
}

/// Whether `u` is among the links of any of the contents, with
/// `local` the candidates that name existing local paths.
pub open spec fn collected_contains(
    contents: Seq<InputContent>,
    base: Option<Seq<char>>,
    local: Seq<Seq<char>>,
    u: UriView,
) -> bool {
    exists|j: int|
        0 <= j < contents.len() && extracted_contains(
            (#[trigger] contents[j]).content@,
            contents[j].file_type,
            base,
            local,
            u,
        )
}

/// Extracts the links of every content and unites them into one
/// deduplicated set; every website member is well formed.
pub fn collect_links(
    contents: &Vec<InputContent>,
    base_url: Option<&Website>,
    local_paths: &Vec<String>,
) -> (r: Vec<Uri>)
    ensures
        uri_views(r@).no_duplicates(),
        forall|u: UriView| #[trigger]
            uri_views(r@).contains(u) <==> collected_contains(
                contents@,
                spec_base_text(base_url),
                str_views(local_paths@),
                u,
            ),
        forall|u: UriView| #[trigger] uri_views(r@).contains(u) ==> website_wf(u),
{
    let mut out: Vec<Uri> = Vec::new();
    let n = contents.len();
    let mut i: usize = 0;
    while i < n
        invariant
            n == contents@.len(),
            i <= n,
            uri_views(out@).no_duplicates(),
            forall|u: UriView| #[trigger]
                uri_views(out@).contains(u) <==> (exists|j: int|
                    0 <= j < i && extracted_contains(
                        (#[trigger] contents@[j]).content@,
                        contents@[j].file_type,
                        spec_base_text(base_url),
                        str_views(local_paths@),
                        u,
                    )),
            forall|u: UriView| #[trigger] uri_views(out@).contains(u) ==> website_wf(u),
        decreases n - i,
    {
        let mut found = extract_links(&contents[i], base_url, local_paths);
        let m = found.len();
        let ghost gfound = uri_views(found@);
        let mut k: usize = 0;
        proof {
            assert(gfound.skip(0) =~= gfound);
            assert(gfound.subrange(0, 0) =~= Seq::<UriView>::empty());
        }
        while k < m
            invariant
                n == contents@.len(),
                i < n,
                m == gfound.len(),
                k <= m,
                found@.len() == m - k,
                uri_views(found@) == gfound.skip(k as int),
                forall|w: UriView| #[trigger]
                    gfound.contains(w) <==> extracted_contains(
                        contents@[i as int].content@,
                        contents@[i as int].file_type,
                        spec_base_text(base_url),
                        str_views(local_paths@),
                        w,
                    ),
                forall|w: UriView| #[trigger] gfound.contains(w) ==> website_wf(w),
                uri_views(out@).no_duplicates(),
                forall|u: UriView| #[trigger]
                    uri_views(out@).contains(u) <==> ((exists|j: int|
                        0 <= j < i && extracted_contains(
                            (#[trigger] contents@[j]).content@,
                            contents@[j].file_type,
                            spec_base_text(base_url),
                            str_views(local_paths@),
                            u,
                        )) || gfound.subrange(0, k as int).contains(u)),
                forall|u: UriView| #[trigger] uri_views(out@).contains(u) ==> website_wf(u),
            decreases m - k,
        {
            let ghost old_views = uri_views(out@);
            proof {
                assert(uri_views(found@)[0] == found@[0]@);
                assert(found@[0]@ == gfound[k as int]);
            }
            let ghost gprev = found@;
            let u = found.remove(0);
            proof {
                assert(u@ == gfound[k as int]);
                assert(found@ =~= gprev.remove(0));
                assert forall|t: int| 0 <= t < found@.len() implies uri_views(found@)[t]
                    == gfound.skip(k as int + 1)[t] by {
                    assert(found@[t] == gprev[t + 1]);
                    assert(uri_views(gprev)[t + 1] == gprev[t + 1]@);
                }
                assert(uri_views(found@) =~= gfound.skip(k as int + 1));
                assert(gfound.subrange(0, k as int + 1) =~= gfound.subrange(0, k as int).push(
                    gfound[k as int],
                ));
            }
            if !crate::extract::vec_contains_uri(&out, &u) {
                out.push(u);
                proof {
                    let new_views = uri_views(out@);
                    assert(new_views =~= old_views.push(gfound[k as int]));
                    assert forall|w: UriView| #[trigger]
                        new_views.contains(w) <==> ((exists|j: int|
                            0 <= j < i && extracted_contains(
                                (#[trigger] contents@[j]).content@,
                                contents@[j].file_type,
                                spec_base_text(base_url),
                                str_views(local_paths@),
                                w,
                            )) || gfound.subrange(0, k as int + 1).contains(w)) by {
                        lemma_contains_push(old_views, gfound[k as int], w);
                        lemma_contains_push(gfound.subrange(0, k as int), gfound[k as int], w);
                    }
                    assert(gfound.contains(gfound[k as int]));
                    assert forall|w: UriView| #[trigger]
                        new_views.contains(w) implies website_wf(w) by {
                        lemma_contains_push(old_views, gfound[k as int], w);
                    }
                }
            } else {
                proof {
                    assert(uri_views(out@).contains(gfound[k as int]));
                    assert forall|w: UriView| #[trigger]
                        uri_views(out@).contains(w) <==> ((exists|j: int|
                            0 <= j < i && extracted_contains(
                                (#[trigger] contents@[j]).content@,
                                contents@[j].file_type,
                                spec_base_text(base_url),
                                str_views(local_paths@),
                                w,
                            )) || gfound.subrange(0, k as int + 1).contains(w)) by {
                        lemma_contains_push(gfound.subrange(0, k as int), gfound[k as int], w);
                    }
                }
            }
            k = k + 1;
        }
        proof {
            assert(gfound.subrange(0, m as int) =~= gfound);
            assert forall|u: UriView| #[trigger]
                uri_views(out@).contains(u) <==> (exists|j: int|
                    0 <= j < i + 1 && extracted_contains(
                        (#[trigger] contents@[j]).content@,
                        contents@[j].file_type,
                        spec_base_text(base_url),
                        str_views(local_paths@),
                        u,
                    )) by {
                if uri_views(out@).contains(u) {
                    if gfound.contains(u) {
                        assert(extracted_contains(
                            (contents@[i as int]).content@,
                            contents@[i as int].file_type,
                            spec_base_text(base_url),
                            str_views(local_paths@),
                            u,
                        ));
                    }
                }
                if exists|j: int|
                    0 <= j < i + 1 && extracted_contains(
                        (#[trigger] contents@[j]).content@,
                        contents@[j].file_type,
                        spec_base_text(base_url),
                        str_views(local_paths@),
                        u,
                    ) {
                    let j = choose|j: int|
                        0 <= j < i + 1 && extracted_contains(
                            (#[trigger] contents@[j]).content@,
                            contents@[j].file_type,
                            spec_base_text(base_url),
                            str_views(local_paths@),
                            u,
                        );
                    if j == i {
                        assert(gfound.contains(u));
                    }
                }
            }
        }
        i = i + 1;
    }
    out
}

} // verus!
