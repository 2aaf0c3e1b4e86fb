//! Link extraction: file types and the format-dispatched extractor.

use vstd::prelude::*;

use crate::text::{
    after_last, chars_eq_str, chars_of, lemma_after_last_absent, lemma_after_last_at, rfind_char,
    subrange_chars,
};
use crate::text::{contains_char, contains_string, str_views, substr_at};
use crate::uri::{
    uri_eq, uri_views, url_joined, url_norm, website_view_of, website_wf, Uri, UriView, Website,
};
use html5ever::tendril::TendrilSink;
use markup5ever_rcdom::NodeData;

verus! {

/// The format of a piece of input content, deciding which extractor runs.
#[derive(Clone, Copy, Debug, PartialEq, Eq, Structural)]
pub enum FileType {
    HTML,
    Markdown,
    Plaintext,
}

impl Default for FileType {
    /// Content of unknown origin is treated as plaintext.
    fn default() -> (r: Self)
        ensures
            r == FileType::Plaintext,
    {
        FileType::Plaintext
    }
}

/// The last component of a path: everything after the final `/`.
pub open spec fn spec_last_component(path: Seq<char>) -> Seq<char> {
    after_last(path, '/')
}

/// The extension of a file name: what follows the last `.`, provided the
/// dot is neither the first character nor absent.
pub open spec fn spec_extension(name: Seq<char>) -> Option<Seq<char>>
    decreases name.len(),
{
    if name.len() <= 1 {
        None
    } else if name.last() == '.' {
        None
    } else {
        match spec_extension(name.drop_last()) {
            Some(ext) => Some(ext.push(name.last())),
            None => {
                if name.len() >= 3 && name[name.len() - 2] == '.' {
                    Some(seq![name.last()])
                } else {
                    None
                }
            },
        }
    }
}

/// The file type a path's extension selects: `md` is Markdown, `htm` and
/// `html` are HTML, everything else is plaintext.
pub open spec fn spec_file_type(path: Seq<char>) -> FileType {
    match spec_extension(spec_last_component(path)) {
        Some(ext) => {
            if ext == "md"@ {
                FileType::Markdown
            } else if ext == "htm"@ || ext == "html"@ {
                FileType::HTML
            } else {
                FileType::Plaintext
            }
        },
        None => FileType::Plaintext,
    }
}

/// A piece of content together with the format it is read as.
#[derive(Debug)]
pub struct InputContent {
    pub file_type: FileType,
    pub content: String,
}

impl InputContent {
    /// Wraps a string as content of the given format.
    pub fn from_string(s: &str, file_type: FileType) -> (r: InputContent)
        ensures
            r.content@ == s@,
            r.file_type == file_type,
    {
        InputContent { file_type, content: s.to_owned() }
    }
}

/// One parse event of interest from a Markdown document.
#[derive(Debug)]
pub enum MdToken {
    /// The URL of a link or image node.
    Url(String),
    /// An inline text span.
    Text(String),
    /// A raw HTML block or span.
    Html(String),
}

/// The mathematical content of an `MdToken`.
pub enum MdTokenView {
    Url(Seq<char>),
    Text(Seq<char>),
    Html(Seq<char>),
}

impl View for MdToken {
    type V = MdTokenView;

    open spec fn view(&self) -> MdTokenView {
        match self {
            MdToken::Url(s) => MdTokenView::Url(s@),
            MdToken::Text(s) => MdTokenView::Text(s@),
            MdToken::Html(s) => MdTokenView::Html(s@),
        }
    }
}

/// One node of a parsed HTML document, flattened out of the tree.
#[derive(Debug)]
pub enum HtmlNode {
    /// A text node, rendered with `escape_default`.
    Text(String),
    /// A comment, rendered with `escape_default`.
    Comment(String),
    /// An element: its local name and its attributes as name/value
    /// pairs, the values rendered with `escape_default`.
    Element(String, Vec<(String, String)>),
}

/// The mathematical content of an `HtmlNode`.
pub enum HtmlNodeView {
    Text(Seq<char>),
    Comment(Seq<char>),
    Element(Seq<char>, Seq<(Seq<char>, Seq<char>)>),
}

impl View for HtmlNode {
    type V = HtmlNodeView;

    open spec fn view(&self) -> HtmlNodeView {
        match self {
            HtmlNode::Text(s) => HtmlNodeView::Text(s@),
            HtmlNode::Comment(s) => HtmlNodeView::Comment(s@),
            HtmlNode::Element(name, attrs) => HtmlNodeView::Element(
                name@,
                attr_views(attrs@),
            ),
        }
    }
}

/// The views of a sequence of markdown tokens.
pub open spec fn token_views(s: Seq<MdToken>) -> Seq<MdTokenView> {
    s.map_values(|t: MdToken| t@)
}

/// The views of a sequence of HTML nodes.
pub open spec fn node_views(s: Seq<HtmlNode>) -> Seq<HtmlNodeView> {
    s.map_values(|n: HtmlNode| n@)
}

/// The views of a sequence of attribute name/value pairs.
pub open spec fn attr_views(s: Seq<(String, String)>) -> Seq<(Seq<char>, Seq<char>)> {
    s.map_values(|p: (String, String)| (p.0@, p.1@))
}

/// The URL- and email-shaped tokens that a plaintext holds.
pub uninterp spec fn plain_candidates(s: Seq<char>) -> Seq<Seq<char>>;

/// The link, text and raw-HTML events of a Markdown document.
pub uninterp spec fn md_tokens_of(s: Seq<char>) -> Seq<MdTokenView>;

/// The nodes of a permissively parsed HTML document, flattened.
pub uninterp spec fn html_nodes_of(s: Seq<char>) -> Seq<HtmlNodeView>;

/// Relies on `linkify::LinkFinder::links`: the URL- and email-shaped
/// tokens of a plaintext, in order, without trailing punctuation; each
/// token is a non-empty span of the input.
#[verifier::external_body]
fn find_links(input: &str) -> (r: Vec<String>)
    ensures
        str_views(r@) == plain_candidates(input@),
        forall|i: int|
            0 <= i < r@.len() ==> (#[trigger] r@[i])@.len() > 0 && (exists|j: int|
                substr_at(input@, r@[i]@, j)),
{
    let finder = linkify::LinkFinder::new();
    finder.links(input).map(|l| String::from(l.as_str())).collect()
}

/// Relies on `pulldown_cmark::Parser`: the CommonMark events of the
/// document, of which link and image URLs, text spans and raw HTML
/// spans are kept, in order.
#[verifier::external_body]
fn md_token_stream(input: &str) -> (r: Vec<MdToken>)
    ensures
        token_views(r@) == md_tokens_of(input@),
{
    let mut out = Vec::new();
    for ev in pulldown_cmark::Parser::new(input) {
        match ev {
            pulldown_cmark::Event::Start(pulldown_cmark::Tag::Link(_, url, _))
            | pulldown_cmark::Event::Start(pulldown_cmark::Tag::Image(_, url, _)) => out.push(MdToken::Url(url.to_string())),
            pulldown_cmark::Event::Text(t) => out.push(MdToken::Text(t.to_string())),
            pulldown_cmark::Event::Html(h) => out.push(MdToken::Html(h.to_string())),
            _ => {},
        }
    }
    out
}

#[verifier::external_type_specification]
#[verifier::external_body]
pub struct ExNode(markup5ever_rcdom::Node);

/// Relies on the `markup5ever_rcdom::NodeData` of a parsed node: its
/// text, comment text, or element name and attributes, the text
/// rendered with `escape_default`.
#[verifier::external_body]
fn node_data(n: &markup5ever_rcdom::Handle) -> (r: Option<HtmlNode>) {
    match &n.data {
        NodeData::Text { contents } => Some(HtmlNode::Text(contents.borrow().escape_default().to_string())),
        NodeData::Comment { contents } => Some(HtmlNode::Comment(contents.escape_default().to_string())),
        NodeData::Element { name, attrs, .. } => Some(HtmlNode::Element((&*name.local).to_string(),
            attrs.borrow().iter().map(|a| ((&*a.name.local).to_string(), a.value.escape_default().to_string())).collect())),
        _ => None,
    }
}

/// Relies on `html5ever::parse_document` driving a
/// `markup5ever_rcdom::RcDom`: parses HTML5 permissively and flattens
/// the tree into the data of every node.
#[verifier::external_body]
fn html_node_list(input: &str) -> (r: Vec<HtmlNode>)
    ensures
        node_views(r@) == html_nodes_of(input@),
{
    let dom = html5ever::parse_document(markup5ever_rcdom::RcDom::default(), Default::default()).one(html5ever::tendril::StrTendril::from(input));
    let mut out: Vec<HtmlNode> = Vec::new();
    let mut stack = vec![dom.document.clone()];
    while let Some(n) = stack.pop() {
        match node_data(&n) {
            Some(node) => out.push(node),
            None => {},
        }
        for c in n.children.borrow().iter() { stack.push(c.clone()); }
    }
    out
}

/// Whether the value of attribute `attr` on element `elem` is treated
/// as a link outright (rather than scanned as plaintext).
pub open spec fn spec_attr_is_link(attr: Seq<char>, elem: Seq<char>) -> bool {
    ||| attr == "href"@
    ||| attr == "src"@
    ||| attr == "srcset"@
    ||| attr == "cite"@
    ||| (attr == "data"@ && elem == "object"@)
    ||| (attr == "onhashchange"@ && elem == "body"@)
}

/// Decides whether an element's attribute always holds a link.
pub fn elem_attr_is_link(attr_name: &str, elem_name: &str) -> (r: bool)
    ensures
        r == spec_attr_is_link(attr_name@, elem_name@),
{
    let attr = chars_of(attr_name);
    let elem = chars_of(elem_name);
    chars_eq_str(&attr, "href") || chars_eq_str(&attr, "src") || chars_eq_str(&attr, "srcset")
        || chars_eq_str(&attr, "cite") || (chars_eq_str(&attr, "data") && chars_eq_str(
        &elem,
        "object",
    )) || (chars_eq_str(&attr, "onhashchange") && chars_eq_str(&elem, "body"))
}

/// The candidate strings contributed by one element's attributes: link
/// attributes contribute their value, every other value is scanned as
/// plaintext.
pub open spec fn attr_candidates(elem: Seq<char>, attrs: Seq<(Seq<char>, Seq<char>)>) -> Seq<
    Seq<char>,
>
    decreases attrs.len(),
{
    if attrs.len() == 0 {
        Seq::<Seq<char>>::empty()
    } else {
        attr_candidates(elem, attrs.drop_last()) + (if spec_attr_is_link(
            attrs.last().0,
            elem,
        ) {
            seq![attrs.last().1]
        } else {
            plain_candidates(attrs.last().1)
        })
    }
}

/// The candidate strings of a flattened HTML document: text and
/// comments are scanned as plaintext, elements contribute through
/// their attributes.
pub open spec fn html_candidates(nodes: Seq<HtmlNodeView>) -> Seq<Seq<char>>
    decreases nodes.len(),
{
    if nodes.len() == 0 {
        Seq::<Seq<char>>::empty()
    } else {
        html_candidates(nodes.drop_last()) + (match nodes.last() {
            HtmlNodeView::Text(t) => plain_candidates(t),
            HtmlNodeView::Comment(t) => plain_candidates(t),
            HtmlNodeView::Element(name, attrs) => attr_candidates(name, attrs),
        })
    }
}

/// Scans a plaintext for URL- and email-shaped tokens: each is a
/// non-empty span of the input.
pub fn extract_links_from_plaintext(input: &str) -> (r: Vec<String>)
    ensures
        str_views(r@) == plain_candidates(input@),
        forall|i: int|
            0 <= i < r@.len() ==> (#[trigger] r@[i])@.len() > 0 && (exists|j: int|
                substr_at(input@, r@[i]@, j)),
{
    find_links(input)
}

/// The candidate strings of one flattened HTML node.
fn node_candidates(node: &HtmlNode) -> (r: Vec<String>)
    ensures
        str_views(r@) == (match node@ {
            HtmlNodeView::Text(t) => plain_candidates(t),
            HtmlNodeView::Comment(t) => plain_candidates(t),
            HtmlNodeView::Element(name, attrs) => attr_candidates(name, attrs),
        }),
{
    match node {
        HtmlNode::Text(t) => extract_links_from_plaintext(t.as_str()),
        HtmlNode::Comment(t) => extract_links_from_plaintext(t.as_str()),
        HtmlNode::Element(name, attrs) => {
            let mut r: Vec<String> = Vec::new();
            let ghost gattrs = attr_views(attrs@);
            let n = attrs.len();
            let mut i: usize = 0;
            while i < n
                invariant
                    n == attrs@.len(),
                    i <= n,
                    gattrs == attr_views(attrs@),
                    str_views(r@) == attr_candidates(
                        name@,
                        gattrs.subrange(0, i as int),
                    ),
                decreases n - i,
            {
                proof {
                    assert(gattrs.subrange(0, i + 1).drop_last() =~= gattrs.subrange(0, i as int));
                    assert(gattrs.subrange(0, i + 1).last() == gattrs[i as int]);
                }
                let pair = &attrs[i];
                if elem_attr_is_link(pair.0.as_str(), name.as_str()) {
                    r.push(pair.1.clone());
                } else {
                    let mut found = extract_links_from_plaintext(pair.1.as_str());
                    r.append(&mut found);
                }
                i = i + 1;
                proof {
                    assert(str_views(r@) =~= attr_candidates(
                        name@,
                        gattrs.subrange(0, i as int),
                    ));
                }
            }
            proof {
                assert(gattrs.subrange(0, n as int) =~= gattrs);
            }
            r
        },
    }
}

/// The candidate strings of a list of flattened HTML nodes.
fn nodes_candidates(nodes: &Vec<HtmlNode>) -> (r: Vec<String>)
    ensures
        str_views(r@) == html_candidates(
            node_views(nodes@),
        ),
{
    let mut r: Vec<String> = Vec::new();
    let ghost gnodes = node_views(nodes@);
    let n = nodes.len();
    let mut i: usize = 0;
    while i < n
        invariant
            n == nodes@.len(),
            i <= n,
            gnodes == node_views(nodes@),
            str_views(r@) == html_candidates(gnodes.subrange(0, i as int)),
        decreases n - i,
    {
        proof {
            assert(gnodes.subrange(0, i + 1).drop_last() =~= gnodes.subrange(0, i as int));
            assert(gnodes.subrange(0, i + 1).last() == gnodes[i as int]);
        }
        let mut found = node_candidates(&nodes[i]);
        r.append(&mut found);
        i = i + 1;
        proof {
            assert(str_views(r@) =~= html_candidates(gnodes.subrange(0, i as int)));
        }
    }
    proof {
        assert(gnodes.subrange(0, n as int) =~= gnodes);
    }
    r
}

/// Extracts candidate strings from an HTML document.
pub fn extract_links_from_html(input: &str) -> (r: Vec<String>)
    ensures
        str_views(r@) == html_candidates(html_nodes_of(input@)),
{
    let nodes = html_node_list(input);
    nodes_candidates(&nodes)
}

proof fn lemma_extension_at(name: Seq<char>, d: int)
    requires
        1 <= d < name.len() - 1,
        name[d] == '.',
        forall|j: int| d < j < name.len() ==> name[j] != '.',
    ensures
        spec_extension(name) == Some(name.subrange(d + 1, name.len() as int)),
    decreases name.len(),
{
    assert(name.last() != '.');
    let prefix = name.drop_last();
    if d == name.len() - 2 {
        assert(prefix.last() == '.');
        assert(spec_extension(prefix) is None);
        assert(seq![name.last()] =~= name.subrange(d + 1, name.len() as int));
    } else {
        assert(prefix[d] == '.');
        lemma_extension_at(prefix, d);
        assert(prefix.subrange(d + 1, prefix.len() as int).push(name.last()) =~= name.subrange(
            d + 1,
            name.len() as int,
        ));
    }
}

proof fn lemma_extension_none(name: Seq<char>)
    requires
        forall|j: int| 1 <= j < name.len() ==> name[j] != '.',
    ensures
        spec_extension(name) is None,
    decreases name.len(),
{
    if name.len() > 1 {
        assert(name.last() != '.');
        lemma_extension_none(name.drop_last());
    }
}

impl FileType {
    /// The file type that a path selects through its extension.
    pub fn from_path(path: &str) -> (r: FileType)
        ensures
            r == spec_file_type(path@),
    {
        let cs = chars_of(path);
        let cn = cs.len();
        let comp = match rfind_char(&cs, '/') {
            Some(i) => {
                proof {
                    lemma_after_last_at(cs@, '/', i as int);
                }
                subrange_chars(&cs, i + 1, cn)
            },
            None => {
                proof {
                    lemma_after_last_absent(cs@, '/');
                    assert(cs@.subrange(0, cs@.len() as int) =~= cs@);
                }
                subrange_chars(&cs, 0, cn)
            },
        };
        let ext: Option<Vec<char>> = match rfind_char(&comp, '.') {
            Some(d) => {
                if 1 <= d && d + 1 < comp.len() {
                    proof {
                        lemma_extension_at(comp@, d as int);
                    }
                    Some(subrange_chars(&comp, d + 1, comp.len()))
                } else if d == 0 {
                    proof {
                        lemma_extension_none(comp@);
                    }
                    None
                } else {
                    // a trailing dot: no extension by definition
                    None
                }
            },
            None => {
                proof {
                    lemma_extension_none(comp@);
                }
                None
            },
        };
        match ext {
            Some(e) => {
                if chars_eq_str(&e, "md") {
                    FileType::Markdown
                } else if chars_eq_str(&e, "htm") {
                    FileType::HTML
                } else if chars_eq_str(&e, "html") {
                    FileType::HTML
                } else {
                    FileType::Plaintext
                }
            },
            None => FileType::Plaintext,
        }
    }
}

/// The candidate strings of a Markdown token stream: link and image
/// URLs are taken outright, text spans are scanned as plaintext, raw
/// HTML spans are scanned as HTML.
pub open spec fn md_candidates(tokens: Seq<MdTokenView>) -> Seq<Seq<char>>
    decreases tokens.len(),
{
    if tokens.len() == 0 {
        Seq::<Seq<char>>::empty()
    } else {
        md_candidates(tokens.drop_last()) + (match tokens.last() {
            MdTokenView::Url(u) => seq![u],
            MdTokenView::Text(t) => plain_candidates(t),
            MdTokenView::Html(h) => html_candidates(html_nodes_of(h)),
        })
    }
}

/// Extracts candidate strings from a Markdown document.
pub fn extract_links_from_markdown(input: &str) -> (r: Vec<String>)
    ensures
        str_views(r@) == md_candidates(md_tokens_of(input@)),
{
    let tokens = md_token_stream(input);
    let mut r: Vec<String> = Vec::new();
    let ghost gtokens = token_views(tokens@);
    let n = tokens.len();
    let mut i: usize = 0;
    while i < n
        invariant
            n == tokens@.len(),
            i <= n,
            gtokens == token_views(tokens@),
            str_views(r@) == md_candidates(gtokens.subrange(0, i as int)),
        decreases n - i,
    {
        proof {
            assert(gtokens.subrange(0, i + 1).drop_last() =~= gtokens.subrange(0, i as int));
            assert(gtokens.subrange(0, i + 1).last() == gtokens[i as int]);
        }
        match &tokens[i] {
            MdToken::Url(u) => {
                r.push(u.clone());
            },
            MdToken::Text(t) => {
                let mut found = extract_links_from_plaintext(t.as_str());
                r.append(&mut found);
            },
            MdToken::Html(h) => {
                let mut found = extract_links_from_html(h.as_str());
                r.append(&mut found);
            },
        }
        i = i + 1;
        proof {
            assert(str_views(r@) =~= md_candidates(gtokens.subrange(0, i as int)));
        }
    }
    proof {
        assert(gtokens.subrange(0, n as int) =~= gtokens);
    }
    r
}

/// The candidate strings of a piece of content, by its format.
pub open spec fn spec_candidates(content: Seq<char>, ft: FileType) -> Seq<Seq<char>> {
    match ft {
        FileType::Markdown => md_candidates(md_tokens_of(content)),
        FileType::HTML => html_candidates(html_nodes_of(content)),
        FileType::Plaintext => plain_candidates(content),
    }
}

/// The URI that one raw candidate string yields, if any: an absolute
/// URL parses as a website; else text with an `@` is a mail address;
/// else, when the candidate names no existing local path and a base
/// URL is set, the candidate is resolved against the base; else the
/// candidate is dropped. `local` holds the candidates that name
/// existing local paths, as the caller found them.
pub open spec fn spec_candidate_uri(
    c: Seq<char>,
    base: Option<Seq<char>>,
    local: Seq<Seq<char>>,
) -> Option<UriView> {
    if url_norm(c) is Some {
        Some(UriView::Website(website_view_of(url_norm(c).unwrap())))
    } else if c.contains('@') {
        Some(UriView::Mail(c))
    } else if !local.contains(c) {
        match base {
            Some(b) => match url_joined(b, c) {
                Some(j) => Some(UriView::Website(website_view_of(j))),
                None => None,
            },
            None => None,
        }
    } else {
        None
    }
}

/// The base URL text that an optional base website carries.
pub open spec fn spec_base_text(base: Option<&Website>) -> Option<Seq<char>> {
    match base {
        Some(w) => Some(w.url@),
        None => None,
    }
}

/// Turns one raw candidate string into a URI, when it yields one;
/// every website it yields is well formed.
fn candidate_uri(c: &str, base: Option<&Website>, local: &Vec<String>) -> (r: Option<Uri>)
    ensures
        match r {
            Some(u) => spec_candidate_uri(c@, spec_base_text(base), str_views(local@)) == Some(u@)
                && website_wf(u@),
            None => spec_candidate_uri(c@, spec_base_text(base), str_views(local@)) is None,
        },
{
    match Website::parse(c) {
        Some(w) => Some(Uri::Website(w)),
        None => {
            let cs = chars_of(c);
            if contains_char(&cs, '@') {
                Some(Uri::Mail(c.to_owned()))
            } else if !contains_string(local, c) {
                match base {
                    Some(b) => match Website::join(b.url.as_str(), c) {
                        Some(w) => Some(Uri::Website(w)),
                        None => None,
                    },
                    None => None,
                }
            } else {
                None
            }
        },
    }
}

/// Whether `u` is among the URIs extracted from `content` read as
/// `ft` under base `base`, with `local` the candidates that name
/// existing local paths.
pub open spec fn extracted_contains(
    content: Seq<char>,
    ft: FileType,
    base: Option<Seq<char>>,
    local: Seq<Seq<char>>,
    u: UriView,
) -> bool {
    exists|i: int|
        0 <= i < spec_candidates(content, ft).len() && spec_candidate_uri(
            #[trigger] spec_candidates(content, ft)[i],
            base,
            local,
        ) == Some(u)
}

/// The raw candidate strings of a piece of content, before
/// normalization: what the format-dispatched scan finds.
pub fn candidates_of(input_content: &InputContent) -> (r: Vec<String>)
    ensures
        str_views(r@) == spec_candidates(input_content.content@, input_content.file_type),
{
    match input_content.file_type {
        FileType::Markdown => extract_links_from_markdown(input_content.content.as_str()),
        FileType::HTML => extract_links_from_html(input_content.content.as_str()),
        FileType::Plaintext => extract_links_from_plaintext(input_content.content.as_str()),
    }
}

/// Whether the vector already holds this endpoint.
pub(crate) fn vec_contains_uri(v: &Vec<Uri>, u: &Uri) -> (r: bool)
    ensures
        r == uri_views(v@).contains(u@),
{
    let n = v.len();
    let mut i: usize = 0;
    while i < n
        invariant
            n == v@.len(),
            i <= n,
            forall|j: int| 0 <= j < i ==> #[trigger] v@[j]@ != u@,
        decreases n - i,
    {
        if uri_eq(&v[i], u) {
            proof {
                assert(uri_views(v@)[i as int] == u@);
            }
            return true;
        }
        i = i + 1;
    }
    proof {
        assert forall|j: int| 0 <= j < v@.len() implies #[trigger] uri_views(v@)[j]
            != u@ by {
            assert(v@[j]@ != u@);
        }
    }
    false
}

/// Extracts the set of checkable URIs from a piece of content.
///
/// Every candidate the format-dispatched scan finds is normalized as
/// `spec_candidate_uri` says, with `local_paths` holding the
/// candidates that name existing local paths; the result holds each
/// extracted URI exactly once, and every website member is well
/// formed.
pub fn extract_links(
    input_content: &InputContent,
    base_url: Option<&Website>,
    local_paths: &Vec<String>,
) -> (r: Vec<Uri>)
    ensures
        uri_views(r@).no_duplicates(),
        forall|u: UriView| #[trigger]
            uri_views(r@).contains(u) <==> extracted_contains(
                input_content.content@,
                input_content.file_type,
                spec_base_text(base_url),
                str_views(local_paths@),
                u,
            ),
        forall|u: UriView| #[trigger] uri_views(r@).contains(u) ==> website_wf(u),
{
    let candidates: Vec<String> = candidates_of(input_content);
    let ghost cands = spec_candidates(input_content.content@, input_content.file_type);
    proof {
        assert(str_views(candidates@) == cands);
    }
    let mut out: Vec<Uri> = Vec::new();
    let n = candidates.len();
    let mut i: usize = 0;
    while i < n
        invariant
            n == candidates@.len(),
            i <= n,
            str_views(candidates@) == cands,
            uri_views(out@).no_duplicates(),
            forall|u: UriView| #[trigger]
                uri_views(out@).contains(u) <==> (exists|j: int|
                    0 <= j < i && spec_candidate_uri(
                        #[trigger] cands[j],
                        spec_base_text(base_url),
                        str_views(local_paths@),
                    ) == Some(u)),
            forall|u: UriView| #[trigger] uri_views(out@).contains(u) ==> website_wf(u),
        decreases n - i,
    {
        let ghost old_views = uri_views(out@);
        proof {
            assert(cands[i as int] == str_views(candidates@)[i as int]);
        }
        match candidate_uri(candidates[i].as_str(), base_url, local_paths) {
            Some(u) => {
                let ghost uv = u@;
                if !vec_contains_uri(&out, &u) {
                    out.push(u);
                    proof {
                        let new_views = uri_views(out@);
                        assert(new_views =~= old_views.push(uv));
                        assert forall|w: UriView| #[trigger]
                            new_views.contains(w) implies website_wf(w) by {
                            crate::text::lemma_contains_push(old_views, uv, w);
                        }
                        assert forall|w: UriView| #[trigger]
                            new_views.contains(w) <==> (exists|j: int|
                                0 <= j < i + 1 && spec_candidate_uri(
                                    #[trigger] cands[j],
                                    spec_base_text(base_url),
                                    str_views(local_paths@),
                                ) == Some(w)) by {
                            if new_views.contains(w) {
                                let k = choose|k: int|
                                    0 <= k < new_views.len() && new_views[k] == w;
                                if k < old_views.len() {
                                    assert(old_views.contains(w));
                                } else {
                                    assert(spec_candidate_uri(
                                        cands[i as int],
                                        spec_base_text(base_url),
                                        str_views(local_paths@),
                                    ) == Some(w));
                                }
                            }
                            if exists|j: int|
                                0 <= j < i + 1 && spec_candidate_uri(
                                    #[trigger] cands[j],
                                    spec_base_text(base_url),
                                    str_views(local_paths@),
                                ) == Some(w) {
                                let j = choose|j: int|
                                    0 <= j < i + 1 && spec_candidate_uri(
                                        #[trigger] cands[j],
                                        spec_base_text(base_url),
                                        str_views(local_paths@),
                                    ) == Some(w);
                                if j < i {
                                    assert(old_views.contains(w));
                                    let k = choose|k: int|
                                        0 <= k < old_views.len() && old_views[k] == w;
                                    assert(new_views[k] == w);
                                } else {
                                    assert(new_views.last() == w);
                                }
                                assert(new_views.contains(w));
                            }
                        }
                    }
                } else {
                    proof {
                        assert forall|w: UriView| #[trigger]
                            old_views.contains(w) <==> (exists|j: int|
                                0 <= j < i + 1 && spec_candidate_uri(
                                    #[trigger] cands[j],
                                    spec_base_text(base_url),
                                    str_views(local_paths@),
                                ) == Some(w)) by {
                            if exists|j: int|
                                0 <= j < i + 1 && spec_candidate_uri(
                                    #[trigger] cands[j],
                                    spec_base_text(base_url),
                                    str_views(local_paths@),
                                ) == Some(w) {
                                let j = choose|j: int|
                                    0 <= j < i + 1 && spec_candidate_uri(
                                        #[trigger] cands[j],
                                        spec_base_text(base_url),
                                        str_views(local_paths@),
                                    ) == Some(w);
                            }
                        }
                    }
                }
            },
            None => {
                proof {
                    assert forall|w: UriView| #[trigger]
                        old_views.contains(w) <==> (exists|j: int|
                            0 <= j < i + 1 && spec_candidate_uri(
                                #[trigger] cands[j],
                                spec_base_text(base_url),
                                str_views(local_paths@),
                            ) == Some(w)) by {
                        if exists|j: int|
                            0 <= j < i + 1 && spec_candidate_uri(
                                #[trigger] cands[j],
                                spec_base_text(base_url),
                                str_views(local_paths@),
                            ) == Some(w) {
                            let j = choose|j: int|
                                0 <= j < i + 1 && spec_candidate_uri(
                                    #[trigger] cands[j],
                                    spec_base_text(base_url),
                                    str_views(local_paths@),
                                ) == Some(w);
                        }
                    }
                }
            },
        }
        i = i + 1;
    }
    out
}

/// Law: extraction is a set — any two extractions of the same content
/// under the same base and local-path facts hold exactly the same
/// URIs.
pub proof fn lemma_extract_idempotent(
    content: Seq<char>,
    ft: FileType,
    base: Option<Seq<char>>,
    local: Seq<Seq<char>>,
    r1: Seq<UriView>,
    r2: Seq<UriView>,
)
    requires
        forall|u: UriView| #[trigger]
            r1.contains(u) <==> extracted_contains(content, ft, base, local, u),
        forall|u: UriView| #[trigger]
            r2.contains(u) <==> extracted_contains(content, ft, base, local, u),
    ensures
        r1.to_set() == r2.to_set(),
{
    assert forall|u: UriView| r1.to_set().contains(u) <==> r2.to_set().contains(u) by {
        assert(r1.to_set().contains(u) == r1.contains(u));
        assert(r2.to_set().contains(u) == r2.contains(u));
    }
    assert(r1.to_set() =~= r2.to_set());
}

} // verus!
