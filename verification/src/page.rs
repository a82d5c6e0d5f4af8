//! The request handler: from a request, the site's state and the source
//! that was read for the request to the page that is sent back.

use vstd::prelude::*;
use vstd::string::*;
use crate::header::{
    body_of, extract, extract_error, header_removed, Document, HeaderFields, HeaderParseError,
    PageMetadata,
};
use crate::markup::{markdown_html, render};
use crate::route::{canonical_url, names_view, RouteRequest};
use crate::shell::{build_shell, shell_html};

verus! {

/// The text that is sent where no candidate file could be read.
pub const NOT_FOUND_MESSAGE: &'static str = "Couldn't find this page - does it exist?";

/// The tag that stands before and after the root page's links.
pub const LISTING_FRAME: &'static str = "<div id=\"content\">";

/// The status of every page that the handler sends.
pub const STATUS_OK: u16 = 200;

/// The link to one top-level document.
pub open spec fn listing_link(name: Seq<char>) -> Seq<char> {
    "<a href=\"/"@ + name + "\">"@ + name + "</a>"@
}

/// The link of each name, in the names' order.
pub open spec fn link_of_each(names: Seq<Seq<char>>) -> Seq<Seq<char>> {
    names.map_values(|name: Seq<char>| listing_link(name))
}

/// The links to the top-level documents: one for each name, in order, and
/// nothing between them.
pub open spec fn listing_links(names: Seq<Seq<char>>) -> Seq<char> {
    link_of_each(names).flatten()
}

/// The root page's listing: the links between two frame tags.
pub open spec fn listing_html(names: Seq<Seq<char>>) -> Seq<char> {
    LISTING_FRAME@ + listing_links(names) + LISTING_FRAME@
}

/// What follows the rendered body: the listing on the root page, nothing elsewhere.
pub open spec fn page_tail(segments: Seq<Seq<char>>, names: Seq<Seq<char>>) -> Seq<char> {
    if segments.len() == 0 {
        listing_html(names)
    } else {
        Seq::empty()
    }
}

/// A whole page: the shell, the rendered body, and the root page's listing.
pub open spec fn page_html(
    domain: Seq<char>,
    segments: Seq<Seq<char>>,
    title: Seq<char>,
    description: Seq<char>,
    body_html: Seq<char>,
    names: Seq<Seq<char>>,
) -> Seq<char> {
    shell_html(title, description, canonical_url(domain, segments)) + body_html + page_tail(
        segments,
        names,
    )
}

/// What is fixed when the process starts and read by every request.
#[derive(Debug, Clone)]
pub struct AppState {
    /// The canonical base address.
    pub domain: String,
    /// The names of the top-level documents, without the root document.
    pub top_level_documents: Vec<String>,
}

/// What was read for a request.
#[derive(Debug)]
pub enum Source {
    /// No candidate file could be read.
    Missing,
    /// The file that was read is not valid text.
    NotText,
    /// The file's text, and the title and description decoded from its
    /// header block, where it has one that gives both as strings.
    Text { raw: String, header: Option<HeaderFields> },
}

/// Why a request that found its file has no page.
#[derive(Debug, Clone, Copy, PartialEq, Eq, Structural)]
pub enum PageError {
    /// The file is not valid text.
    InvalidEncoding,
    /// The document's header is missing or malformed.
    Header(HeaderParseError),
}

/// What is sent back: a status and the text.
#[derive(Debug)]
pub struct Response {
    pub status: u16,
    pub html: String,
}

/// The text that a request owes, or the error: the fixed message where
/// nothing was read, else the page of the document.
pub open spec fn response_text(state: AppState, route: RouteRequest, source: Source) -> Result<
    Seq<char>,
    PageError,
> {
    match source {
        Source::Missing => Ok(NOT_FOUND_MESSAGE@),
        Source::NotText => Err(PageError::InvalidEncoding),
        Source::Text { raw, header } => match extract_error(raw@, header, header_removed(raw@)) {
            Some(e) => Err(PageError::Header(e)),
            None => Ok(
                page_html(
                    state.domain@,
                    route.segments(),
                    header.unwrap().title@,
                    header.unwrap().description@,
                    markdown_html(body_of(raw@)),
                    names_view(state.top_level_documents@),
                ),
            ),
        },
    }
}

/// `out` answers the request: status 200 and the owed text, or the owed error.
pub open spec fn answers(
    state: AppState,
    route: RouteRequest,
    source: Source,
    out: Result<Response, PageError>,
) -> bool {
    match out {
        Ok(response) => response.status == STATUS_OK && response_text(state, route, source) == Ok::<
            Seq<char>,
            PageError,
        >(response.html@),
        Err(e) => response_text(state, route, source) == Err::<Seq<char>, PageError>(e),
    }
}

/// Appends the root page's listing to `out`: between two frame tags, one
/// link for each name, in order.
pub fn push_listing(out: &mut String, names: &Vec<String>)
    ensures
        final(out)@ == old(out)@ + listing_html(names_view(names@)),
{
    let ghost all = names_view(names@);
    let ghost links = link_of_each(all);
    out.append(LISTING_FRAME);
    let mut i: usize = 0;
    proof {
        assert(links.take(0) =~= Seq::<Seq<char>>::empty());
        assert(old(out)@ + LISTING_FRAME@ + links.take(0).flatten() =~= old(out)@
            + LISTING_FRAME@);
    }
    while i < names.len()
        invariant
            i <= names.len(),
            all == names_view(names@),
            links == link_of_each(all),
            out@ == old(out)@ + LISTING_FRAME@ + links.take(i as int).flatten(),
        decreases names.len() - i,
    {
        let name = names[i].as_str();
        let ghost before = out@;
        out.append("<a href=\"/");
        out.append(name);
        out.append("\">");
        out.append(name);
        out.append("</a>");
        proof {
            assert(name@ == all[i as int]);
            assert(links[i as int] == listing_link(name@));
            assert(out@ =~= before + listing_link(name@));
            assert(links.take(i + 1) =~= links.take(i as int).push(links[i as int]));
            links.take(i as int).lemma_flatten_push(links[i as int]);
            assert(out@ =~= old(out)@ + LISTING_FRAME@ + links.take(i + 1).flatten());
        }
        i += 1;
    }
    out.append(LISTING_FRAME);
    proof {
        assert(links.take(names.len() as int) =~= links);
        assert(out@ =~= old(out)@ + listing_html(all));
    }
}

/// Puts a page together from the document's metadata and the HTML of its
/// body: the shell, the body, and on the root page the listing.
pub fn compose(state: &AppState, route: &RouteRequest, metadata: &PageMetadata, body_html: &str) -> (out:
    String)
    ensures
        out@ == page_html(
            state.domain@,
            route.segments(),
            metadata.title_view(),
            metadata.description_view(),
            body_html@,
            names_view(state.top_level_documents@),
        ),
{
    let url = route.canonical_url(state.domain.as_str());
    let mut out = build_shell(metadata, url.as_str());
    out.append(body_html);
    let ghost before = out@;
    match route {
        RouteRequest::Root => {
            push_listing(&mut out, &state.top_level_documents);
        },
        _ => {
            assert(out@ =~= before + Seq::<char>::empty());
        },
    }
    out
}

/// The page of a document that was taken apart: its body is rendered and put
/// behind the shell.
pub fn render_page(state: &AppState, route: &RouteRequest, document: &Document) -> (out: String)
    ensures
        out@ == page_html(
            state.domain@,
            route.segments(),
            document.metadata.title_view(),
            document.metadata.description_view(),
            markdown_html(document.body@),
            names_view(state.top_level_documents@),
        ),
{
    let body_html = render(document.body.as_str());
    compose(state, route, &document.metadata, body_html.as_str())
}

/// Answers a request from what was read for it. Nothing read gives the fixed
/// message; a file that is not text, or without a usable header, gives the
/// error; every other document gives its page. The status is always 200.
pub fn handle(state: &AppState, route: &RouteRequest, source: Source) -> (out: Result<
    Response,
    PageError,
>)
    ensures
        answers(*state, *route, source, out),
{
    match source {
        Source::Missing => Ok(
            Response { status: STATUS_OK, html: String::from_str(NOT_FOUND_MESSAGE) },
        ),
        Source::NotText => Err(PageError::InvalidEncoding),
        Source::Text { raw, header } => match extract(raw.as_str(), header) {
            Err(e) => Err(PageError::Header(e)),
            Ok(document) => {
                let html = render_page(state, route, &document);
                Ok(Response { status: STATUS_OK, html })
            },
        },
    }
}

/// One request has one answer: two results that both answer the same
/// request, on the same state and source, carry the same status and the same
/// text, or the same error.
pub proof fn lemma_answer_is_unique(
    state: AppState,
    route: RouteRequest,
    source: Source,
    first: Result<Response, PageError>,
    second: Result<Response, PageError>,
)
    requires
        answers(state, route, source, first),
        answers(state, route, source, second),
    ensures
        first.is_ok() == second.is_ok(),
        first.is_ok() ==> first.unwrap().status == second.unwrap().status
            && first.unwrap().html@ == second.unwrap().html@,
        first.is_err() ==> first.unwrap_err() == second.unwrap_err(),
{
}

/// The listing holds exactly one link for each top-level document, in the
/// documents' order, and nothing between them: it is the links of the names
/// before the last, then the link of the last.
pub proof fn lemma_listing_one_link_per_name(names: Seq<Seq<char>>)
    ensures
        link_of_each(names).len() == names.len(),
        forall|i: int|
            0 <= i < names.len() ==> #[trigger] link_of_each(names)[i] == listing_link(names[i]),
        names.len() == 0 ==> listing_links(names) == Seq::<char>::empty(),
        names.len() > 0 ==> listing_links(names) == listing_links(names.drop_last())
            + listing_link(names.last()),
{
    let links = link_of_each(names);
    if names.len() > 0 {
        let front = link_of_each(names.drop_last());
        assert(links =~= front.push(listing_link(names.last())));
        front.lemma_flatten_push(listing_link(names.last()));
    } else {
        assert(links.flatten() =~= Seq::<char>::empty());
    }
}

/// The root page is the shell with the domain as address, the rendered body,
/// and the listing of all top-level documents between its two frame tags;
/// every other page ends with its rendered body.
pub proof fn lemma_only_root_page_lists(
    domain: Seq<char>,
    segments: Seq<Seq<char>>,
    title: Seq<char>,
    description: Seq<char>,
    body_html: Seq<char>,
    names: Seq<Seq<char>>,
)
    ensures
        segments.len() == 0 ==> page_html(domain, segments, title, description, body_html, names)
            == shell_html(title, description, domain) + body_html + LISTING_FRAME@
            + listing_links(names) + LISTING_FRAME@,
        segments.len() > 0 ==> page_html(domain, segments, title, description, body_html, names)
            == shell_html(title, description, canonical_url(domain, segments)) + body_html,
{
    let shell = shell_html(title, description, canonical_url(domain, segments));
    if segments.len() == 0 {
        assert(shell + body_html + (LISTING_FRAME@ + listing_links(names) + LISTING_FRAME@)
            =~= shell + body_html + LISTING_FRAME@ + listing_links(names) + LISTING_FRAME@);
    } else {
        assert(shell + body_html + Seq::<char>::empty() =~= shell + body_html);
    }
}

} // verus!
