//! The page shell: the head block and the navigation block that stand
//! before every rendered body.

use vstd::prelude::*;
use vstd::string::*;
use crate::header::PageMetadata;

verus! {

/// The opening of the head block up to the title's text: charset, viewport
/// and compatibility tags, and the stylesheet link.
pub const HEAD_OPEN: &'static str =
    "<head><meta charset=\"UTF-8\"/>\n    <meta name=\"viewport\" content=\"width=device-width, initial-scale=1.0\"/>\n    <meta http-equiv=\"X-UA-Compatible\" content=\"ie=edge\"/>\n    <link rel=\"stylesheet\" type=\"text/css\" href=\"/styles.css\"><title>";

/// From the title's text to its second place, in the `og:title` tag.
pub const AFTER_TITLE: &'static str = "</title>\n\t\t<meta property=\"og:title\" content=\"";

/// From the `og:title` tag to the address in the `og:url` tag.
pub const BEFORE_URL: &'static str = "\"/>\n\t\t<meta property=\"og:url\" content=\"";

/// From the `og:url` tag to the description in the `og:description` tag.
pub const BEFORE_DESCRIPTION: &'static str =
    "\"/>\n\t\t<meta property=\"og:description\" content=\"";

/// The end of the head block.
pub const HEAD_CLOSE: &'static str = "\"/></head>";

/// The navigation block: one link to the root, labelled "Home".
pub const NAVIGATION: &'static str = "<div id=\"nav\"><a href=\"/\">Home</a></div>";

/// The shell of a page: the head block, with the title, the address and the
/// description put in as they are, then the navigation block.
pub open spec fn shell_html(title: Seq<char>, description: Seq<char>, url: Seq<char>) -> Seq<
    char,
> {
    HEAD_OPEN@ + title + AFTER_TITLE@ + title + BEFORE_URL@ + url + BEFORE_DESCRIPTION@
        + description + HEAD_CLOSE@ + NAVIGATION@
}

/// Builds the shell of a page from its metadata and canonical address.
/// Nothing is escaped.
pub fn build_shell(metadata: &PageMetadata, canonical_url: &str) -> (out: String)
    ensures
        out@ == shell_html(metadata.title_view(), metadata.description_view(), canonical_url@),
{
    let mut out = String::from_str(HEAD_OPEN);
    out.append(metadata.title());
    out.append(AFTER_TITLE);
    out.append(metadata.title());
    out.append(BEFORE_URL);
    out.append(canonical_url);
    out.append(BEFORE_DESCRIPTION);
    out.append(metadata.description());
    out.append(HEAD_CLOSE);
    out.append(NAVIGATION);
    out
}

} // verus!
