//! The header block of a document: where it ends, the validity of the fields
//! decoded from it, and the body that remains once the block is taken off.
//!
//! A pattern matcher takes the block off; what it returns becomes the body
//! only where it is the document without its block, as this module defines it.

use vstd::prelude::*;
use vstd::string::*;

verus! {

/// What the pattern matcher returns for a pattern, a text and a replacement:
/// `None` where it does not accept the pattern, else the text with the
/// leftmost match replaced (the text itself where nothing matches).
pub uninterp spec fn first_match_replaced(
    pattern: Seq<char>,
    text: Seq<char>,
    replacement: Seq<char>,
) -> Option<Seq<char>>;

/// Calls `regex::Regex::new(pattern)` and, on the compiled expression,
/// `regex::Regex::replace(text, replacement)`. Trusted: the outcome depends on
/// the three strings alone, and is named `first_match_replaced`; `None` stands
/// for a pattern that the compiler refused.
#[verifier::external_body]
fn replace_first(pattern: &str, text: &str, replacement: &str) -> (out: Option<String>)
    ensures
        out.is_some() == first_match_replaced(pattern@, text@, replacement@).is_some(),
        out matches Some(s) ==> first_match_replaced(pattern@, text@, replacement@) == Some(s@),
{
    match regex::Regex::new(pattern) {
        Ok(matcher) => Some(matcher.replace(text, replacement).into_owned()),
        Err(_) => None,
    }
}

/// The pattern of a header block: a line that is exactly `---` at the start
/// of the text, then the shortest region, line breaks included, up to the
/// next line that is exactly `---`.
pub const HEADER_PATTERN: &'static str = "(?m)\\A---$((.|\\n)*?)^---$";

/// What the matcher returns for a document when it is asked to take the
/// header block off.
pub open spec fn header_removed(raw: Seq<char>) -> Option<Seq<char>> {
    first_match_replaced(HEADER_PATTERN@, raw, ""@)
}

/// Why a document has no usable header.
#[derive(Debug, Clone, Copy, PartialEq, Eq, Structural)]
pub enum HeaderParseError {
    /// The document does not open with a header block, or the block does
    /// not give a title and a description as strings.
    Absent,
    /// The title is empty.
    EmptyTitle,
    /// The description is empty.
    EmptyDescription,
    /// The matcher refused the block's pattern, or what it returned is not
    /// the document without its header block.
    MatcherFailed,
}

/// The two fields of a header block, as decoded.
#[derive(Debug)]
pub struct HeaderFields {
    pub title: String,
    pub description: String,
}

/// The fault of the decoded fields, if they have one: they are missing, or
/// the title is empty, or else the description is.
pub open spec fn field_error(decoded: Option<HeaderFields>) -> Option<HeaderParseError> {
    match decoded {
        None => Some(HeaderParseError::Absent),
        Some(fields) => if fields.title@.len() == 0 {
            Some(HeaderParseError::EmptyTitle)
        } else if fields.description@.len() == 0 {
            Some(HeaderParseError::EmptyDescription)
        } else {
            None
        },
    }
}

/// Three hyphens stand in a row at position `i` of `raw`.
pub open spec fn hyphens_at(raw: Seq<char>, i: int) -> bool {
    &&& 0 <= i
    &&& i + 3 <= raw.len()
    &&& raw[i] == '-'
    &&& raw[i + 1] == '-'
    &&& raw[i + 2] == '-'
}

/// A delimiter line begins at position `i` of `raw`: a line that is exactly
/// `---`. Before its three hyphens stands the start of the text or a line
/// break, and behind them a line break or the end of the text.
pub open spec fn delimiter_line_at(raw: Seq<char>, i: int) -> bool {
    &&& hyphens_at(raw, i)
    &&& (i == 0 || raw[i - 1] == '\n')
    &&& (i + 3 == raw.len() || raw[i + 3] == '\n')
}

/// The header block of `raw` ends before position `end`: a delimiter line
/// opens the document, a delimiter line ends at `end`, and no delimiter line
/// begins between the two.
pub open spec fn is_block_end(raw: Seq<char>, end: int) -> bool {
    &&& delimiter_line_at(raw, 0)
    &&& 3 < end
    &&& delimiter_line_at(raw, end - 3)
    &&& forall|j: int| 0 < j < end - 3 ==> !delimiter_line_at(raw, j)
}

/// The document opens with a header block.
pub open spec fn has_block(raw: Seq<char>) -> bool {
    exists|end: int| is_block_end(raw, end)
}

/// Where the header block of a document that has one ends.
pub open spec fn block_end(raw: Seq<char>) -> int {
    choose|end: int| is_block_end(raw, end)
}

/// The document without its header block.
pub open spec fn body_of(raw: Seq<char>) -> Seq<char> {
    raw.skip(block_end(raw))
}

/// The fault of a document, if it has one. `stripped` is what the matcher
/// returned for it. In this order: the document does not open with a header
/// block; the matcher did not return the document without that block; the
/// decoded fields are at fault.
pub open spec fn extract_error(
    raw: Seq<char>,
    decoded: Option<HeaderFields>,
    stripped: Option<Seq<char>>,
) -> Option<HeaderParseError> {
    if !has_block(raw) {
        Some(HeaderParseError::Absent)
    } else if stripped != Some(body_of(raw)) {
        Some(HeaderParseError::MatcherFailed)
    } else {
        field_error(decoded)
    }
}

/// `out` is what extraction owes for a document, its decoded fields and
/// what the matcher returned: the error where there is a fault, else the
/// fields as metadata and the document without its header block as body.
pub open spec fn is_extraction(
    raw: Seq<char>,
    decoded: Option<HeaderFields>,
    stripped: Option<Seq<char>>,
    out: Result<Document, HeaderParseError>,
) -> bool {
    match out {
        Ok(doc) => {
            &&& extract_error(raw, decoded, stripped).is_none()
            &&& doc.metadata.title_view() == decoded.unwrap().title@
            &&& doc.metadata.description_view() == decoded.unwrap().description@
            &&& doc.body@ == body_of(raw)
        },
        Err(e) => extract_error(raw, decoded, stripped) == Some(e),
    }
}

/// A document has at most one place where its header block ends.
pub proof fn lemma_block_end_is_unique(raw: Seq<char>, first: int, second: int)
    requires
        is_block_end(raw, first),
        is_block_end(raw, second),
    ensures
        first == second,
        block_end(raw) == first,
{
    if first < second {
        assert(!delimiter_line_at(raw, first - 3));
    } else if second < first {
        assert(!delimiter_line_at(raw, second - 3));
    }
    let chosen = block_end(raw);
    if chosen < first {
        assert(!delimiter_line_at(raw, chosen - 3));
    } else if first < chosen {
        assert(!delimiter_line_at(raw, first - 3));
    }
}

/// The header block is gone from the body: the body is what follows the
/// block, so the document is the block and then the body, and the body is
/// shorter than the document by the block's length. The block holds at
/// least its two delimiter lines and the line break between them.
pub proof fn lemma_body_follows_block(raw: Seq<char>)
    requires
        has_block(raw),
    ensures
        7 <= block_end(raw) <= raw.len(),
        raw == raw.take(block_end(raw)) + body_of(raw),
        body_of(raw).len() + block_end(raw) == raw.len(),
        delimiter_line_at(raw.take(block_end(raw)), 0),
        delimiter_line_at(raw.take(block_end(raw)), block_end(raw) - 3),
{
    let end = block_end(raw);
    assert(is_block_end(raw, end));
    assert(raw[end - 4] == '\n');
    assert(raw =~= raw.take(end) + raw.skip(end));
}

/// A body in which three hyphens stand nowhere in a row holds no copy of the
/// header block that was taken off.
pub proof fn lemma_body_without_hyphens_holds_no_block(raw: Seq<char>)
    requires
        has_block(raw),
        forall|i: int| !hyphens_at(body_of(raw), i),
    ensures
        forall|at: int|
            0 <= at && at + block_end(raw) <= body_of(raw).len() ==> #[trigger] body_of(
                raw,
            ).subrange(at, at + block_end(raw)) != raw.take(block_end(raw)),
{
    let end = block_end(raw);
    let body = body_of(raw);
    let block = raw.take(end);
    lemma_body_follows_block(raw);
    assert forall|at: int| 0 <= at && at + end <= body.len() implies #[trigger] body.subrange(
        at,
        at + end,
    ) != block by {
        let part = body.subrange(at, at + end);
        if part == block {
            assert(part[0] == body[at] && part[1] == body[at + 1] && part[2] == body[at + 2]);
            assert(hyphens_at(block, 0));
            assert(hyphens_at(body, at));
        }
    }
}

/// The metadata of a page: a title and a description, neither empty.
#[derive(Debug)]
pub struct PageMetadata {
    title: String,
    description: String,
}

impl PageMetadata {
    #[verifier::type_invariant]
    spec fn nonempty(self) -> bool {
        self.title@.len() > 0 && self.description@.len() > 0
    }

    /// The title's text.
    pub closed spec fn title_view(self) -> Seq<char> {
        self.title@
    }

    /// The description's text.
    pub closed spec fn description_view(self) -> Seq<char> {
        self.description@
    }

    /// Checks the decoded fields: both must hold text. The title is looked at first.
    pub fn new(fields: HeaderFields) -> (out: Result<PageMetadata, HeaderParseError>)
        ensures
            match out {
                Ok(meta) => field_error(Some(fields)).is_none() && meta.title_view()
                    == fields.title@ && meta.description_view() == fields.description@,
                Err(e) => field_error(Some(fields)) == Some(e),
            },
    {
        if fields.title.as_str().is_empty() {
            Err(HeaderParseError::EmptyTitle)
        } else if fields.description.as_str().is_empty() {
            Err(HeaderParseError::EmptyDescription)
        } else {
            Ok(PageMetadata { title: fields.title, description: fields.description })
        }
    }

    /// The title.
    pub fn title(&self) -> (out: &str)
        ensures
            out@ == self.title_view(),
            out@.len() > 0,
    {
        proof {
            use_type_invariant(self);
        }
        self.title.as_str()
    }

    /// The description.
    pub fn description(&self) -> (out: &str)
        ensures
            out@ == self.description_view(),
            out@.len() > 0,
    {
        proof {
            use_type_invariant(self);
        }
        self.description.as_str()
    }
}

/// A document taken apart: its metadata and the body without the header block.
#[derive(Debug)]
pub struct Document {
    pub metadata: PageMetadata,
    pub body: String,
}

/// Whether a delimiter line begins at position `i` of `raw`, a text of `n`
/// characters.
fn delimiter_line_found(raw: &str, n: usize, i: usize) -> (out: bool)
    requires
        n == raw@.len(),
        i + 3 <= n,
    ensures
        out == delimiter_line_at(raw@, i as int),
{
    if i > 0 && raw.get_char(i - 1) != '\n' {
        return false;
    }
    if !(raw.get_char(i) == '-' && raw.get_char(i + 1) == '-' && raw.get_char(i + 2) == '-') {
        return false;
    }
    i + 3 == n || raw.get_char(i + 3) == '\n'
}

/// Finds where the header block of a document ends, if the document opens
/// with one: behind the nearest delimiter line that follows the opening one.
pub fn find_block_end(raw: &str) -> (out: Option<usize>)
    ensures
        out.is_some() == has_block(raw@),
        out matches Some(end) ==> is_block_end(raw@, end as int) && end == block_end(raw@),
{
    let n: usize = raw.unicode_len();
    if n < 3 || !delimiter_line_found(raw, n, 0) {
        return None;
    }
    let mut j: usize = 1;
    while j <= n - 3
        invariant
            n == raw@.len(),
            n >= 3,
            1 <= j <= n - 1,
            delimiter_line_at(raw@, 0),
            forall|i: int| 0 < i < j ==> !delimiter_line_at(raw@, i),
        decreases n - j,
    {
        if delimiter_line_found(raw, n, j) {
            proof {
                assert(is_block_end(raw@, j + 3));
                lemma_block_end_is_unique(raw@, j + 3, j + 3);
            }
            return Some(j + 3);
        }
        j += 1;
    }
    assert forall|end: int| !is_block_end(raw@, end) by {
        if is_block_end(raw@, end) {
            assert(delimiter_line_at(raw@, end - 3));
            assert(0 < end - 3 < j);
        }
    }
    None
}

/// Puts a document together from its text, the decoded header fields and
/// what the matcher returned for the text. The matcher's result becomes the
/// body only where it is the text without its header block.
pub fn document_from(raw: &str, decoded: Option<HeaderFields>, stripped: Option<String>) -> (out:
    Result<Document, HeaderParseError>)
    ensures
        is_extraction(
            raw@,
            decoded,
            match stripped {
                Some(s) => Some(s@),
                None => None,
            },
            out,
        ),
{
    let end = match find_block_end(raw) {
        None => { return Err(HeaderParseError::Absent); },
        Some(end) => end,
    };
    let body = match stripped {
        None => { return Err(HeaderParseError::MatcherFailed); },
        Some(body) => body,
    };
    let rest = raw.substring_char(end, raw.unicode_len());
    assert(rest@ =~= body_of(raw@));
    if body != String::from_str(rest) {
        return Err(HeaderParseError::MatcherFailed);
    }
    match decoded {
        None => Err(HeaderParseError::Absent),
        Some(fields) => match PageMetadata::new(fields) {
            Err(e) => Err(e),
            Ok(metadata) => Ok(Document { metadata, body }),
        },
    }
}

/// Asks the matcher to take the header block off a document: from the
/// `---` line that opens it to the nearest `---` line that follows. `None`
/// where the matcher refuses the block's pattern.
pub fn strip_header(raw: &str) -> (out: Option<String>)
    ensures
        out.is_some() == header_removed(raw@).is_some(),
        out matches Some(body) ==> header_removed(raw@) == Some(body@),
{
    replace_first(HEADER_PATTERN, raw, "")
}

/// Splits a document into metadata and body. `decoded` holds the title and
/// description that were read from the header block, or nothing where the
/// block does not give both as strings. Fails where the document does not
/// open with a header block, and where a field is missing or empty. The body
/// is the document without its header block, and the metadata's fields are
/// never empty.
pub fn extract(raw: &str, decoded: Option<HeaderFields>) -> (out: Result<
    Document,
    HeaderParseError,
>)
    ensures
        is_extraction(raw@, decoded, header_removed(raw@), out),
        out matches Ok(doc) ==> doc.metadata.title_view().len() > 0
            && doc.metadata.description_view().len() > 0 && raw@ == raw@.take(block_end(raw@))
            + doc.body@,
{
    let stripped = strip_header(raw);
    proof {
        if has_block(raw@) {
            lemma_body_follows_block(raw@);
        }
    }
    document_from(raw, decoded, stripped)
}

} // verus!
