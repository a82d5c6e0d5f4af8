//! Request paths: the candidate files of a request, in the order in which
//! they are tried, and the canonical address of the page.

use vstd::prelude::*;
use vstd::string::*;

verus! {

/// The views of a sequence of strings, one for one.
pub open spec fn names_view(names: Seq<String>) -> Seq<Seq<char>> {
    Seq::new(names.len(), |i: int| names[i]@)
}

/// The files that stand for a request of the given segments, first choice first.
pub open spec fn candidate_paths(segments: Seq<Seq<char>>) -> Seq<Seq<char>> {
    if segments.len() == 0 {
        seq!["templates/index.md"@]
    } else if segments.len() == 1 {
        seq![
            "templates/"@ + segments[0] + ".md"@,
            "templates/"@ + segments[0] + "/index.md"@,
        ]
    } else if segments.len() == 2 {
        seq!["templates/"@ + segments[0] + "/"@ + segments[1] + ".md"@]
    } else {
        seq![]
    }
}

/// The full address of the page that a request of the given segments names.
pub open spec fn canonical_url(domain: Seq<char>, segments: Seq<Seq<char>>) -> Seq<char> {
    if segments.len() == 0 {
        domain
    } else if segments.len() == 1 {
        domain + "/"@ + segments[0]
    } else {
        domain + "/"@ + segments[0] + "/"@ + segments[1]
    }
}

/// `i` is the first position of `present` that holds `true`.
pub open spec fn is_first_present(present: Seq<bool>, i: int) -> bool {
    &&& 0 <= i < present.len()
    &&& present[i]
    &&& forall|j: int| 0 <= j < i ==> !present[j]
}

/// A request path of zero, one or two segments.
#[derive(Debug)]
pub enum RouteRequest {
    /// The site's root.
    Root,
    /// One segment: a page.
    Page(String),
    /// Two segments: a directory and a page in it.
    Nested(String, String),
}

impl RouteRequest {
    /// The path's segments, in order.
    pub open spec fn segments(self) -> Seq<Seq<char>> {
        match self {
            RouteRequest::Root => seq![],
            RouteRequest::Page(page) => seq![page@],
            RouteRequest::Nested(dir, page) => seq![dir@, page@],
        }
    }

    /// Builds a request from its segments; there is none for more than two.
    pub fn from_segments(segments: &Vec<String>) -> (out: Option<RouteRequest>)
        ensures
            out.is_some() == (segments.len() <= 2),
            out matches Some(route) ==> route.segments() == names_view(segments@),
    {
        if segments.len() == 0 {
            let route = RouteRequest::Root;
            assert(route.segments() =~= names_view(segments@));
            Some(route)
        } else if segments.len() == 1 {
            let route = RouteRequest::Page(segments[0].clone());
            assert(route.segments() =~= names_view(segments@));
            Some(route)
        } else if segments.len() == 2 {
            let route = RouteRequest::Nested(segments[0].clone(), segments[1].clone());
            assert(route.segments() =~= names_view(segments@));
            Some(route)
        } else {
            None
        }
    }

    /// The candidate files of this request, in the order in which they are tried.
    pub fn candidates(&self) -> (out: Vec<String>)
        ensures
            names_view(out@) == candidate_paths(self.segments()),
    {
        let mut out: Vec<String> = Vec::new();
        match self {
            RouteRequest::Root => {
                out.push(String::from_str("templates/index.md"));
            },
            RouteRequest::Page(page) => {
                let mut flat = String::from_str("templates/");
                flat.append(page.as_str());
                flat.append(".md");
                let mut index = String::from_str("templates/");
                index.append(page.as_str());
                index.append("/index.md");
                out.push(flat);
                out.push(index);
            },
            RouteRequest::Nested(dir, page) => {
                let mut path = String::from_str("templates/");
                path.append(dir.as_str());
                path.append("/");
                path.append(page.as_str());
                path.append(".md");
                out.push(path);
            },
        }
        assert(names_view(out@) =~= candidate_paths(self.segments()));
        out
    }

    /// The canonical address of the page under `domain`.
    pub fn canonical_url(&self, domain: &str) -> (out: String)
        ensures
            out@ == canonical_url(domain@, self.segments()),
    {
        let mut out = String::from_str(domain);
        match self {
            RouteRequest::Root => {},
            RouteRequest::Page(page) => {
                out.append("/");
                out.append(page.as_str());
            },
            RouteRequest::Nested(dir, page) => {
                out.append("/");
                out.append(dir.as_str());
                out.append("/");
                out.append(page.as_str());
            },
        }
        out
    }

    /// The file to try once `failed` candidates could not be read: the next
    /// candidate in order, and none once every candidate has failed.
    pub fn candidate_after(&self, failed: usize) -> (out: Option<String>)
        ensures
            out.is_some() == (failed < candidate_paths(self.segments()).len()),
            out matches Some(path) ==> path@ == candidate_paths(self.segments())[failed as int],
    {
        let paths = self.candidates();
        assert(names_view(paths@).len() == paths.len());
        if failed < paths.len() {
            let path = paths[failed].clone();
            assert(path@ == names_view(paths@)[failed as int]);
            Some(path)
        } else {
            None
        }
    }

    /// The file to read for this request, given for each candidate, in order,
    /// whether it is there: the first that is, and none where none is. Answers
    /// beyond the last candidate are not looked at, and a candidate without an
    /// answer counts as absent.
    pub fn resolve(&self, present: &Vec<bool>) -> (out: Option<String>)
        ensures
            match out {
                Some(path) => exists|i: int|
                    is_first_present(present@, i) && 0 <= i < candidate_paths(
                        self.segments(),
                    ).len() && path@ == #[trigger] candidate_paths(self.segments())[i],
                None => forall|j: int|
                    0 <= j < present.len() && j < candidate_paths(self.segments()).len()
                        ==> !present[j],
            },
    {
        let paths = self.candidates();
        let ghost all = candidate_paths(self.segments());
        assert(names_view(paths@).len() == all.len());
        let shown: usize = if present.len() <= paths.len() {
            present.len()
        } else {
            paths.len()
        };
        match first_present(present, shown) {
            Some(i) => {
                let path = paths[i].clone();
                assert(path@ == names_view(paths@)[i as int]);
                assert(is_first_present(present@, i as int));
                Some(path)
            },
            None => None,
        }
    }
}

/// The first position below `limit` at which `present` holds `true`.
pub fn first_present(present: &Vec<bool>, limit: usize) -> (out: Option<usize>)
    requires
        limit <= present.len(),
    ensures
        match out {
            Some(i) => i < limit && is_first_present(present@, i as int),
            None => forall|j: int| 0 <= j < limit ==> !present[j],
        },
{
    let mut i: usize = 0;
    while i < limit
        invariant
            i <= limit <= present.len(),
            forall|j: int| 0 <= j < i ==> !present@[j],
        decreases limit - i,
    {
        if present[i] {
            return Some(i);
        }
        i += 1;
    }
    None
}

/// The candidates of a request are tried in a fixed order and the first that
/// is there is taken: whatever file `resolve` may name for given answers is
/// the candidate at the first position that is present, and no file is named
/// only where no candidate is present. So two files named for the same
/// request and answers are the same.
pub proof fn lemma_first_present_is_unique(present: Seq<bool>, i: int, j: int)
    requires
        is_first_present(present, i),
        is_first_present(present, j),
    ensures
        i == j,
{
    if i < j {
        assert(!present[i]);
    } else if j < i {
        assert(!present[j]);
    }
}

/// A request has one candidate, but a request of one segment, which has two:
/// the flat file before the directory's index file.
pub proof fn lemma_candidate_order(segments: Seq<Seq<char>>)
    requires
        segments.len() <= 2,
    ensures
        candidate_paths(segments).len() == if segments.len() == 1 {
            2nat
        } else {
            1nat
        },
        segments.len() == 0 ==> candidate_paths(segments)[0] == "templates/index.md"@,
        segments.len() == 1 ==> candidate_paths(segments)[0] == "templates/"@ + segments[0]
            + ".md"@ && candidate_paths(segments)[1] == "templates/"@ + segments[0]
            + "/index.md"@,
        segments.len() == 2 ==> candidate_paths(segments)[0] == "templates/"@ + segments[0] + "/"@
            + segments[1] + ".md"@,
{
}

} // verus!
