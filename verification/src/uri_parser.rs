//! Route patterns: a path template whose segments are literal or dynamic,
//! matched against the path of a concrete URI.

use vstd::prelude::*;
use vstd::string::*;
use std::collections::HashMap;
use crate::search::{lemma_split_char, lemma_split_without, split, split_once, str_split, str_split_once, views};
use crate::text::{pairs, str_eq};

verus! {

/// The URI without its fragment: what stands before the first `#`.
pub open spec fn without_fragment(uri: Seq<char>) -> Seq<char> {
    match split_once(uri, "#"@) {
        Some((rest, _)) => rest,
        None => uri,
    }
}

/// The path and the query string of a URI, parted at the first `?`. Without
/// a `?` the whole URI is the path and the query string is empty.
pub open spec fn path_and_search(uri: Seq<char>) -> (Seq<char>, Seq<char>) {
    match split_once(uri, "?"@) {
        Some((path, search)) => (path, search),
        None => (uri, Seq::empty()),
    }
}

/// The path of a URI: what is left without fragment and query string.
pub open spec fn path_of(uri: Seq<char>) -> Seq<char> {
    path_and_search(without_fragment(uri)).0
}

/// The segments of a path, parted by `/`. The empty path has one empty
/// segment and the root path `/` has two.
pub open spec fn segments(path: Seq<char>) -> Seq<Seq<char>> {
    split(path, "/"@)
}

/// A segment of a template is dynamic where it begins with `:`.
pub open spec fn is_dynamic(segment: Seq<char>) -> bool {
    segment.len() > 0 && segment[0] == ':'
}

/// The parameter that a dynamic segment names: the segment without its `:`.
pub open spec fn param_name(segment: Seq<char>) -> Seq<char> {
    segment.drop_first()
}

/// How many segments of a template are dynamic.
pub open spec fn dynamic_count(pattern: Seq<Seq<char>>) -> nat
    decreases pattern.len(),
{
    if pattern.len() == 0 {
        0
    } else if is_dynamic(pattern.last()) {
        dynamic_count(pattern.drop_last()) + 1
    } else {
        dynamic_count(pattern.drop_last())
    }
}

/// The segments of a concrete path fit those of a template: there are as
/// many, and each one stands against a dynamic segment or equals the
/// template's segment.
pub open spec fn segments_match(pattern: Seq<Seq<char>>, concrete: Seq<Seq<char>>) -> bool {
    &&& pattern.len() == concrete.len()
    &&& forall|i: int|
        0 <= i < pattern.len() ==> is_dynamic(#[trigger] pattern[i]) || pattern[i] == concrete[i]
}

/// The parameters that a concrete path gives to a template: for each of its
/// segments that stands against a dynamic one, the name and the segment,
/// from left to right.
pub open spec fn bindings(pattern: Seq<Seq<char>>, concrete: Seq<Seq<char>>) -> Seq<
    (Seq<char>, Seq<char>),
>
    decreases concrete.len(),
{
    if concrete.len() == 0 {
        Seq::empty()
    } else {
        let i = concrete.len() - 1;
        let earlier = bindings(pattern, concrete.drop_last());
        if i < pattern.len() && is_dynamic(pattern[i]) {
            earlier.push((param_name(pattern[i]), concrete[i]))
        } else {
            earlier
        }
    }
}

/// Whether the URI fits the template whose path is `path`.
pub open spec fn pattern_matches(path: Seq<char>, uri: Seq<char>) -> bool {
    segments_match(segments(path), segments(path_of(uri)))
}

/// The parameters that the URI gives to the template whose path is `path`.
pub open spec fn pattern_bindings(path: Seq<char>, uri: Seq<char>) -> Seq<(Seq<char>, Seq<char>)> {
    bindings(segments(path), segments(path_of(uri)))
}

/// What an extraction gives: the parameters, where the URI gives as many
/// as the template has dynamic segments, and else the two numbers.
pub open spec fn pattern_extract(path: Seq<char>, uri: Seq<char>) -> Result<
    Seq<(Seq<char>, Seq<char>)>,
    ParamCountMismatch,
> {
    let found = pattern_bindings(path, uri);
    let expected = dynamic_count(segments(path));
    if found.len() == expected {
        Ok(found)
    } else {
        Err(ParamCountMismatch { expected: expected as usize, found: found.len() as usize })
    }
}

/// No two dynamic segments of the template name the same parameter.
pub open spec fn unique_param_names(pattern: Seq<Seq<char>>) -> bool {
    forall|i: int, j: int|
        0 <= i < j < pattern.len() && is_dynamic(#[trigger] pattern[i]) && is_dynamic(
            #[trigger] pattern[j],
        ) ==> param_name(pattern[i]) != param_name(pattern[j])
}

/// The table of a template's dynamic segments: each is entered under its
/// place with its name, and nothing else is.
pub open spec fn is_table_of(table: Map<usize, String>, pattern: Seq<Seq<char>>) -> bool {
    &&& table.dom().finite()
    &&& table.len() == dynamic_count(pattern)
    &&& forall|i: usize|
        table.contains_key(i) <==> (i < pattern.len() && is_dynamic(#[trigger] pattern[i as int]))
    &&& forall|i: usize| #[trigger]
        table.contains_key(i) ==> table[i]@ == param_name(pattern[i as int])
}

/// The failure of an extraction: the URI gave `found` parameters to a
/// template that declares `expected`.
#[derive(Debug, Clone, Copy, PartialEq, Eq, Structural)]
pub struct ParamCountMismatch {
    pub expected: usize,
    pub found: usize,
}

/// A compiled route pattern: the path of the template, and the table of
/// its dynamic segments.
#[derive(Debug)]
pub struct UriParser {
    path: String,
    dynamic_params: HashMap<usize, String>,
}

impl View for UriParser {
    type V = Seq<char>;

    /// The path of the template, dynamic segments as they were written.
    closed spec fn view(&self) -> Seq<char> {
        self.path@
    }
}

impl UriParser {
    #[verifier::type_invariant]
    spec fn compiled(&self) -> bool {
        is_table_of(self.dynamic_params@, segments(self.path@))
    }

    /// Cuts the fragment off a URI.
    pub fn extract_fragment(uri: &str) -> (r: &str)
        ensures
            r@ == without_fragment(uri@),
    {
        match str_split_once(uri, "#") {
            Some((uri_rest, _fragment)) => uri_rest,
            None => uri,
        }
    }

    /// Parts a URI into path and query string.
    pub fn split_search(uri: &str) -> (r: (&str, &str))
        ensures
            (r.0@, r.1@) == path_and_search(uri@),
    {
        match str_split_once(uri, "?") {
            Some((path, search_string)) => (path, search_string),
            None => {
                proof {
                    reveal_strlit("");
                }
                (uri, "")
            },
        }
    }

    /// Builds the table of the dynamic segments among `path_split`.
    fn get_dynamic_params(path_split: &Vec<&str>) -> (params: HashMap<usize, String>)
        ensures
            is_table_of(params@, views(path_split@)),
    {
        broadcast use vstd::std_specs::hash::group_hash_axioms;

        let mut params: HashMap<usize, String> = HashMap::with_capacity(path_split.len());
        let ghost pattern = views(path_split@);
        let mut idx: usize = 0;
        while idx < path_split.len()
            invariant
                idx <= path_split@.len(),
                pattern == views(path_split@),
                is_table_of(params@, pattern.take(idx as int)),
            decreases path_split@.len() - idx,
        {
            let slice = path_split[idx];
            proof {
                assert(pattern.take(idx + 1).drop_last() =~= pattern.take(idx as int));
            }
            if !slice.is_empty() && slice.get_char(0) == ':' {
                let param = slice.substring_char(1, slice.unicode_len());
                params.insert(idx, param.to_owned());
            }
            idx += 1;
        }
        assert(pattern.take(path_split@.len() as int) =~= pattern);
        params
    }

    /// Compiles a path template. Fragment and query string of the template
    /// are left out; a segment that begins with `:` is dynamic.
    pub fn from(uri: &str) -> (r: UriParser)
        ensures
            r@ == path_of(uri@),
    {
        let rest = UriParser::extract_fragment(uri);
        let (path, _) = UriParser::split_search(rest);
        let path_split = str_split(path, "/");
        let dynamic_params = UriParser::get_dynamic_params(&path_split);
        UriParser { path: path.to_owned(), dynamic_params }
    }

    /// The path of the template.
    pub fn path(&self) -> (r: &str)
        ensures
            r@ == self@,
    {
        self.path.as_str()
    }

    /// The table of the dynamic segments: place and name of each.
    pub fn dynamic_params(&self) -> (r: &HashMap<usize, String>)
        ensures
            is_table_of(r@, segments(self@)),
    {
        proof {
            use_type_invariant(self);
        }
        &self.dynamic_params
    }

    /// Whether `uri` fits this pattern.
    pub fn matches(&self, uri: &str) -> (r: bool)
        ensures
            r == pattern_matches(self@, uri@),
    {
        broadcast use vstd::std_specs::hash::group_hash_axioms;

        proof {
            use_type_invariant(self);
        }
        let rest = UriParser::extract_fragment(uri);
        let (path, _) = UriParser::split_search(rest);
        let concrete = str_split(path, "/");
        let pattern = str_split(self.path.as_str(), "/");
        if concrete.len() != pattern.len() {
            return false;
        }
        let mut idx: usize = 0;
        while idx < concrete.len()
            invariant
                idx <= concrete@.len(),
                concrete@.len() == pattern@.len(),
                views(pattern@) == segments(self@),
                views(concrete@) == segments(path_of(uri@)),
                is_table_of(self.dynamic_params@, views(pattern@)),
                forall|i: int|
                    0 <= i < idx ==> is_dynamic(#[trigger] views(pattern@)[i]) || views(pattern@)[i]
                        == views(concrete@)[i],
            decreases concrete@.len() - idx,
        {
            if self.dynamic_params.get(&idx).is_none() {
                if !str_eq(pattern[idx], concrete[idx]) {
                    assert(!is_dynamic(views(pattern@)[idx as int]));
                    return false;
                }
            }
            idx += 1;
        }
        true
    }

    /// Extracts the parameters that `uri` gives to this pattern, in the
    /// order of their segments. Fails where their number is not the number
    /// of dynamic segments of the pattern.
    pub fn parse(&self, uri: &str) -> (r: Result<Vec<(String, String)>, ParamCountMismatch>)
        ensures
            match r {
                Ok(params) => pattern_extract(self@, uri@) == Ok::<_, ParamCountMismatch>(
                    pairs(params@),
                ),
                Err(e) => pattern_extract(self@, uri@) == Err::<Seq<(Seq<char>, Seq<char>)>, _>(e),
            },
    {
        broadcast use vstd::std_specs::hash::group_hash_axioms;

        proof {
            use_type_invariant(self);
        }
        let rest = UriParser::extract_fragment(uri);
        let (path, _) = UriParser::split_search(rest);
        let concrete = str_split(path, "/");
        let ghost pattern = segments(self@);
        let mut vec: Vec<(String, String)> = Vec::new();
        let mut idx: usize = 0;
        while idx < concrete.len()
            invariant
                idx <= concrete@.len(),
                is_table_of(self.dynamic_params@, pattern),
                pairs(vec@) == bindings(pattern, views(concrete@).take(idx as int)),
            decreases concrete@.len() - idx,
        {
            let value = concrete[idx];
            proof {
                let read = views(concrete@).take(idx + 1);
                assert(read.drop_last() =~= views(concrete@).take(idx as int));
            }
            match self.dynamic_params.get(&idx) {
                Some(key) => {
                    vec.push((key.clone(), value.to_owned()));
                },
                None => {},
            }
            idx += 1;
        }
        assert(views(concrete@).take(concrete@.len() as int) =~= views(concrete@));
        if vec.len() != self.dynamic_params.len() {
            return Err(
                ParamCountMismatch { expected: self.dynamic_params.len(), found: vec.len() },
            );
        }
        Ok(vec)
    }
}

impl Clone for UriParser {
    fn clone(&self) -> (r: Self)
        ensures
            r@ == self@,
    {
        proof {
            use_type_invariant(self);
        }
        UriParser { path: self.path.clone(), dynamic_params: self.dynamic_params.clone() }
    }
}

/// The empty path has one segment, which is empty, and the root path `/`
/// has two: neither fits the other.
pub proof fn lemma_empty_and_root()
    ensures
        segments(Seq::empty()) == seq![Seq::<char>::empty()],
        segments(seq!['/']) == seq![Seq::<char>::empty(), Seq::<char>::empty()],
        !segments_match(segments(Seq::empty()), segments(seq!['/'])),
{
    let empty = Seq::<char>::empty();
    reveal_strlit("/");
    assert("/"@ =~= seq!['/']);
    lemma_split_without(empty, '/');
    lemma_split_char(empty, '/', empty);
}

/// A concrete path that is as long as the template, up to `k` segments,
/// gives one parameter for each of the template's dynamic segments.
proof fn lemma_bindings_count(pattern: Seq<Seq<char>>, concrete: Seq<Seq<char>>, k: int)
    requires
        0 <= k <= pattern.len(),
        k <= concrete.len(),
    ensures
        bindings(pattern, concrete.take(k)).len() == dynamic_count(pattern.take(k)),
    decreases k,
{
    if k > 0 {
        lemma_bindings_count(pattern, concrete, k - 1);
        assert(concrete.take(k).drop_last() =~= concrete.take(k - 1));
        assert(pattern.take(k).drop_last() =~= pattern.take(k - 1));
    }
}

/// A URI that fits a pattern gives it all its parameters: after a match the
/// extraction does not fail.
pub proof fn lemma_match_binds_all(path: Seq<char>, uri: Seq<char>)
    requires
        pattern_matches(path, uri),
    ensures
        pattern_extract(path, uri) == Ok::<_, ParamCountMismatch>(pattern_bindings(path, uri)),
{
    let pattern = segments(path);
    let concrete = segments(path_of(uri));
    lemma_bindings_count(pattern, concrete, pattern.len() as int);
    assert(pattern.take(pattern.len() as int) =~= pattern);
    assert(concrete.take(pattern.len() as int) =~= concrete);
}

/// A URI whose path has another number of segments than the template does
/// not fit it.
pub proof fn lemma_other_length_never_fits(path: Seq<char>, uri: Seq<char>)
    requires
        segments(path).len() != segments(path_of(uri)).len(),
    ensures
        !pattern_matches(path, uri),
{
}

/// Compiling a template is a function of the template: two patterns
/// compiled from one template fit the same URIs and extract the same
/// parameters from each.
pub proof fn lemma_compile_idempotent(
    template: Seq<char>,
    first: UriParser,
    second: UriParser,
    uri: Seq<char>,
)
    requires
        first@ == path_of(template),
        second@ == path_of(template),
    ensures
        pattern_matches(first@, uri) == pattern_matches(second@, uri),
        pattern_extract(first@, uri) == pattern_extract(second@, uri),
{
}

} // verus!
