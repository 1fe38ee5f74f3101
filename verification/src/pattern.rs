//! Route patterns: a path template compiled into a matcher over whole
//! paths, with named capture groups that yield the path parameters.
//!
//! The matcher is the `regex` crate's. What it computes is not restated
//! here: each of its results has a name, and the contracts of this module
//! speak of those names.

use vstd::prelude::*;
use vstd::string::StringExecFns;
use regex::Regex;
use crate::params::{Params, segment_texts};

verus! {

/// `regex::Regex`, a compiled pattern. Nothing inside it is visible here.
#[verifier::external_type_specification]
#[verifier::external_body]
pub struct ExRegex(regex::Regex);

/// `regex::Error`, the reason for which a pattern was refused.
#[verifier::external_type_specification]
#[verifier::external_body]
pub struct ExRegexError(regex::Error);

/// The pattern text that a compiled `Regex` was built from, as
/// `Regex::as_str` returns it.
pub uninterp spec fn regex_source(re: Regex) -> Seq<char>;

/// Whether a compiled `Regex` was built by `Regex::new`, that is with the
/// options that the crate sets by default. A value built by a
/// `RegexBuilder` with other options may keep the same pattern text and
/// match otherwise.
pub uninterp spec fn regex_default(re: Regex) -> bool;

/// Whether `Regex::new` accepts `pattern`.
pub uninterp spec fn regex_accepts(pattern: Seq<char>) -> bool;

/// Whether a `Regex` built from `pattern` by `Regex::new` finds a match
/// in `haystack`, as `Regex::is_match` reports it.
pub uninterp spec fn regex_is_match(pattern: Seq<char>, haystack: Seq<char>) -> bool;

/// The capture groups of `pattern`, compiled by `Regex::new`, in the
/// order of their opening parentheses, each with its name if it has one,
/// as `Regex::capture_names` yields them. Group 0 is the whole match.
pub uninterp spec fn regex_capture_names(pattern: Seq<char>) -> Seq<Option<Seq<char>>>;

/// The text of each capture group in the leftmost match of `pattern`,
/// compiled by `Regex::new`, in `haystack`, in group order, as
/// `Regex::captures` and `Captures::iter` give them; `None` where there is no match, and `None` at a group that
/// took no part in the match.
pub uninterp spec fn regex_captures(pattern: Seq<char>, haystack: Seq<char>) -> Option<
    Seq<Option<Seq<char>>>,
>;

/// The texts held by a list of optional strings.
pub open spec fn texts(v: Seq<Option<String>>) -> Seq<Option<Seq<char>>> {
    Seq::new(
        v.len(),
        |i: int|
            match v[i] {
                Some(s) => Some(s@),
                None => None,
            },
    )
}

/// The texts held by a list of optional strings, if there is a list.
pub open spec fn group_texts(groups: Option<Vec<Option<String>>>) -> Option<Seq<Option<Seq<char>>>> {
    match groups {
        Some(g) => Some(texts(g@)),
        None => None,
    }
}

/// Calls `Regex::new`. The contract claims that it succeeds exactly on the
/// patterns that `regex_accepts` names, and that the compiled value keeps
/// the pattern text it was given and has the default options.
#[verifier::external_body]
fn regex_new(pattern: &str) -> (r: Result<Regex, regex::Error>)
    ensures
        r is Ok <==> regex_accepts(pattern@),
        r matches Ok(re) ==> regex_source(re) == pattern@ && regex_default(re),
{
    Regex::new(pattern)
}

/// Calls `Regex::as_str`, which returns the pattern text the value was
/// compiled from.
#[verifier::external_body]
fn regex_as_str(re: &Regex) -> (s: &str)
    ensures
        s@ == regex_source(*re),
{
    re.as_str()
}

/// Calls `Regex::is_match`. The contract claims that, for a value with
/// the default options, the answer depends only on the pattern text and
/// the haystack.
#[verifier::external_body]
fn regex_match(re: &Regex, haystack: &str) -> (b: bool)
    requires
        regex_default(*re),
    ensures
        b == regex_is_match(regex_source(*re), haystack@),
{
    re.is_match(haystack)
}

/// Calls `Regex::capture_names` and copies each name out. The contract
/// claims that, for a value with the default options, the list depends
/// only on the pattern text.
#[verifier::external_body]
fn regex_names(re: &Regex) -> (names: Vec<Option<String>>)
    requires
        regex_default(*re),
    ensures
        texts(names@) == regex_capture_names(regex_source(*re)),
{
    re.capture_names().map(|n| n.map(|s| s.to_string())).collect()
}

/// Calls `Regex::captures` and copies the text of each group out, in the
/// order of `Captures::iter`. The contract claims that, for a value with
/// the default options, the groups depend only on the pattern text and
/// the haystack, and that there are groups exactly when `Regex::is_match`
/// reports a match.
#[verifier::external_body]
fn regex_groups(re: &Regex, haystack: &str) -> (groups: Option<Vec<Option<String>>>)
    requires
        regex_default(*re),
    ensures
        group_texts(groups) == regex_captures(regex_source(*re), haystack@),
        groups is Some <==> regex_is_match(regex_source(*re), haystack@),
{
    re.captures(haystack).map(|c| c.iter().map(|m| m.map(|t| t.as_str().to_string())).collect())
}

/// Calls `to_string` on a `regex::Error`, which renders the reason the
/// pattern was refused. Nothing is claimed of the text.
#[verifier::external_body]
fn regex_error_text(e: &regex::Error) -> (text: String) {
    e.to_string()
}

/// A template that could not be compiled into a pattern.
#[derive(Debug)]
pub struct CompileError {
    /// The template as it was given.
    pub template: String,
    /// The matcher's account of what is wrong with it.
    pub message: String,
}

/// The pattern text that a template is compiled to: the template as a
/// group of its own between a start and an end anchor, so that a match is
/// a match of the whole path.
pub open spec fn anchored(template: Seq<char>) -> Seq<char> {
    "^(?:"@ + template + ")$"@
}

/// Whether a template compiles: it is a valid pattern by itself, and
/// stays one between the anchors.
pub open spec fn template_compiles(template: Seq<char>) -> bool {
    regex_accepts(template) && regex_accepts(anchored(template))
}

/// Whether `template` matches the whole of `path`.
pub open spec fn template_matches(template: Seq<char>, path: Seq<char>) -> bool {
    regex_is_match(anchored(template), path)
}

/// The store built from the first `n` capture groups: each group that has
/// a name and took part in the match binds its name to its text, a later
/// group replacing an earlier one of the same name.
pub open spec fn bind_captures(
    names: Seq<Option<Seq<char>>>,
    groups: Seq<Option<Seq<char>>>,
    n: int,
) -> Map<Seq<char>, Seq<char>>
    decreases n,
{
    if n <= 0 {
        Map::empty()
    } else {
        let rest = bind_captures(names, groups, n - 1);
        if n <= names.len() && n <= groups.len() && names[n - 1] is Some && groups[n - 1] is Some {
            rest.insert(names[n - 1]->0, groups[n - 1]->0)
        } else {
            rest
        }
    }
}

/// The names among the capture groups: the groups without a name are left
/// out, the order stays.
pub open spec fn declared_names(groups: Seq<Option<Seq<char>>>) -> Seq<Seq<char>> {
    groups.filter(|n: Option<Seq<char>>| n is Some).map_values(|n: Option<Seq<char>>| n->0)
}

/// The smaller of two lengths.
pub open spec fn shorter(a: int, b: int) -> int {
    if a < b {
        a
    } else {
        b
    }
}

/// The path parameters that `template` yields on `path`: the named groups
/// of the match, or nothing where the path does not match.
pub open spec fn template_params(template: Seq<char>, path: Seq<char>) -> Map<
    Seq<char>,
    Seq<char>,
> {
    let names = regex_capture_names(anchored(template));
    match regex_captures(anchored(template), path) {
        Some(groups) => bind_captures(names, groups, shorter(names.len() as int, groups.len() as int)),
        None => Map::empty(),
    }
}

/// A path parameter comes from a declared name: a key of the store built
/// from the first `n` groups is the name of one of those groups, and that
/// group took part in the match.
pub proof fn lemma_param_has_group(
    names: Seq<Option<Seq<char>>>,
    groups: Seq<Option<Seq<char>>>,
    n: int,
    k: Seq<char>,
)
    requires
        bind_captures(names, groups, n).contains_key(k),
    ensures
        exists|i: int|
            0 <= i < n && i < names.len() && i < groups.len() && #[trigger] names[i] == Some(k)
                && groups[i] is Some,
    decreases n,
{
    if n > 0 {
        if n <= names.len() && n <= groups.len() && names[n - 1] == Some(k) && groups[n - 1] is Some {
        } else {
            lemma_param_has_group(names, groups, n - 1, k);
        }
    }
}

/// A named group that took part in the match yields its text: where group
/// `i` has the name `k` and the text `v`, and no later one of the first
/// `n` groups has that name and a text, the store binds `k` to `v`.
pub proof fn lemma_group_yields_param(
    names: Seq<Option<Seq<char>>>,
    groups: Seq<Option<Seq<char>>>,
    n: int,
    i: int,
    k: Seq<char>,
    v: Seq<char>,
)
    requires
        0 <= i < n,
        n <= names.len(),
        n <= groups.len(),
        names[i] == Some(k),
        groups[i] == Some(v),
        forall|j: int| i < j < n ==> !(#[trigger] names[j] == Some(k) && groups[j] is Some),
    ensures
        bind_captures(names, groups, n).contains_key(k),
        bind_captures(names, groups, n)[k] == v,
    decreases n,
{
    if i < n - 1 {
        lemma_group_yields_param(names, groups, n - 1, i, k, v);
        assert(!(names[n - 1] == Some(k) && groups[n - 1] is Some));
    }
}

/// Binds the names of capture groups to the texts of a match: group `i`
/// of `names` belongs to group `i` of `groups`, and every group that has
/// a name and a text yields a parameter.
pub fn bind_groups(names: &Vec<Option<String>>, groups: &Vec<Option<String>>) -> (params: Params)
    ensures
        params@ == bind_captures(
            texts(names@),
            texts(groups@),
            shorter(names@.len() as int, groups@.len() as int),
        ),
{
    let mut params = Params::new();
    let n = if names.len() < groups.len() {
        names.len()
    } else {
        groups.len()
    };
    let mut i: usize = 0;
    while i < n
        invariant
            i <= n,
            n <= names.len(),
            n <= groups.len(),
            params@ == bind_captures(texts(names@), texts(groups@), i as int),
        decreases n - i,
    {
        match (&names[i], &groups[i]) {
            (Some(name), Some(text)) => {
                params.insert(name.clone(), text.clone());
            },
            _ => {},
        }
        i += 1;
    }
    params
}

/// A compiled path template. It is built once and never changes.
#[derive(Debug)]
pub struct RoutePattern {
    template: String,
    regex: Regex,
    names: Vec<Option<String>>,
}

impl RoutePattern {
    #[verifier::type_invariant]
    spec fn well_formed(&self) -> bool {
        &&& regex_default(self.regex)
        &&& regex_source(self.regex) == anchored(self.template@)
        &&& texts(self.names@) == regex_capture_names(anchored(self.template@))
    }

    /// The template that the pattern was compiled from.
    pub closed spec fn template(&self) -> Seq<char> {
        self.template@
    }

    /// Whether the pattern matches the whole of `path`.
    pub open spec fn matches(&self, path: Seq<char>) -> bool {
        template_matches(self.template(), path)
    }

    /// The path parameters that the pattern yields on `path`.
    pub open spec fn params(&self, path: Seq<char>) -> Map<Seq<char>, Seq<char>> {
        template_params(self.template(), path)
    }

    /// The capture names that the pattern declares, in the order of their
    /// groups.
    pub open spec fn names(&self) -> Seq<Seq<char>> {
        declared_names(regex_capture_names(anchored(self.template())))
    }

    /// Compiles `template`. It fails exactly on a template that does not
    /// compile, and then hands the template back in the error.
    pub fn new(template: &str) -> (r: Result<RoutePattern, CompileError>)
        ensures
            r is Ok <==> template_compiles(template@),
            r matches Ok(p) ==> p.template() == template@,
            r matches Err(e) ==> e.template@ == template@,
    {
        match regex_new(template) {
            Err(e) => Err(
                CompileError { template: String::from_str(template), message: regex_error_text(&e) },
            ),
            Ok(_) => {
                let mut text = String::from_str("^(?:");
                text.append(template);
                text.append(")$");
                match regex_new(text.as_str()) {
                    Err(e) => Err(
                        CompileError {
                            template: String::from_str(template),
                            message: regex_error_text(&e),
                        },
                    ),
                    Ok(regex) => {
                        let names = regex_names(&regex);
                        Ok(RoutePattern { template: String::from_str(template), regex, names })
                    },
                }
            },
        }
    }

    /// The template that the pattern was compiled from.
    pub fn as_str(&self) -> (s: &str)
        ensures
            s@ == self.template(),
    {
        self.template.as_str()
    }

    /// The pattern text handed to the matcher: the anchored template.
    pub fn matcher_source(&self) -> (s: &str)
        ensures
            s@ == anchored(self.template()),
    {
        proof {
            use_type_invariant(self);
        }
        regex_as_str(&self.regex)
    }

    /// The capture names that the pattern declares, in the order of their
    /// groups.
    pub fn capture_names(&self) -> (declared: Vec<String>)
        ensures
            segment_texts(declared@) == self.names(),
    {
        proof {
            use_type_invariant(self);
        }
        let mut declared: Vec<String> = Vec::new();
        let mut i: usize = 0;
        proof {
            reveal(Seq::filter);
            assert(texts(self.names@).take(0) =~= Seq::<Option<Seq<char>>>::empty());
            assert(segment_texts(declared@) =~= declared_names(texts(self.names@).take(0)));
        }
        while i < self.names.len()
            invariant
                i <= self.names.len(),
                segment_texts(declared@) == declared_names(texts(self.names@).take(i as int)),
            decreases self.names.len() - i,
        {
            let ghost all = texts(self.names@);
            proof {
                reveal(Seq::filter);
                assert(all.take(i + 1).drop_last() =~= all.take(i as int));
                assert(all.take(i + 1).last() == all[i as int]);
            }
            if let Some(name) = &self.names[i] {
                let ghost before = declared@;
                declared.push(name.clone());
                assert(segment_texts(declared@) =~= segment_texts(before).push(name@));
                assert(declared_names(all.take(i + 1)) =~= declared_names(all.take(i as int)).push(
                    name@,
                ));
            } else {
                assert(declared_names(all.take(i + 1)) =~= declared_names(all.take(i as int)));
            }
            i += 1;
        }
        assert(texts(self.names@).take(self.names@.len() as int) =~= texts(self.names@));
        declared
    }

    /// Whether the pattern matches the whole of `path`.
    pub fn match_path(&self, path: &str) -> (b: bool)
        ensures
            b == self.matches(path@),
    {
        proof {
            use_type_invariant(self);
        }
        regex_match(&self.regex, path)
    }

    /// The path parameters of `path`: one entry for each named group that
    /// took part in the match; an empty store where the path does not
    /// match.
    pub fn get_params(&self, path: &str) -> (params: Params)
        ensures
            params@ == self.params(path@),
            !self.matches(path@) ==> params@ == Map::<Seq<char>, Seq<char>>::empty(),
    {
        proof {
            use_type_invariant(self);
        }
        match regex_groups(&self.regex, path) {
            Some(groups) => bind_groups(&self.names, &groups),
            None => Params::new(),
        }
    }
}

} // verus!
