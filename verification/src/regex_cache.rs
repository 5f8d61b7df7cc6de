//! A compile-once cache of the patterns that the configuration holds.

use crate::text::{join3, text_eq};
use vstd::prelude::*;

verus! {

/// A compiled pattern of the `regex` crate.
#[verifier::external_type_specification]
#[verifier::external_body]
pub struct ExRegex(regex::Regex);

/// The error with which the `regex` crate refuses a pattern.
#[verifier::external_type_specification]
#[verifier::external_body]
pub struct ExRegexError(regex::Error);

/// The regex that `Regex::new` compiles `pattern` to, or `None` where it
/// refuses the pattern.
pub uninterp spec fn regex_new(pattern: Seq<char>) -> Option<regex::Regex>;

/// Whether a regex matches somewhere in `text`.
pub uninterp spec fn regex_accepts(re: regex::Regex, text: Seq<char>) -> bool;

/// `Regex::new`. Assumed: what a pattern compiles to, and whether it
/// compiles, depends on the pattern alone.
#[verifier::external_body]
fn compile(pattern: &str) -> (r: Result<regex::Regex, regex::Error>)
    ensures
        match regex_new(pattern@) {
            Some(re) => r matches Ok(compiled) && compiled == re,
            None => r is Err,
        },
{
    regex::Regex::new(pattern)
}

/// `Regex::is_match`. Assumed: the answer depends on the regex and on the
/// text alone.
#[verifier::external_body]
pub(crate) fn regex_is_match(re: &regex::Regex, text: &str) -> (r: bool)
    ensures
        r == regex_accepts(*re, text@),
{
    re.is_match(text)
}

/// `Regex::clone`. Assumed: the copy is the same regex.
#[verifier::external_body]
fn regex_clone(re: &regex::Regex) -> (r: regex::Regex)
    ensures
        r == *re,
{
    re.clone()
}

/// The text of a `regex::Error`, as its `Display` gives it. Nothing is
/// assumed of it.
#[verifier::external_body]
fn regex_error_text(error: &regex::Error) -> String {
    error.to_string()
}

/// Whether the pattern compiles.
pub open spec fn regex_compiles(pattern: Seq<char>) -> bool {
    regex_new(pattern) is Some
}

/// Whether the regex that `pattern` compiles to matches somewhere in `text`.
pub open spec fn regex_matches(pattern: Seq<char>, text: Seq<char>) -> bool {
    regex_new(pattern) matches Some(re) && regex_accepts(re, text)
}

/// What looking up `pattern` gives: the regex that the pattern compiles to,
/// or, where it does not compile, the compiler's complaint.
pub open spec fn is_lookup_of(pattern: Seq<char>, r: Result<regex::Regex, String>) -> bool {
    match regex_new(pattern) {
        Some(re) => r matches Ok(found) && found == re,
        None => r is Err,
    }
}

/// The patterns of a cache after `looked_up` has been looked up in it: a
/// pattern that the cache did not hold is added at the end.
pub open spec fn with_pattern(patterns: Seq<Seq<char>>, looked_up: Option<Seq<char>>) -> Seq<
    Seq<char>,
> {
    match looked_up {
        Some(p) => if patterns.contains(p) {
            patterns
        } else {
            patterns.push(p)
        },
        None => patterns,
    }
}

/// Two lookups of one pattern agree: both fail, or both give the same
/// regex, which therefore matches the same texts.
pub proof fn lemma_lookups_agree(
    pattern: Seq<char>,
    first: Result<regex::Regex, String>,
    second: Result<regex::Regex, String>,
    text: Seq<char>,
)
    requires
        is_lookup_of(pattern, first),
        is_lookup_of(pattern, second),
    ensures
        first is Ok == second is Ok,
        first is Ok ==> first->Ok_0 == second->Ok_0,
        first is Ok ==> regex_accepts(first->Ok_0, text) == regex_accepts(second->Ok_0, text),
{
}

/// One pattern that has been looked up, with what compiling it gave.
struct CachedPattern {
    pattern: String,
    compiled: Result<regex::Regex, String>,
}

/// The cache. Each pattern is compiled at most once; a pattern that does not
/// compile is remembered with its error.
pub struct RegexCache {
    entries: Vec<CachedPattern>,
}

impl RegexCache {
    #[verifier::type_invariant]
    spec fn well_formed(&self) -> bool {
        &&& forall|i: int|
            0 <= i < self.entries@.len() ==> is_lookup_of(
                (#[trigger] self.entries@[i]).pattern@,
                self.entries@[i].compiled,
            )
        &&& forall|i: int, j: int|
            0 <= i < j < self.entries@.len() ==> (#[trigger] self.entries@[i]).pattern@ != (
            #[trigger] self.entries@[j]).pattern@
    }

    /// The patterns that have been looked up so far, each once, in the order
    /// of their first lookup.
    pub closed spec fn patterns(&self) -> Seq<Seq<char>> {
        Seq::new(self.entries@.len(), |i: int| self.entries@[i].pattern@)
    }

    /// An empty cache.
    pub fn new() -> (cache: RegexCache)
        ensures
            cache.patterns() == Seq::<Seq<char>>::empty(),
    {
        let cache = RegexCache { entries: Vec::new() };
        assert(cache.patterns() =~= Seq::<Seq<char>>::empty());
        cache
    }

    /// The number of patterns in the cache.
    pub fn len(&self) -> (n: usize)
        ensures
            n == self.patterns().len(),
    {
        self.entries.len()
    }

    fn position(&self, pattern: &str) -> (r: Option<usize>)
        ensures
            match r {
                Some(i) => i < self.entries@.len() && self.entries@[i as int].pattern@ == pattern@,
                None => !self.patterns().contains(pattern@),
            },
    {
        let mut i: usize = 0;
        while i < self.entries.len()
            invariant
                i <= self.entries@.len(),
                forall|k: int| 0 <= k < i ==> self.entries@[k].pattern@ != pattern@,
            decreases self.entries@.len() - i,
        {
            if text_eq(self.entries[i].pattern.as_str(), pattern) {
                return Some(i);
            }
            i += 1;
        }
        None
    }

    /// Gets the regex for `pattern` from the cache, compiling it on its first
    /// lookup only. Every lookup of one pattern gives the same answer.
    pub fn get_regex(&mut self, pattern: &str) -> (r: Result<regex::Regex, String>)
        ensures
            is_lookup_of(pattern@, r),
            final(self).patterns() == with_pattern(old(self).patterns(), Some(pattern@)),
    {
        proof {
            use_type_invariant(&*self);
        }
        match self.position(pattern) {
            Some(i) => {
                assert(self.patterns()[i as int] == pattern@);
                match &self.entries[i].compiled {
                    Ok(re) => Ok(regex_clone(re)),
                    Err(text) => Err(text.clone()),
                }
            },
            None => {
                let (kept, given): (Result<regex::Regex, String>, Result<regex::Regex, String>) =
                    match compile(pattern) {
                    Ok(re) => {
                        let copy = regex_clone(&re);
                        (Ok(re), Ok(copy))
                    },
                    Err(error) => {
                        let text = regex_error_text(&error);
                        (Err(text.clone()), Err(text))
                    },
                };
                let ghost before = self.entries@;
                let entry = CachedPattern { pattern: pattern.to_owned(), compiled: kept };
                let mut taken = RegexCache { entries: Vec::new() };
                core::mem::swap(self, &mut taken);
                let RegexCache { entries } = taken;
                let mut entries = entries;
                entries.push(entry);
                proof {
                    assert(entries@ == before.push(entry));
                    assert forall|i: int| 0 <= i < before.len() implies (
                    #[trigger] before[i]).pattern@ != pattern@ by {
                        assert(old(self).patterns()[i] == before[i].pattern@);
                    }
                }
                *self = RegexCache { entries };
                proof {
                    assert forall|i: int| 0 <= i < before.len() implies (
                    #[trigger] before[i]).pattern@ != pattern@ by {
                        assert(old(self).patterns()[i] == before[i].pattern@);
                    }
                    assert(self.patterns() =~= old(self).patterns().push(pattern@));
                }
                given
            },
        }
    }
}

/// The outcome of looking up an optional pattern.
pub struct RegexLookup {
    /// The regex, where there is a pattern and it compiles.
    pub regex: Option<regex::Regex>,
    /// The warning to show, where there is a pattern that does not compile.
    pub warning: Option<String>,
}

/// The regex that takes part in matching: the one that the pattern compiles
/// to. A pattern that does not compile counts as absent.
pub open spec fn usable_pattern(pattern: Option<Seq<char>>) -> Option<regex::Regex> {
    match pattern {
        Some(p) => regex_new(p),
        None => None,
    }
}

/// Looks up an optional pattern. A pattern that does not compile gives no
/// regex and a warning that starts with `warn_prefix`.
pub fn get_regex_with_warning(cache: &mut RegexCache, pattern: Option<&str>, warn_prefix: &str) -> (r:
    RegexLookup)
    ensures
        r.regex == usable_pattern(pattern.deep_view()),
        r.warning is Some == (pattern is Some && !regex_compiles(pattern->0@)),
        r.warning matches Some(w) ==> (warn_prefix@ + ": "@).is_prefix_of(w@),
        final(cache).patterns() == with_pattern(old(cache).patterns(), pattern.deep_view()),
{
    match pattern {
        None => RegexLookup { regex: None, warning: None },
        Some(p) => match cache.get_regex(p) {
            Ok(re) => RegexLookup { regex: Some(re), warning: None },
            Err(text) => {
                let w = join3(warn_prefix, ": ", text.as_str());
                proof {
                    let head = warn_prefix@ + ": "@;
                    assert(w@.subrange(0, head.len() as int) =~= head);
                }
                RegexLookup { regex: None, warning: Some(w) }
            },
        },
    }
}

} // verus!
