//! Choosing the files that a hook looks at.

use crate::cfg::pre_commit_hooks::{HookDefinition, HookDefinitionView};
use crate::commands::run::RunConfig;
use crate::file_set::FileSet;
use crate::regex_cache::{
    get_regex_with_warning, regex_accepts, regex_is_match, usable_pattern, RegexCache,
};
use crate::text_order::{
    lemma_lt_asymmetric, lemma_lt_irreflexive, lemma_lt_transitive, order_of, strictly_sorted,
    text_lt, TextOrder,
};
use vstd::prelude::*;

verus! {

/// Puts `path` into the sorted list `files`, unless it is there already.
fn insert_sorted(files: &mut Vec<String>, path: String)
    requires
        strictly_sorted(old(files).deep_view()),
    ensures
        strictly_sorted(final(files).deep_view()),
        forall|p: Seq<char>|
            final(files).deep_view().contains(p) <==> (old(files).deep_view().contains(p) || p
                == path@),
        (old(files)@.len() == 0 || text_lt(old(files).deep_view().last(), path@))
            ==> final(files).deep_view() == old(files).deep_view().push(path@),
{
    let ghost before = files.deep_view();
    let n = files.len();
    if n == 0 {
        files.push(path);
        proof {
            assert(files.deep_view() =~= before.push(path@));
            assert forall|p: Seq<char>| files.deep_view().contains(p) <==> (before.contains(p) || p
                == path@) by {
                if p == path@ {
                    assert(files.deep_view()[0] == p);
                }
            }
        }
        return ;
    }
    match order_of(files[n - 1].as_str(), path.as_str()) {
        TextOrder::Before => {
            files.push(path);
            proof {
                let after = files.deep_view();
                assert(after =~= before.push(path@));
                assert(before.last() == before[n - 1]);
                assert forall|i: int, j: int| 0 <= i < j < after.len() implies text_lt(
                    #[trigger] after[i],
                    #[trigger] after[j],
                ) by {
                    if j == n {
                        if i < n - 1 {
                            assert(text_lt(before[i], before[n - 1]));
                            lemma_lt_transitive(before[i], before[n - 1], path@);
                        }
                    } else {
                        assert(after[i] == before[i] && after[j] == before[j]);
                    }
                }
                assert forall|p: Seq<char>| after.contains(p) <==> (before.contains(p) || p
                    == path@) by {
                    if p == path@ {
                        assert(after[n as int] == p);
                    }
                    if before.contains(p) {
                        let k = choose|k: int| 0 <= k < before.len() && before[k] == p;
                        assert(after[k] == p);
                    }
                    if after.contains(p) {
                        let k = choose|k: int| 0 <= k < after.len() && after[k] == p;
                        if k < n {
                            assert(before[k] == p);
                        }
                    }
                }
            }
            return ;
        },
        TextOrder::Same => {
            proof {
                assert(before[n - 1] == path@);
                lemma_lt_irreflexive(path@);
                assert(before.last() == before[n - 1]);
            }
            return ;
        },
        TextOrder::After => {},
    }
    proof {
        lemma_lt_asymmetric(before[n - 1], path@);
        assert(before.last() == before[n - 1]);
    }
    let mut lo: usize = 0;
    let mut hi: usize = n - 1;
    while lo < hi
        invariant
            lo <= hi < n,
            n == files@.len(),
            files.deep_view() == before,
            before == old(files).deep_view(),
            !text_lt(before.last(), path@),
            strictly_sorted(before),
            forall|k: int| 0 <= k < lo ==> text_lt(#[trigger] before[k], path@),
            forall|k: int| hi <= k < n ==> text_lt(path@, #[trigger] before[k]),
        decreases hi - lo,
    {
        let mid = lo + (hi - lo) / 2;
        match order_of(files[mid].as_str(), path.as_str()) {
            TextOrder::Before => {
                proof {
                    assert forall|k: int| 0 <= k < mid + 1 implies text_lt(
                        #[trigger] before[k],
                        path@,
                    ) by {
                        if k < mid {
                            assert(text_lt(before[k], before[mid as int]));
                            lemma_lt_transitive(before[k], before[mid as int], path@);
                        }
                    }
                }
                lo = mid + 1;
            },
            TextOrder::Same => {
                assert(before[mid as int] == path@);
                return ;
            },
            TextOrder::After => {
                proof {
                    assert forall|k: int| mid <= k < n implies text_lt(
                        path@,
                        #[trigger] before[k],
                    ) by {
                        if k > mid {
                            assert(text_lt(before[mid as int], before[k]));
                            lemma_lt_transitive(path@, before[mid as int], before[k]);
                        }
                    }
                }
                hi = mid;
            },
        }
    }
    files.insert(lo, path);
    proof {
        let after = files.deep_view();
        assert(after =~= before.insert(lo as int, path@));
        assert forall|i: int, j: int| 0 <= i < j < after.len() implies text_lt(
            #[trigger] after[i],
            #[trigger] after[j],
        ) by {
            if j < lo {
                assert(after[i] == before[i] && after[j] == before[j]);
            } else if j == lo {
                assert(after[i] == before[i]);
            } else if i < lo {
                assert(after[i] == before[i] && after[j] == before[j - 1]);
                assert(text_lt(before[i], path@));
                assert(text_lt(path@, before[j - 1]));
                lemma_lt_transitive(before[i], path@, before[j - 1]);
            } else if i == lo {
                assert(after[j] == before[j - 1]);
            } else {
                assert(after[i] == before[i - 1] && after[j] == before[j - 1]);
            }
        }
        assert forall|p: Seq<char>| after.contains(p) <==> (before.contains(p) || p == path@) by {
            if p == path@ {
                assert(after[lo as int] == p);
            }
            if before.contains(p) {
                let k = choose|k: int| 0 <= k < before.len() && before[k] == p;
                if k < lo {
                    assert(after[k] == p);
                } else {
                    assert(after[k + 1] == p);
                }
            }
            if after.contains(p) {
                let k = choose|k: int| 0 <= k < after.len() && after[k] == p;
                if k < lo {
                    assert(before[k] == p);
                } else if k > lo {
                    assert(before[k - 1] == p);
                }
            }
        }
    }
}

/// The files that one hook looks at: a sorted set of paths, relative to the
/// root of the working tree.
#[derive(Debug)]
pub struct MatchingFiles {
    root_path: String,
    files: Vec<String>,
}

impl MatchingFiles {
    #[verifier::type_invariant]
    spec fn well_formed(&self) -> bool {
        strictly_sorted(self.files.deep_view())
    }

    /// The root of the working tree.
    pub closed spec fn root(&self) -> Seq<char> {
        self.root_path@
    }

    /// The paths, in ascending order, each once.
    pub closed spec fn paths(&self) -> Seq<Seq<char>> {
        self.files.deep_view()
    }

    /// Whether the hook has no file to look at.
    pub fn is_empty(&self) -> (r: bool)
        ensures
            r == (self.paths().len() == 0),
    {
        self.files.len() == 0
    }

    /// The number of files.
    pub fn len(&self) -> (n: usize)
        ensures
            n == self.paths().len(),
    {
        self.files.len()
    }

    /// The root of the working tree.
    pub fn root_path(&self) -> (r: &String)
        ensures
            r@ == self.root(),
    {
        &self.root_path
    }

    /// The paths, in ascending order, each once.
    pub fn files(&self) -> (r: &Vec<String>)
        ensures
            r.deep_view() == self.paths(),
            strictly_sorted(self.paths()),
    {
        proof {
            use_type_invariant(self);
        }
        &self.files
    }

    fn from_sorted(root_path: &str, files: Vec<String>) -> (mf: MatchingFiles)
        requires
            strictly_sorted(files.deep_view()),
        ensures
            mf.root() == root_path@,
            mf.paths() == files.deep_view(),
    {
        MatchingFiles { root_path: root_path.to_owned(), files }
    }

    /// The set of the given paths under `root_path`.
    pub fn from_paths(root_path: &str, paths: &Vec<String>) -> (mf: MatchingFiles)
        ensures
            mf.root() == root_path@,
            strictly_sorted(mf.paths()),
            forall|p: Seq<char>| mf.paths().contains(p) <==> paths.deep_view().contains(p),
            strictly_sorted(paths.deep_view()) ==> mf.paths() == paths.deep_view(),
    {
        let mut files: Vec<String> = Vec::new();
        let mut i: usize = 0;
        assert(files.deep_view() =~= paths.deep_view().take(0));
        while i < paths.len()
            invariant
                i <= paths.len(),
                strictly_sorted(files.deep_view()),
                forall|p: Seq<char>|
                    files.deep_view().contains(p) <==> paths.deep_view().take(i as int).contains(p),
                strictly_sorted(paths.deep_view()) ==> files.deep_view() == paths.deep_view().take(
                    i as int,
                ),
            decreases paths.len() - i,
        {
            let ghost before = files.deep_view();
            let ghost all = paths.deep_view();
            insert_sorted(&mut files, paths[i].clone());
            i += 1;
            proof {
                let now = all.take(i as int);
                let earlier = all.take(i - 1);
                assert(now =~= earlier.push(all[i - 1]));
                assert forall|p: Seq<char>| files.deep_view().contains(p) <==> now.contains(p) by {
                    if earlier.contains(p) {
                        let k = choose|k: int| 0 <= k < earlier.len() && earlier[k] == p;
                        assert(now[k] == p);
                    }
                    if p == all[i - 1] {
                        assert(now[i - 1] == p);
                    }
                    if now.contains(p) {
                        let k = choose|k: int| 0 <= k < now.len() && now[k] == p;
                        if k < i - 1 {
                            assert(earlier[k] == p);
                        }
                    }
                }
                if strictly_sorted(all) {
                    if i > 1 {
                        assert(before.last() == all[i - 2]);
                        assert(text_lt(all[i - 2], all[i - 1]));
                    }
                }
            }
        }
        assert(paths.deep_view().take(paths.len() as int) =~= paths.deep_view());
        MatchingFiles { root_path: root_path.to_owned(), files }
    }
}

/// The filters that decide which files a hook looks at.
pub struct Filters {
    /// The project-wide pattern that a path must match.
    pub config_files: Option<regex::Regex>,
    /// The project-wide pattern that a path must not match.
    pub config_exclude: Option<regex::Regex>,
    /// The hook's pattern that a path must not match.
    pub hook_exclude: Option<regex::Regex>,
    /// The hook's pattern that a path must match.
    pub hook_files: Option<regex::Regex>,
    /// Tags all of which a file must have.
    pub types: Seq<Seq<char>>,
    /// Tags one of which a file must have.
    pub types_or: Seq<Seq<char>>,
}

/// The tags of an optional list: an absent list is an empty one.
pub open spec fn listed(tags: Option<Seq<Seq<char>>>) -> Seq<Seq<char>> {
    match tags {
        Some(t) => t,
        None => Seq::empty(),
    }
}

/// The filters of a hook in a run. A pattern of the hook that does not
/// compile counts as absent.
pub open spec fn filters_of(run_config: RunConfig, hook: HookDefinitionView) -> Filters {
    Filters {
        config_files: run_config.files_re,
        config_exclude: run_config.exclude_re,
        hook_exclude: usable_pattern(hook.exclude),
        hook_files: usable_pattern(hook.files),
        types: listed(hook.types),
        types_or: listed(hook.types_or),
    }
}

/// Whether a path gets past the four patterns: the project's `files`, the
/// project's `exclude`, the hook's `exclude` and the hook's `files`.
pub open spec fn passes_patterns(f: Filters, path: Seq<char>) -> bool {
    &&& f.config_files matches Some(re) ==> regex_accepts(re, path)
    &&& f.config_exclude matches Some(re) ==> !regex_accepts(re, path)
    &&& f.hook_exclude matches Some(re) ==> !regex_accepts(re, path)
    &&& f.hook_files matches Some(re) ==> regex_accepts(re, path)
}

/// Whether a file with the given tags gets past the type filter. With both
/// lists empty the filter is off. Otherwise the file needs all the tags of
/// `types`, where that list is not empty, or one tag of `types_or`, where
/// that list is not empty.
pub open spec fn passes_type_filter(f: Filters, tags: Set<Seq<char>>) -> bool {
    ||| f.types.len() == 0 && f.types_or.len() == 0
    ||| f.types.len() > 0 && forall|i: int| 0 <= i < f.types.len() ==> tags.contains(#[trigger] f.types[i])
    ||| f.types_or.len() > 0 && exists|i: int| 0 <= i < f.types_or.len() && tags.contains(#[trigger] f.types_or[i])
}

/// Whether the file at position `k` of the file set is selected.
pub open spec fn is_selected(f: Filters, fileset: FileSet, k: int) -> bool {
    passes_patterns(f, fileset.paths()[k]) && passes_type_filter(f, fileset.tags_at(k))
}

/// The paths of the selected files among the first `n` of the file set, in
/// listing order.
pub open spec fn selected_paths(f: Filters, fileset: FileSet, n: int) -> Seq<Seq<char>>
    decreases n,
{
    if n <= 0 {
        Seq::empty()
    } else if is_selected(f, fileset, n - 1) {
        selected_paths(f, fileset, n - 1).push(fileset.paths()[n - 1])
    } else {
        selected_paths(f, fileset, n - 1)
    }
}

/// The position in the file set of the selected file that stands at
/// position `at` among the selected files of the first `n`.
pub open spec fn position_of_selected(f: Filters, fileset: FileSet, n: int, at: int) -> int
    decreases n,
{
    if n <= 0 {
        -1
    } else if is_selected(f, fileset, n - 1) && at == selected_paths(f, fileset, n - 1).len() {
        n - 1
    } else {
        position_of_selected(f, fileset, n - 1, at)
    }
}

/// The selected paths are a part of the file set's paths in the file set's
/// order: each of them is the path of a selected file, and a path that
/// stands before another among the selected ones stands before it in the
/// file set.
pub proof fn lemma_selected_paths_keep_order(f: Filters, fileset: FileSet, n: int, a: int, b: int)
    requires
        0 <= n <= fileset.paths().len(),
        0 <= a <= b < selected_paths(f, fileset, n).len(),
    ensures
        ({
            let i = position_of_selected(f, fileset, n, a);
            let j = position_of_selected(f, fileset, n, b);
            &&& 0 <= i <= j < n
            &&& a < b ==> i < j
            &&& is_selected(f, fileset, i)
            &&& is_selected(f, fileset, j)
            &&& selected_paths(f, fileset, n)[a] == fileset.paths()[i]
            &&& selected_paths(f, fileset, n)[b] == fileset.paths()[j]
        }),
    decreases n,
{
    if n > 0 {
        let before = selected_paths(f, fileset, n - 1);
        if is_selected(f, fileset, n - 1) {
            if b == before.len() {
                if a < b {
                    lemma_selected_paths_keep_order(f, fileset, n - 1, a, a);
                }
            } else {
                lemma_selected_paths_keep_order(f, fileset, n - 1, a, b);
            }
        } else {
            lemma_selected_paths_keep_order(f, fileset, n - 1, a, b);
        }
    }
}

/// Whether `p` is the path of a selected file among the first `n`.
pub open spec fn is_selected_path(f: Filters, fileset: FileSet, n: int, p: Seq<char>) -> bool {
    exists|k: int| 0 <= k < n && fileset.paths()[k] == p && #[trigger] is_selected(f, fileset, k)
}

fn has_all_types(fileset: &FileSet, index: usize, types: &Vec<String>) -> (r: bool)
    requires
        index < fileset.paths().len(),
    ensures
        r == forall|i: int|
            0 <= i < types.deep_view().len() ==> fileset.tags_at(index as int).contains(
                #[trigger] types.deep_view()[i],
            ),
{
    let mut i: usize = 0;
    while i < types.len()
        invariant
            i <= types.len(),
            index < fileset.paths().len(),
            forall|k: int|
                0 <= k < i ==> fileset.tags_at(index as int).contains(#[trigger] types.deep_view()[k]),
        decreases types.len() - i,
    {
        if !fileset.has_type_at(index, types[i].as_str()) {
            assert(!fileset.tags_at(index as int).contains(types.deep_view()[i as int]));
            return false;
        }
        i += 1;
    }
    true
}

fn has_any_type(fileset: &FileSet, index: usize, types: &Vec<String>) -> (r: bool)
    requires
        index < fileset.paths().len(),
    ensures
        r == exists|i: int|
            0 <= i < types.deep_view().len() && fileset.tags_at(index as int).contains(
                #[trigger] types.deep_view()[i],
            ),
{
    let mut i: usize = 0;
    while i < types.len()
        invariant
            i <= types.len(),
            index < fileset.paths().len(),
            forall|k: int|
                0 <= k < i ==> !fileset.tags_at(index as int).contains(#[trigger] types.deep_view()[k]),
        decreases types.len() - i,
    {
        if fileset.has_type_at(index, types[i].as_str()) {
            assert(fileset.tags_at(index as int).contains(types.deep_view()[i as int]));
            return true;
        }
        i += 1;
    }
    false
}

fn type_filter(fileset: &FileSet, index: usize, hook: &HookDefinition) -> (r: bool)
    requires
        index < fileset.paths().len(),
    ensures
        r == ({
            let types = listed(hook.types.deep_view());
            let types_or = listed(hook.types_or.deep_view());
            let tags = fileset.tags_at(index as int);
            ||| types.len() == 0 && types_or.len() == 0
            ||| types.len() > 0 && forall|i: int| 0 <= i < types.len() ==> tags.contains(#[trigger] types[i])
            ||| types_or.len() > 0 && exists|i: int| 0 <= i < types_or.len() && tags.contains(#[trigger] types_or[i])
        }),
{
    let mut filtering = false;
    match &hook.types {
        Some(types) => {
            if types.len() > 0 {
                filtering = true;
                if has_all_types(fileset, index, types) {
                    return true;
                }
            }
        },
        None => {},
    }
    match &hook.types_or {
        Some(types_or) => {
            if types_or.len() > 0 {
                filtering = true;
                if has_any_type(fileset, index, types_or) {
                    return true;
                }
            }
        },
        None => {},
    }
    !filtering
}

fn opt_str(text: &Option<String>) -> (r: Option<&str>)
    ensures
        r.deep_view() == text.deep_view(),
{
    match text {
        Some(t) => Some(t.as_str()),
        None => None,
    }
}

/// What the four patterns say of one path: for each pattern that is
/// present, whether the path matches it.
#[derive(Debug, Clone, Copy, PartialEq, Eq, Structural)]
pub struct PatternMatches {
    /// The project's `files` pattern.
    pub config_files: Option<bool>,
    /// The project's `exclude` pattern.
    pub config_exclude: Option<bool>,
    /// The hook's `exclude` pattern.
    pub hook_exclude: Option<bool>,
    /// The hook's `files` pattern.
    pub hook_files: Option<bool>,
}

/// What the patterns of `f` say of `path`.
pub open spec fn pattern_matches(f: Filters, path: Seq<char>) -> PatternMatches {
    PatternMatches {
        config_files: match f.config_files {
            Some(re) => Some(regex_accepts(re, path)),
            None => None,
        },
        config_exclude: match f.config_exclude {
            Some(re) => Some(regex_accepts(re, path)),
            None => None,
        },
        hook_exclude: match f.hook_exclude {
            Some(re) => Some(regex_accepts(re, path)),
            None => None,
        },
        hook_files: match f.hook_files {
            Some(re) => Some(regex_accepts(re, path)),
            None => None,
        },
    }
}

/// Whether a file is selected, given what the patterns say of its path and
/// whether it gets past the type filter: it must match each `files`
/// pattern that is present, match no `exclude` pattern that is present, and
/// get past the type filter.
pub open spec fn selected_by(matches: PatternMatches, type_filter_passed: bool) -> bool {
    &&& matches.config_files != Some(false)
    &&& matches.config_exclude != Some(true)
    &&& matches.hook_exclude != Some(true)
    &&& matches.hook_files != Some(false)
    &&& type_filter_passed
}

/// Decides whether a file is selected: see [`selected_by`].
pub fn is_file_selected(matches: PatternMatches, type_filter_passed: bool) -> (r: bool)
    ensures
        r == selected_by(matches, type_filter_passed),
{
    let files_ok = match matches.config_files {
        Some(m) => m,
        None => true,
    };
    let not_excluded = match matches.config_exclude {
        Some(m) => !m,
        None => true,
    };
    let hook_not_excluded = match matches.hook_exclude {
        Some(m) => !m,
        None => true,
    };
    let hook_files_ok = match matches.hook_files {
        Some(m) => m,
        None => true,
    };
    files_ok && not_excluded && hook_not_excluded && hook_files_ok && type_filter_passed
}

/// Selecting by what the patterns say is selecting by the patterns.
proof fn lemma_selected_by(f: Filters, fileset: FileSet, k: int)
    ensures
        is_selected(f, fileset, k) == selected_by(
            pattern_matches(f, fileset.paths()[k]),
            passes_type_filter(f, fileset.tags_at(k)),
        ),
{
}

fn match_opt(re: &Option<regex::Regex>, path: &str) -> (r: Option<bool>)
    ensures
        r == (match *re {
            Some(re) => Some(regex_accepts(re, path@)),
            None => None,
        }),
{
    match re {
        Some(re) => Some(regex_is_match(re, path)),
        None => None,
    }
}

/// Selects the files of `fileset` that `hook` looks at. A file is judged
/// by, in this order: the project's `files` pattern, which it must match;
/// the project's `exclude` pattern, which it must not match; the hook's
/// `exclude` pattern, which it must not match; the hook's `files` pattern,
/// which it must match; and the type filter. The first filter that fails
/// leaves the file out. The hook's patterns are compiled through `cache`.
///
/// The result is a sorted set: a subset of the file set's paths, each once.
/// Where the file set's paths are in ascending order themselves, the result
/// keeps the selected paths in the file set's order.
pub fn get_matching_files(
    run_config: &RunConfig,
    fileset: &FileSet,
    hook: &HookDefinition,
    cache: &mut RegexCache,
) -> (mf: MatchingFiles)
    ensures
        mf.root() == fileset.root(),
        strictly_sorted(mf.paths()),
        forall|p: Seq<char>|
            mf.paths().contains(p) <==> is_selected_path(
                filters_of(*run_config, hook.deep_view()),
                *fileset,
                fileset.paths().len() as int,
                p,
            ),
        forall|p: Seq<char>| mf.paths().contains(p) ==> fileset.paths().contains(p),
        strictly_sorted(fileset.paths()) ==> mf.paths() == selected_paths(
            filters_of(*run_config, hook.deep_view()),
            *fileset,
            fileset.paths().len() as int,
        ),
        final(cache).patterns() == crate::regex_cache::with_pattern(
            crate::regex_cache::with_pattern(old(cache).patterns(), hook.exclude.deep_view()),
            hook.files.deep_view(),
        ),
{
    let hook_exclude_re = get_regex_with_warning(
        cache,
        opt_str(&hook.exclude),
        "unable to compile regex for `exclude`",
    ).regex;
    let hook_files_re = get_regex_with_warning(
        cache,
        opt_str(&hook.files),
        "unable to compile regex for `files`",
    ).regex;
    let ghost f = filters_of(*run_config, hook.deep_view());
    let ghost all = fileset.paths();
    let files = fileset.files();
    let mut matching: Vec<String> = Vec::new();
    let mut i: usize = 0;
    while i < files.len()
        invariant
            i <= files.len(),
            files.deep_view() == all,
            all == fileset.paths(),
            f == filters_of(*run_config, hook.deep_view()),
            hook_exclude_re == f.hook_exclude,
            hook_files_re == f.hook_files,
            strictly_sorted(matching.deep_view()),
            forall|p: Seq<char>|
                matching.deep_view().contains(p) <==> is_selected_path(f, *fileset, i as int, p),
            strictly_sorted(all) ==> matching.deep_view() == selected_paths(f, *fileset, i as int),
        decreases files.len() - i,
    {
        let file = &files[i];
        assert(file@ == all[i as int]);
        let matches = PatternMatches {
            config_files: match_opt(&run_config.files_re, file.as_str()),
            config_exclude: match_opt(&run_config.exclude_re, file.as_str()),
            hook_exclude: match_opt(&hook_exclude_re, file.as_str()),
            hook_files: match_opt(&hook_files_re, file.as_str()),
        };
        let keep = is_file_selected(matches, type_filter(fileset, i, hook));
        proof {
            assert(matches == pattern_matches(f, all[i as int]));
            lemma_selected_by(f, *fileset, i as int);
        }
        assert(keep == is_selected(f, *fileset, i as int));
        let ghost before = matching.deep_view();
        if keep {
            insert_sorted(&mut matching, file.clone());
        }
        i += 1;
        proof {
            let path = all[i - 1];
            assert forall|p: Seq<char>|
                matching.deep_view().contains(p) <==> is_selected_path(f, *fileset, i as int, p) by {
                if is_selected_path(f, *fileset, i - 1, p) {
                    let k = choose|k: int|
                        0 <= k < i - 1 && fileset.paths()[k] == p && #[trigger] is_selected(
                            f,
                            *fileset,
                            k,
                        );
                    assert(is_selected(f, *fileset, k));
                }
                if keep && p == path {
                    assert(is_selected(f, *fileset, i - 1));
                }
                if is_selected_path(f, *fileset, i as int, p) {
                    let k = choose|k: int|
                        0 <= k < i && fileset.paths()[k] == p && #[trigger] is_selected(
                            f,
                            *fileset,
                            k,
                        );
                    if k < i - 1 {
                        assert(is_selected_path(f, *fileset, i - 1, p));
                    }
                }
            }
            if strictly_sorted(all) && keep && before.len() > 0 {
                let last = before.last();
                assert(before.contains(last)) by {
                    assert(before[before.len() - 1] == last);
                }
                let k = choose|k: int|
                    0 <= k < i - 1 && fileset.paths()[k] == last && #[trigger] is_selected(
                        f,
                        *fileset,
                        k,
                    );
                assert(text_lt(all[k], all[i - 1]));
            }
        }
    }
    let mf = MatchingFiles::from_sorted(fileset.root_path().as_str(), matching);
    proof {
        assert forall|p: Seq<char>| mf.paths().contains(p) implies fileset.paths().contains(p) by {
            let k = choose|k: int|
                0 <= k < all.len() && fileset.paths()[k] == p && #[trigger] is_selected(
                    f,
                    *fileset,
                    k,
                );
            assert(all[k] == p);
        }
    }
    mf
}

} // verus!
