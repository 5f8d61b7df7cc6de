//! The files of the working tree that a run looks at, with the type tags of
//! each.

use crate::helpers::{fx_digest, hash_bytes};
use crate::text::{
    ascii_lowercase, chars_of, clone_texts, join3, join_with, joined, lowercase_from, push_chars,
    push_text, text_eq,
};
use std::collections::HashMap;
use vstd::prelude::*;
use vstd::utf8::encode_utf8;

verus! {

/// The length of the shortest prefix of `s` that holds every `c` of `s`:
/// the position just behind the last `c`, or zero where `s` holds none.
pub open spec fn after_last(s: Seq<char>, c: char) -> int
    decreases s.len(),
{
    if s.len() == 0 {
        0
    } else if s.last() == c {
        s.len() as int
    } else {
        after_last(s.drop_last(), c)
    }
}

/// The final component of a path whose components are separated by `/`:
/// what follows the last slash. A path that ends in a slash, in `.` or in
/// `..` has none.
pub open spec fn file_name_of(path: Seq<char>) -> Option<Seq<char>> {
    let name = path.subrange(after_last(path, '/'), path.len() as int);
    if name.len() == 0 || name == seq!['.'] || name == seq!['.', '.'] {
        None
    } else {
        Some(name)
    }
}

/// The extension of a file name: what follows its last dot. A name without
/// a dot, or whose only dot is its first character, has none.
pub open spec fn extension_of(name: Seq<char>) -> Option<Seq<char>> {
    let dot = after_last(name, '.');
    if dot <= 1 {
        None
    } else {
        Some(name.subrange(dot, name.len() as int))
    }
}

/// What the type classifier is asked about a path: the extension of its
/// file name in lowercase, and the file name itself.
pub struct TypeQuery {
    pub extension: Option<String>,
    pub name: Option<String>,
}

/// The extension to classify a path by.
pub open spec fn query_extension(path: Seq<char>) -> Option<Seq<char>> {
    match file_name_of(path) {
        Some(name) => match extension_of(name) {
            Some(ext) => Some(ascii_lowercase(ext)),
            None => None,
        },
        None => None,
    }
}

fn position_after_last(chars: &Vec<char>, from: usize, c: char) -> (r: usize)
    requires
        from <= chars.len(),
    ensures
        r == from + after_last(chars@.subrange(from as int, chars.len() as int), c),
        from <= r <= chars.len(),
{
    let ghost s = chars@.subrange(from as int, chars.len() as int);
    let mut i: usize = chars.len();
    assert(s.take(s.len() as int) =~= s);
    while i > from
        invariant
            from <= i <= chars.len(),
            s == chars@.subrange(from as int, chars.len() as int),
            after_last(s, c) == after_last(s.take(i - from), c),
        decreases i,
    {
        let ghost cur = s.take(i - from);
        assert(cur.last() == chars@[i - 1]);
        if chars[i - 1] == c {
            return i;
        }
        assert(cur.drop_last() =~= s.take(i - 1 - from));
        i -= 1;
    }
    assert(s.take(0).len() == 0);
    from
}

/// What to ask the type classifier about `path`.
pub fn type_query(path: &str) -> (q: TypeQuery)
    ensures
        q.name.deep_view() == file_name_of(path@),
        q.extension.deep_view() == query_extension(path@),
{
    let chars = chars_of(path);
    let start = position_after_last(&chars, 0, '/');
    assert(chars@.subrange(0, chars.len() as int) =~= chars@);
    let n = chars.len();
    let ghost name = path@.subrange(start as int, n as int);
    let is_dot = n - start == 1 && chars[start] == '.';
    let is_dot_dot = n - start == 2 && chars[start] == '.' && chars[start + 1] == '.';
    proof {
        if is_dot {
            assert(name =~= seq!['.']);
        }
        if is_dot_dot {
            assert(name =~= seq!['.', '.']);
        }
        if name == seq!['.'] {
            assert(name[0] == '.');
        }
        if name == seq!['.', '.'] {
            assert(name[0] == '.' && name[1] == '.');
        }
    }
    if start == n || is_dot || is_dot_dot {
        return TypeQuery { extension: None, name: None };
    }
    let mut name_text = String::new();
    push_chars(&mut name_text, &chars, start, n);
    assert(name_text@ =~= name);
    let dot = position_after_last(&chars, start, '.');
    let extension = if dot - start <= 1 {
        None
    } else {
        let ext = lowercase_from(&chars, dot);
        assert(chars@.subrange(dot as int, n as int) =~= name.subrange(dot - start, name.len() as int));
        Some(ext)
    };
    TypeQuery { extension, name: Some(name_text) }
}

/// A path of the working tree with the type tags that the classifier gave
/// for its extension and for its file name.
#[derive(Debug, Clone, PartialEq)]
pub struct ClassifiedFile {
    pub path: String,
    pub extension_types: Vec<String>,
    pub name_types: Vec<String>,
}

/// The tags that stand in one of two lists.
pub open spec fn tag_set(a: Seq<Seq<char>>, b: Seq<Seq<char>>) -> Set<Seq<char>> {
    Set::new(|t: Seq<char>| a.contains(t) || b.contains(t))
}

/// The digest by which a path is found in a file set.
pub open spec fn path_digest(path: Seq<char>) -> u64 {
    fx_digest(encode_utf8(path))
}

fn digest_of(path: &str) -> (d: u64)
    ensures
        d == path_digest(path@),
{
    hash_bytes(path.as_bytes())
}

/// Every position of `files` stands in the index under the digest of its
/// path, and the index holds positions of `files` only.
pub open spec fn is_index_of(index: Map<u64, Vec<usize>>, files: Seq<Seq<char>>) -> bool {
    &&& forall|i: int|
        0 <= i < files.len() ==> index.contains_key(path_digest(#[trigger] files[i]))
            && index[path_digest(files[i])]@.contains(i as usize)
    &&& forall|k: u64, j: int|
        index.contains_key(k) && 0 <= j < index[k]@.len() ==> (#[trigger] index[k]@[j]) < files.len()
}

/// The files that a run looks at, in the order in which git listed them,
/// each with its set of type tags. Built once per run and not changed after.
#[derive(Debug)]
pub struct FileSet {
    root_path: String,
    files: Vec<String>,
    types: Vec<Vec<String>>,
    index: HashMap<u64, Vec<usize>>,
}

/// Whether `tags` holds `tag`.
fn holds_tag(tags: &Vec<String>, tag: &str) -> (r: bool)
    ensures
        r == tags.deep_view().contains(tag@),
{
    let mut i: usize = 0;
    while i < tags.len()
        invariant
            i <= tags.len(),
            forall|k: int| 0 <= k < i ==> tags.deep_view()[k] != tag@,
        decreases tags.len() - i,
    {
        if text_eq(tags[i].as_str(), tag) {
            assert(tags.deep_view()[i as int] == tag@);
            return true;
        }
        i += 1;
    }
    false
}

/// Puts the position `at`, which is the next position of `files`, into the
/// index under the digest of its path.
fn index_position(index: &mut HashMap<u64, Vec<usize>>, path: &str, at: usize, Ghost(files): Ghost<Seq<Seq<char>>>)
    requires
        is_index_of(old(index)@, files),
        at == files.len(),
    ensures
        is_index_of(final(index)@, files.push(path@)),
{
    broadcast use vstd::std_specs::hash::group_hash_axioms;

    let digest = digest_of(path);
    let mut bucket: Vec<usize> = match index.get(&digest) {
        Some(positions) => positions.clone(),
        None => Vec::new(),
    };
    let ghost before = index@;
    let ghost old_bucket = bucket@;
    bucket.push(at);
    index.insert(digest, bucket);
    proof {
        let after = index@;
        let grown = files.push(path@);
        assert(after == before.insert(digest, bucket));
        assert(bucket@ == old_bucket.push(at));
        assert(before.contains_key(digest) ==> before[digest]@ == old_bucket);
        assert forall|i: int| 0 <= i < grown.len() implies after.contains_key(
            path_digest(#[trigger] grown[i]),
        ) && after[path_digest(grown[i])]@.contains(i as usize) by {
            if i < files.len() {
                assert(grown[i] == files[i]);
                let d = path_digest(files[i]);
                assert(before.contains_key(d) && before[d]@.contains(i as usize));
                if d == digest {
                    let j = choose|j: int| 0 <= j < old_bucket.len() && old_bucket[j] == i as usize;
                    assert(bucket@[j] == i as usize);
                }
            } else {
                assert(grown[i] == path@);
                assert(bucket@[old_bucket.len() as int] == at);
            }
        }
        assert forall|k: u64, j: int|
            after.contains_key(k) && 0 <= j < after[k]@.len() implies (#[trigger] after[k]@[j])
            < grown.len() by {
            if k == digest {
                if j < old_bucket.len() {
                    assert(before.contains_key(digest));
                    assert(before[digest]@[j] < files.len());
                }
            } else {
                assert(before.contains_key(k));
                assert(before[k]@[j] < files.len());
            }
        }
    }
}

impl FileSet {
    #[verifier::type_invariant]
    spec fn well_formed(&self) -> bool {
        &&& self.types@.len() == self.files@.len()
        &&& is_index_of(self.index@, self.files.deep_view())
    }

    /// The root of the working tree.
    pub closed spec fn root(&self) -> Seq<char> {
        self.root_path@
    }

    /// The paths, relative to the root, in listing order.
    pub closed spec fn paths(&self) -> Seq<Seq<char>> {
        self.files.deep_view()
    }

    /// The type tags of the file at position `i`.
    pub closed spec fn tags_at(&self, i: int) -> Set<Seq<char>> {
        Set::new(|t: Seq<char>| self.types@[i].deep_view().contains(t))
    }

    /// Whether the file set holds `path` with the tag `tag`.
    pub open spec fn has_type_spec(&self, path: Seq<char>, tag: Seq<char>) -> bool {
        exists|i: int|
            0 <= i < self.paths().len() && self.paths()[i] == path && #[trigger] self.tags_at(
                i,
            ).contains(tag)
    }

    /// The forward index: each path that has a tag, with its tags.
    pub open spec fn types_by_file(&self) -> Map<Seq<char>, Set<Seq<char>>> {
        Map::new(
            |p: Seq<char>| exists|t: Seq<char>| self.has_type_spec(p, t),
            |p: Seq<char>| Set::new(|t: Seq<char>| self.has_type_spec(p, t)),
        )
    }

    /// The reverse index: each tag that a file has, with the paths that have it.
    pub open spec fn files_by_type(&self) -> Map<Seq<char>, Set<Seq<char>>> {
        Map::new(
            |t: Seq<char>| exists|p: Seq<char>| self.has_type_spec(p, t),
            |t: Seq<char>| Set::new(|p: Seq<char>| self.has_type_spec(p, t)),
        )
    }

    /// Builds the file set of the working tree at `root_path` from the listed
    /// paths and what the classifier said of each: a file's tags are those of
    /// its extension together with those of its name.
    pub fn from_raw_files(root_path: &str, files: &Vec<ClassifiedFile>) -> (fs: FileSet)
        ensures
            fs.root() == root_path@,
            fs.paths().len() == files.len(),
            forall|i: int| 0 <= i < files.len() ==> #[trigger] fs.paths()[i] == files[i].path@,
            forall|i: int|
                0 <= i < files.len() ==> #[trigger] fs.tags_at(i) == tag_set(
                    files[i].extension_types.deep_view(),
                    files[i].name_types.deep_view(),
                ),
    {
        broadcast use vstd::std_specs::hash::group_hash_axioms;

        let mut paths: Vec<String> = Vec::new();
        let mut types: Vec<Vec<String>> = Vec::new();
        let mut index: HashMap<u64, Vec<usize>> = HashMap::new();
        let mut i: usize = 0;
        while i < files.len()
            invariant
                i <= files.len(),
                paths@.len() == i,
                types@.len() == i,
                is_index_of(index@, paths.deep_view()),
                forall|k: int| 0 <= k < i ==> (#[trigger] paths@[k])@ == files[k].path@,
                forall|k: int|
                    0 <= k < i ==> (#[trigger] types@[k]).deep_view() == files[k].extension_types.deep_view()
                        + files[k].name_types.deep_view(),
            decreases files.len() - i,
        {
            let file = &files[i];
            let mut tags = clone_texts(&file.extension_types);
            let mut k: usize = 0;
            while k < file.name_types.len()
                invariant
                    k <= file.name_types.len(),
                    tags.deep_view() == file.extension_types.deep_view()
                        + file.name_types.deep_view().take(k as int),
                decreases file.name_types.len() - k,
            {
                push_text(&mut tags, file.name_types[k].clone());
                k += 1;
                assert(tags.deep_view() =~= file.extension_types.deep_view()
                    + file.name_types.deep_view().take(k as int));
            }
            assert(file.name_types.deep_view().take(file.name_types.len() as int)
                =~= file.name_types.deep_view());
            index_position(&mut index, file.path.as_str(), i, Ghost(paths.deep_view()));
            push_text(&mut paths, file.path.clone());
            types.push(tags);
            i += 1;
        }
        let fs = FileSet { root_path: root_path.to_owned(), files: paths, types, index };
        proof {
            assert forall|i: int| 0 <= i < files.len() implies #[trigger] fs.tags_at(i) == tag_set(
                files[i].extension_types.deep_view(),
                files[i].name_types.deep_view(),
            ) by {
                let a = files[i].extension_types.deep_view();
                let b = files[i].name_types.deep_view();
                let all = fs.types@[i].deep_view();
                assert(all == a + b);
                assert forall|t: Seq<char>| all.contains(t) == (a.contains(t) || b.contains(t)) by {
                    if all.contains(t) {
                        let j = choose|j: int| 0 <= j < all.len() && all[j] == t;
                        if j < a.len() {
                            assert(a[j] == t);
                        } else {
                            assert(b[j - a.len()] == t);
                        }
                    }
                    if a.contains(t) {
                        let j = choose|j: int| 0 <= j < a.len() && a[j] == t;
                        assert(all[j] == t);
                    }
                    if b.contains(t) {
                        let j = choose|j: int| 0 <= j < b.len() && b[j] == t;
                        assert(all[a.len() + j] == t);
                    }
                }
                assert(fs.tags_at(i) =~= tag_set(a, b));
            }
        }
        fs
    }

    /// The root of the working tree.
    pub fn root_path(&self) -> (r: &String)
        ensures
            r@ == self.root(),
    {
        &self.root_path
    }

    /// The paths, in listing order.
    pub fn files(&self) -> (r: &Vec<String>)
        ensures
            r.deep_view() == self.paths(),
    {
        &self.files
    }

    /// The number of files.
    pub fn len(&self) -> (n: usize)
        ensures
            n == self.paths().len(),
    {
        self.files.len()
    }

    /// Whether the file at position `index` has the tag `typename`. A
    /// position behind the last file has no tags.
    pub fn has_type_at(&self, index: usize, typename: &str) -> (r: bool)
        ensures
            r == (index < self.paths().len() && self.tags_at(index as int).contains(typename@)),
    {
        proof {
            use_type_invariant(self);
        }
        if index >= self.files.len() {
            return false;
        }
        holds_tag(&self.types[index], typename)
    }

    /// Whether the file set holds `file` with the tag `typename`. The file
    /// is found through the digest of its path, without going through the
    /// other files.
    pub fn has_type(&self, file: &str, typename: &str) -> (r: bool)
        ensures
            r == self.has_type_spec(file@, typename@),
    {
        broadcast use vstd::std_specs::hash::group_hash_axioms;

        proof {
            use_type_invariant(self);
        }
        let n = self.files.len();
        let digest = digest_of(file);
        let positions = match self.index.get(&digest) {
            Some(positions) => positions,
            None => {
                assert(!self.has_type_spec(file@, typename@)) by {
                    if self.has_type_spec(file@, typename@) {
                        let i = choose|i: int|
                            0 <= i < self.paths().len() && self.paths()[i] == file@
                                && #[trigger] self.tags_at(i).contains(typename@);
                        assert(self.index@.contains_key(path_digest(self.files.deep_view()[i])));
                    }
                }
                return false;
            },
        };
        let mut j: usize = 0;
        while j < positions.len()
            invariant
                j <= positions.len(),
                n == self.files@.len(),
                self.types@.len() == self.files@.len(),
                is_index_of(self.index@, self.files.deep_view()),
                self.index@.contains_key(digest),
                self.index@[digest] == *positions,
                digest == path_digest(file@),
                forall|k: int|
                    0 <= k < j ==> !(self.paths()[positions@[k] as int] == file@ && #[trigger] self.tags_at(
                        positions@[k] as int,
                    ).contains(typename@)),
            decreases positions.len() - j,
        {
            let at = positions[j];
            assert(self.index@[digest]@[j as int] < self.files.deep_view().len());
            if text_eq(self.files[at].as_str(), file) && holds_tag(&self.types[at], typename) {
                assert(self.paths()[at as int] == file@ && self.tags_at(at as int).contains(typename@));
                return true;
            }
            j += 1;
        }
        assert(!self.has_type_spec(file@, typename@)) by {
            if self.has_type_spec(file@, typename@) {
                let i = choose|i: int|
                    0 <= i < self.paths().len() && self.paths()[i] == file@ && #[trigger] self.tags_at(
                        i,
                    ).contains(typename@);
                assert(0 <= i < n);
                let at = i as usize;
                assert(self.index@[path_digest(self.files.deep_view()[i])]@.contains(at));
                let k = choose|k: int| 0 <= k < positions@.len() && positions@[k] == at;
                assert(positions@[k] as int == i);
                assert(self.tags_at(positions@[k] as int).contains(typename@));
            }
        }
        false
    }

    /// The positions of the files that have the tag `typename`, in
    /// ascending order.
    pub fn files_with_type(&self, typename: &str) -> (r: Vec<usize>)
        ensures
            forall|k: int| 0 <= k < r@.len() ==> (#[trigger] r@[k]) < self.paths().len() && self.tags_at(
                r@[k] as int,
            ).contains(typename@),
            forall|i: int|
                0 <= i < self.paths().len() && #[trigger] self.tags_at(i).contains(typename@)
                    ==> r@.contains(i as usize),
            forall|a: int, b: int| 0 <= a < b < r@.len() ==> r@[a] < r@[b],
    {
        proof {
            use_type_invariant(self);
        }
        let mut found: Vec<usize> = Vec::new();
        let mut i: usize = 0;
        while i < self.files.len()
            invariant
                i <= self.files@.len(),
                self.types@.len() == self.files@.len(),
                forall|k: int|
                    0 <= k < found@.len() ==> (#[trigger] found@[k]) < i && self.tags_at(
                        found@[k] as int,
                    ).contains(typename@),
                forall|k: int|
                    0 <= k < i && #[trigger] self.tags_at(k).contains(typename@) ==> found@.contains(
                        k as usize,
                    ),
                forall|a: int, b: int| 0 <= a < b < found@.len() ==> found@[a] < found@[b],
            decreases self.files@.len() - i,
        {
            if holds_tag(&self.types[i], typename) {
                let ghost before = found@;
                found.push(i);
                proof {
                    assert(found@[before.len() as int] == i);
                    assert forall|k: int|
                        0 <= k < i + 1 && #[trigger] self.tags_at(k).contains(
                            typename@,
                        ) implies found@.contains(k as usize) by {
                        if k < i {
                            let at = choose|at: int| 0 <= at < before.len() && before[at] == k as usize;
                            assert(found@[at] == k as usize);
                        }
                    }
                }
            }
            i += 1;
        }
        found
    }
}

/// A list of paths that git is asked for.
#[derive(Debug, Clone, Copy, PartialEq, Eq, Structural)]
pub enum FileListing {
    /// All files in the index.
    Index,
    /// Files that differ between the index and the working tree.
    Unstaged,
    /// Files that differ between the last commit and the index.
    Staged,
}

/// The next step in finding the files of a run.
#[derive(Debug, Clone, PartialEq)]
pub enum FileSetStep {
    /// Ask git for this listing and come back with it.
    List(FileListing),
    /// These are the files of the run.
    Files(Vec<String>),
    /// The run cannot go on: these files have changes that are not staged.
    UnstagedChanges(Vec<String>),
}

/// The mathematical value of a [`FileSetStep`].
pub enum FileSetStepView {
    List(FileListing),
    Files(Seq<Seq<char>>),
    UnstagedChanges(Seq<Seq<char>>),
}

impl DeepView for FileSetStep {
    type V = FileSetStepView;

    open spec fn deep_view(&self) -> FileSetStepView {
        match self {
            FileSetStep::List(listing) => FileSetStepView::List(*listing),
            FileSetStep::Files(files) => FileSetStepView::Files(files.deep_view()),
            FileSetStep::UnstagedChanges(files) => FileSetStepView::UnstagedChanges(files.deep_view()),
        }
    }
}

/// The step that follows an answered listing, or the first step where
/// nothing was asked yet. With `all_files` the run takes the tracked files.
/// Without it the run takes the staged files, but only after it has seen
/// that no file has unstaged changes.
pub open spec fn file_set_step(all_files: bool, answered: Option<(FileListing, Seq<Seq<char>>)>) -> FileSetStepView {
    match answered {
        None => if all_files {
            FileSetStepView::List(FileListing::Index)
        } else {
            FileSetStepView::List(FileListing::Unstaged)
        },
        Some((FileListing::Index, files)) => FileSetStepView::Files(files),
        Some((FileListing::Staged, files)) => FileSetStepView::Files(files),
        Some((FileListing::Unstaged, files)) => if files.len() == 0 {
            FileSetStepView::List(FileListing::Staged)
        } else {
            FileSetStepView::UnstagedChanges(files)
        },
    }
}

/// Decides the next step in finding the files of a run: see [`file_set_step`].
pub fn get_file_set(all_files: bool, answered: Option<(FileListing, Vec<String>)>) -> (r: FileSetStep)
    ensures
        r.deep_view() == file_set_step(
            all_files,
            match answered {
                Some((listing, files)) => Some((listing, files.deep_view())),
                None => None,
            },
        ),
{
    match answered {
        None => if all_files {
            FileSetStep::List(FileListing::Index)
        } else {
            FileSetStep::List(FileListing::Unstaged)
        },
        Some((FileListing::Index, files)) => FileSetStep::Files(files),
        Some((FileListing::Staged, files)) => FileSetStep::Files(files),
        Some((FileListing::Unstaged, files)) => if files.len() == 0 {
            FileSetStep::List(FileListing::Staged)
        } else {
            FileSetStep::UnstagedChanges(files)
        },
    }
}

/// The message for a run that stops because of unstaged changes.
pub fn unstaged_changes_message(files: &Vec<String>) -> (r: String)
    ensures
        r@ == "We can't deal with stashing unstaged files yet (and you have: "@ + joined(
            files.deep_view(),
            ", "@,
        ) + ")"@,
{
    let listed = join_with(files, ", ");
    join3("We can't deal with stashing unstaged files yet (and you have: ", listed.as_str(), ")")
}

} // verus!
