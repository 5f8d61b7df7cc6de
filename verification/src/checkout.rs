//! Checkouts: local, revision-pinned clones of hook repositories, kept in a
//! cache directory whose layout is a function of the repository, the revision
//! and the additional dependencies.

use crate::cfg::pre_commit_config::{HookConfiguration, Repo, RepoURL, RepoURLView};
use crate::cfg::pre_commit_hooks::HookDefinition;
use crate::dirs::{checkouts_under, get_checkouts_dir};
use crate::helpers::{deps_hash, hash_additional_dependencies};
use crate::text::{
    chars_of, hex_digit, hex_digits, join2, join3, lower_hex_two, padded_hex, push_text,
    starts_with,
};
use vstd::prelude::*;
use vstd::string::*;

verus! {

/// An ASCII letter or digit.
pub open spec fn is_ascii_alphanumeric(c: char) -> bool {
    ('0' <= c && c <= '9') || ('a' <= c && c <= 'z') || ('A' <= c && c <= 'Z')
}

/// An ASCII punctuation character.
pub open spec fn is_ascii_punctuation(c: char) -> bool {
    ('!' <= c && c <= '/') || (':' <= c && c <= '@') || ('[' <= c && c <= '`') || ('{' <= c && c
        <= '~')
}

/// What one character of a URL or revision becomes in a directory name: a
/// slash becomes one underscore, a colon two; an ASCII letter, digit or other
/// punctuation character stays; anything else becomes `u` and the lowercase
/// hexadecimal of its code point, at least two digits long.
pub open spec fn encoded_char(c: char) -> Seq<char> {
    if c == '/' {
        seq!['_']
    } else if c == ':' {
        seq!['_', '_']
    } else if is_ascii_alphanumeric(c) || is_ascii_punctuation(c) {
        seq![c]
    } else {
        seq!['u'] + padded_hex(c as u32 as nat, 2)
    }
}

/// The directory name that stands for a URL or a revision.
pub open spec fn encoded(s: Seq<char>) -> Seq<char>
    decreases s.len(),
{
    if s.len() == 0 {
        Seq::empty()
    } else {
        encoded(s.drop_last()) + encoded_char(s.last())
    }
}

/// A character that may stand in a directory name: an ASCII letter, digit or
/// punctuation character other than the slash and the colon.
pub open spec fn is_segment_char(c: char) -> bool {
    (is_ascii_alphanumeric(c) || is_ascii_punctuation(c)) && c != '/' && c != ':'
}

/// Hexadecimal digits are ASCII digits and small letters.
proof fn lemma_hex_digits_are_alphanumeric(n: nat)
    ensures
        forall|i: int| 0 <= i < hex_digits(n).len() ==> is_ascii_alphanumeric(#[trigger] hex_digits(n)[i]),
    decreases n,
{
    if n >= 16 {
        lemma_hex_digits_are_alphanumeric(n / 16);
        let head = hex_digits(n / 16);
        let d = n % 16;
        assert(hex_digit(d) as u32 == (if d < 10 { 48 + d } else { 87 + d }));
        assert(is_ascii_alphanumeric(hex_digit(d)));
        assert forall|i: int| 0 <= i < hex_digits(n).len() implies is_ascii_alphanumeric(
            #[trigger] hex_digits(n)[i],
        ) by {
            if i < head.len() {
                assert(hex_digits(n)[i] == head[i]);
            }
        }
    } else {
        assert(hex_digit(n) as u32 == (if n < 10 { 48 + n } else { 87 + n }));
        assert(is_ascii_alphanumeric(hex_digit(n)));
    }
}

/// Every character of an encoded character may stand in a directory name.
proof fn lemma_encoded_char_is_safe(c: char)
    ensures
        forall|i: int| 0 <= i < encoded_char(c).len() ==> is_segment_char(#[trigger] encoded_char(c)[i]),
{
    if c != '/' && c != ':' && !(is_ascii_alphanumeric(c) || is_ascii_punctuation(c)) {
        lemma_hex_digits_are_alphanumeric(c as u32 as nat);
        let digits = padded_hex(c as u32 as nat, 2);
        assert forall|i: int| 0 <= i < digits.len() implies is_ascii_alphanumeric(#[trigger] digits[i]) by {
        }
        assert forall|i: int| 0 <= i < encoded_char(c).len() implies is_segment_char(
            #[trigger] encoded_char(c)[i],
        ) by {
            if i > 0 {
                assert(encoded_char(c)[i] == digits[i - 1]);
                assert(is_ascii_alphanumeric(digits[i - 1]));
            }
        }
    }
}

/// An encoded name holds no slash, no colon, and nothing outside ASCII
/// letters, digits and punctuation: it is one safe path segment.
pub proof fn lemma_encoded_is_safe(s: Seq<char>)
    ensures
        forall|i: int| 0 <= i < encoded(s).len() ==> is_segment_char(#[trigger] encoded(s)[i]),
    decreases s.len(),
{
    if s.len() > 0 {
        lemma_encoded_is_safe(s.drop_last());
        lemma_encoded_char_is_safe(s.last());
        let head = encoded(s.drop_last());
        let tail = encoded_char(s.last());
        assert forall|i: int| 0 <= i < encoded(s).len() implies is_segment_char(
            #[trigger] encoded(s)[i],
        ) by {
            if i < head.len() {
                assert(encoded(s)[i] == head[i]);
            } else {
                assert(encoded(s)[i] == tail[i - head.len()]);
            }
        }
    }
}

/// A character that is written as itself or, for the slash, as the
/// underscore, and that is not itself the underscore: on such characters the
/// encoding can be read back.
pub open spec fn is_plain_char(c: char) -> bool {
    (is_ascii_alphanumeric(c) || is_ascii_punctuation(c)) && c != ':' && c != '_'
}

/// All characters of `s` are plain.
pub open spec fn is_plain(s: Seq<char>) -> bool {
    forall|i: int| 0 <= i < s.len() ==> is_plain_char(#[trigger] s[i])
}

/// A plain character is encoded as one character, and differently from
/// every other plain character.
proof fn lemma_encoded_plain(s: Seq<char>)
    requires
        is_plain(s),
    ensures
        encoded(s).len() == s.len(),
        forall|i: int| 0 <= i < s.len() ==> #[trigger] encoded(s)[i] == (if s[i] == '/' {
            '_'
        } else {
            s[i]
        }),
    decreases s.len(),
{
    if s.len() > 0 {
        let head = s.drop_last();
        assert(is_plain(head)) by {
            assert forall|i: int| 0 <= i < head.len() implies is_plain_char(#[trigger] head[i]) by {
                assert(head[i] == s[i]);
            }
        }
        lemma_encoded_plain(head);
        assert(is_plain_char(s[s.len() - 1]));
        assert forall|i: int| 0 <= i < s.len() implies #[trigger] encoded(s)[i] == (if s[i] == '/' {
            '_'
        } else {
            s[i]
        }) by {
            if i < head.len() {
                assert(encoded(s)[i] == encoded(head)[i]);
                assert(head[i] == s[i]);
            }
        }
    }
}

/// Two different names made of plain characters get different encodings.
pub proof fn lemma_encoding_injective_on_plain(a: Seq<char>, b: Seq<char>)
    requires
        is_plain(a),
        is_plain(b),
        a != b,
    ensures
        encoded(a) != encoded(b),
{
    lemma_encoded_plain(a);
    lemma_encoded_plain(b);
    if encoded(a) == encoded(b) {
        assert(a.len() == b.len());
        assert forall|i: int| 0 <= i < a.len() implies a[i] == b[i] by {
            assert(encoded(a)[i] == encoded(b)[i]);
            assert(is_plain_char(a[i]) && is_plain_char(b[i]));
        }
        assert(a =~= b);
    }
}

fn is_alphanumeric_or_punctuation(c: char) -> (r: bool)
    ensures
        r == (is_ascii_alphanumeric(c) || is_ascii_punctuation(c)),
{
    ('0' <= c && c <= '9') || ('a' <= c && c <= 'z') || ('A' <= c && c <= 'Z') || ('!' <= c && c
        <= '/') || (':' <= c && c <= '@') || ('[' <= c && c <= '`') || ('{' <= c && c <= '~')
}

/// Encodes a URL or a revision as one directory name. The result is a
/// function of the input alone, and holds only characters that are safe in
/// a path segment.
pub fn normalize_repo_url_to_path(url: &str) -> (r: String)
    ensures
        r@ == encoded(url@),
        forall|i: int| 0 <= i < r@.len() ==> is_segment_char(#[trigger] r@[i]),
{
    let chars = chars_of(url);
    let mut s = String::new();
    let mut i: usize = 0;
    while i < chars.len()
        invariant
            i <= chars.len(),
            chars@ == url@,
            s@ == encoded(url@.take(i as int)),
        decreases chars.len() - i,
    {
        let c = chars[i];
        let ghost before = s@;
        if c == '/' {
            s.push('_');
            assert(s@ =~= before + encoded_char(c));
        } else if c == ':' {
            s.append("__");
            proof {
                reveal_strlit("__");
                assert("__"@ =~= seq!['_', '_']);
            }
            assert(s@ =~= before + encoded_char(c));
        } else if is_alphanumeric_or_punctuation(c) {
            s.push(c);
            assert(s@ =~= before + encoded_char(c));
        } else {
            s.push('u');
            let code: u32 = c as u32;
            let hex = lower_hex_two(code);
            s.append(hex.as_str());
            assert(s@ =~= before + encoded_char(c));
        }
        i += 1;
        proof {
            let now = url@.take(i as int);
            assert(now.drop_last() =~= url@.take(i - 1));
            assert(now.last() == c);
        }
    }
    proof {
        assert(url@.take(chars.len() as int) =~= url@);
        lemma_encoded_is_safe(url@);
    }
    s
}

/// A hook repository at a revision, and the directory of its local clone.
#[derive(Debug, Clone, PartialEq)]
pub struct Checkout {
    pub repo_url: RepoURL,
    pub repo_rev: String,
    pub path: String,
}

/// A checkout whose manifest has been read.
#[derive(Debug)]
pub struct LoadedCheckout {
    /// The directory of the checkout.
    pub path: String,
    /// The hooks that the repository publishes, in manifest order.
    pub hooks: Vec<HookDefinition>,
}

/// Why a repository cannot be checked out.
#[derive(Debug, Clone, PartialEq)]
pub enum CheckoutError {
    /// Hooks that live in the project itself are not supported.
    LocalNotImplemented,
    /// The built-in hooks are not supported.
    MetaNotImplemented,
    /// The URL is neither `http://` nor `https://`.
    UnsupportedScheme(String),
}

impl CheckoutError {
    /// The message shown to the user.
    pub fn message(&self) -> (r: String)
        ensures
            r@ == (match *self {
                CheckoutError::LocalNotImplemented => "not implemented: local repos"@,
                CheckoutError::MetaNotImplemented => "not implemented: meta repos"@,
                CheckoutError::UnsupportedScheme(url) => "unsupported URL scheme: "@ + url@,
            }),
    {
        match self {
            CheckoutError::LocalNotImplemented => "not implemented: local repos".to_owned(),
            CheckoutError::MetaNotImplemented => "not implemented: meta repos".to_owned(),
            CheckoutError::UnsupportedScheme(url) => join2("unsupported URL scheme: ", url.as_str()),
        }
    }
}

/// What has to happen on disk before a checkout can be used.
#[derive(Debug, Clone, PartialEq)]
pub enum CheckoutAction {
    /// The directory exists: it is trusted as it is.
    UseExisting,
    /// The directory is missing: create it and its parents, then run `git`
    /// with these arguments.
    Clone(Vec<String>),
}

/// Whether a URL names a repository that can be cloned: one reached over
/// `http://` or `https://`.
pub open spec fn is_supported_url(url: Seq<char>) -> bool {
    "http://"@.is_prefix_of(url) || "https://"@.is_prefix_of(url)
}

/// The arguments with which `git` makes a shallow clone of revision `rev` of
/// `url` in the directory `path`.
pub open spec fn clone_arguments(url: Seq<char>, rev: Seq<char>, path: Seq<char>) -> Seq<Seq<char>> {
    seq![
        "clone"@,
        "--depth=1"@,
        "--branch"@,
        rev,
        "-c"@,
        "advice.detachedHead=false"@,
        url,
        path,
    ]
}

/// The file in a checkout that lists the hooks that the repository publishes.
pub open spec fn manifest_path_of(checkout_path: Seq<char>) -> Seq<char> {
    checkout_path + "/.pre-commit-hooks.yaml"@
}

/// The lock file that is held while the directory `path` is made or
/// provisioned, so that at most one clone or provisioning of it is under
/// way at a time.
pub open spec fn lock_path_of(path: Seq<char>) -> Seq<char> {
    path + ".lock"@
}

/// The lock file for the directory `path`: a checkout, or a sandbox in one.
pub fn lock_path(path: &str) -> (r: String)
    ensures
        r@ == lock_path_of(path@),
{
    join2(path, ".lock")
}

/// The additional dependencies that take part in a checkout's path: those
/// that the project configures for the hook, if there are any.
pub open spec fn path_dependencies(hook_deps: Option<Seq<Seq<char>>>) -> Option<Seq<Seq<char>>> {
    match hook_deps {
        Some(deps) => if deps.len() > 0 {
            Some(deps)
        } else {
            None
        },
        None => None,
    }
}

/// The directory of the checkout of `url` at `rev` under `checkouts_dir`:
/// one directory per repository, named by the encoded URL, and in it one per
/// revision, named by the encoded revision, with `+` and the hash of the
/// additional dependencies behind it where there are any.
pub open spec fn checkout_path(
    checkouts_dir: Seq<char>,
    url: Seq<char>,
    rev: Seq<char>,
    deps: Option<Seq<Seq<char>>>,
) -> Seq<char> {
    let base = checkouts_dir + "/"@ + encoded(url) + "/"@ + encoded(rev);
    match path_dependencies(deps) {
        Some(d) => base + "+"@ + deps_hash(d),
        None => base,
    }
}

/// The mathematical value of what [`Checkout::ensure_checkout_cloned`] decides.
pub enum CheckoutDecision {
    /// The repository cannot be checked out.
    Refused(CheckoutErrorView),
    /// The directory is there and is used as it is.
    UseExisting,
    /// The directory is made and `git` is run in it with these arguments.
    Clone(Seq<Seq<char>>),
}

/// The mathematical value of a [`CheckoutError`].
pub enum CheckoutErrorView {
    LocalNotImplemented,
    MetaNotImplemented,
    UnsupportedScheme(Seq<char>),
}

/// How a checkout comes to be on disk. A local or built-in repository, and
/// a URL with another scheme than `http` and `https`, is refused whether or
/// not the directory exists. A directory that exists is trusted and never
/// cloned again. A missing one is made by a shallow clone of the revision.
pub open spec fn checkout_decision(
    url: RepoURLView,
    rev: Seq<char>,
    path: Seq<char>,
    path_exists: bool,
) -> CheckoutDecision {
    match url {
        RepoURLView::Local => CheckoutDecision::Refused(CheckoutErrorView::LocalNotImplemented),
        RepoURLView::Meta => CheckoutDecision::Refused(CheckoutErrorView::MetaNotImplemented),
        RepoURLView::Url(url) => if !is_supported_url(url) {
            CheckoutDecision::Refused(CheckoutErrorView::UnsupportedScheme(url))
        } else if path_exists {
            CheckoutDecision::UseExisting
        } else {
            CheckoutDecision::Clone(clone_arguments(url, rev, path))
        },
    }
}

/// The mathematical value of a decision.
pub open spec fn decision_of(r: Result<CheckoutAction, CheckoutError>) -> CheckoutDecision {
    match r {
        Ok(CheckoutAction::UseExisting) => CheckoutDecision::UseExisting,
        Ok(CheckoutAction::Clone(args)) => CheckoutDecision::Clone(args.deep_view()),
        Err(CheckoutError::LocalNotImplemented) => CheckoutDecision::Refused(
            CheckoutErrorView::LocalNotImplemented,
        ),
        Err(CheckoutError::MetaNotImplemented) => CheckoutDecision::Refused(
            CheckoutErrorView::MetaNotImplemented,
        ),
        Err(CheckoutError::UnsupportedScheme(url)) => CheckoutDecision::Refused(
            CheckoutErrorView::UnsupportedScheme(url@),
        ),
    }
}

/// Asking twice for the checkout of one repository, revision and set of
/// dependencies names the same directory both times, and once the directory
/// is there nothing is cloned: whatever the first decision was, the one
/// taken with the directory in place is never to clone.
pub proof fn lemma_checkout_is_made_once(
    checkouts_dir: Seq<char>,
    url: RepoURLView,
    rev: Seq<char>,
    deps: Option<Seq<Seq<char>>>,
    existed_before: bool,
)
    ensures
        ({
            let path = checkout_path(checkouts_dir, url.text(), rev, deps);
            let first = checkout_decision(url, rev, path, existed_before);
            let second = checkout_decision(url, rev, path, true);
            &&& !(second is Clone)
            &&& first is Refused <==> second is Refused
            &&& first is Refused ==> second == first
            &&& !(first is Refused) ==> second == CheckoutDecision::UseExisting
        }),
{
}

impl Checkout {
    /// Decides how this checkout comes to be on disk, given whether its
    /// directory exists already: see [`checkout_decision`].
    pub fn ensure_checkout_cloned(&self, path_exists: bool) -> (r: Result<
        CheckoutAction,
        CheckoutError,
    >)
        ensures
            decision_of(r) == checkout_decision(
                self.repo_url.deep_view(),
                self.repo_rev@,
                self.path@,
                path_exists,
            ),
    {
        match &self.repo_url {
            RepoURL::Local => Err(CheckoutError::LocalNotImplemented),
            RepoURL::Meta => Err(CheckoutError::MetaNotImplemented),
            RepoURL::Url(url) => {
                if !(starts_with(url.as_str(), "http://") || starts_with(url.as_str(), "https://")) {
                    return Err(CheckoutError::UnsupportedScheme(url.clone()));
                }
                if path_exists {
                    return Ok(CheckoutAction::UseExisting);
                }
                let mut args: Vec<String> = Vec::new();
                push_text(&mut args, "clone".to_owned());
                push_text(&mut args, "--depth=1".to_owned());
                push_text(&mut args, "--branch".to_owned());
                push_text(&mut args, self.repo_rev.clone());
                push_text(&mut args, "-c".to_owned());
                push_text(&mut args, "advice.detachedHead=false".to_owned());
                push_text(&mut args, url.clone());
                push_text(&mut args, self.path.clone());
                assert(args.deep_view() =~= clone_arguments(url@, self.repo_rev@, self.path@));
                Ok(CheckoutAction::Clone(args))
            },
        }
    }

    /// The file that lists the hooks of this checkout's repository.
    pub fn manifest_path(&self) -> (r: String)
        ensures
            r@ == manifest_path_of(self.path@),
    {
        join2(self.path.as_str(), "/.pre-commit-hooks.yaml")
    }

    /// Joins the checkout with the hooks read from its manifest.
    pub fn load(self, hooks: Vec<HookDefinition>) -> (r: LoadedCheckout)
        ensures
            r.path == self.path,
            r.hooks == hooks,
    {
        LoadedCheckout { path: self.path, hooks }
    }
}

/// The checkout for a configured hook of `repo`, under `checkouts_dir`.
pub fn checkout_in(checkouts_dir: &str, repo: &Repo, hook: &HookConfiguration) -> (r: Checkout)
    ensures
        r.repo_url == repo.url,
        r.repo_rev == repo.rev,
        r.path@ == checkout_path(
            checkouts_dir@,
            repo.url.deep_view().text(),
            repo.rev@,
            hook.overrides.additional_dependencies.deep_view(),
        ),
{
    let url_text = repo.url.to_string();
    let url_part = normalize_repo_url_to_path(url_text.as_str());
    let rev_part = normalize_repo_url_to_path(repo.rev.as_str());
    let mut path = join3(checkouts_dir, "/", url_part.as_str());
    path.append("/");
    path.append(rev_part.as_str());
    match &hook.overrides.additional_dependencies {
        Some(deps) => {
            if deps.len() > 0 {
                let hash = hash_additional_dependencies(deps);
                path.append("+");
                path.append(hash.as_str());
            }
        },
        None => {},
    }
    Checkout { repo_url: repo.url.duplicate(), repo_rev: repo.rev.clone(), path }
}

/// The checkout for a configured hook of `repo`, in the current user's cache
/// directory: under the directory `checkouts` of that cache directory, one
/// directory per repository and in it one per revision and set of additional
/// dependencies. `None` where the user has no cache directory.
pub fn get_checkout(repo: &Repo, hook: &HookConfiguration) -> (r: Option<Checkout>)
    ensures
        r matches Some(co) ==> co.repo_url == repo.url && co.repo_rev == repo.rev && exists|
            cache_dir: Seq<char>,
        |
            co.path@ == checkout_path(
                #[trigger] checkouts_under(cache_dir),
                repo.url.deep_view().text(),
                repo.rev@,
                hook.overrides.additional_dependencies.deep_view(),
            ),
{
    match get_checkouts_dir() {
        Some(dir) => {
            let co = checkout_in(dir.as_str(), repo, hook);
            proof {
                let cache_dir = choose|cache_dir: Seq<char>| dir@ == checkouts_under(cache_dir);
                assert(co.path@ == checkout_path(
                    checkouts_under(cache_dir),
                    repo.url.deep_view().text(),
                    repo.rev@,
                    hook.overrides.additional_dependencies.deep_view(),
                ));
            }
            Some(co)
        },
        None => None,
    }
}

} // verus!
