//! Shell command lines and the hash of a hook's additional dependencies.

use crate::text::{hex_digits, joined, lower_hex, push_text};
use std::hash::Hasher;
use vstd::prelude::*;
use vstd::string::*;
use vstd::utf8::encode_utf8;

verus! {

/// The error of `shell_words::split`: the line ends inside a quoted word.
#[verifier::external_type_specification]
#[verifier::external_body]
pub struct ExParseError(shell_words::ParseError);

/// The hasher of `rustc_hash`, whose whole state is one machine word.
#[verifier::external_type_specification]
#[verifier::external_body]
pub struct ExFxHasher(rustc_hash::FxHasher);

/// The words that `shell_words::split` reads from a command line, or `None`
/// where it reports a missing closing quote.
pub uninterp spec fn shell_split(line: Seq<char>) -> Option<Seq<Seq<char>>>;

/// The word that the state of an `FxHasher` consists of.
pub uninterp spec fn fx_state(hasher: rustc_hash::FxHasher) -> usize;

/// The state that `FxHasher::write` leaves when it is given `bytes` in state
/// `state`, on the target that the library is compiled for.
pub uninterp spec fn fx_absorb(state: usize, bytes: Seq<u8>) -> usize;

/// A character that keeps `shell_words::quote` from handing a word back unchanged.
pub open spec fn is_shell_special(c: char) -> bool {
    c == '\n' || c == '\'' || c == '|' || c == '&' || c == ';' || c == '<' || c == '>' || c == '('
        || c == ')' || c == '$' || c == '`' || c == '\\' || c == '"' || c == ' ' || c == '\t' || c
        == '*' || c == '?' || c == '[' || c == '#' || c == '~' || c == '=' || c == '%'
}

/// `word` with every single quote replaced by the four characters `'\''`.
pub open spec fn escape_single_quotes(word: Seq<char>) -> Seq<char>
    decreases word.len(),
{
    if word.len() == 0 {
        Seq::empty()
    } else if word.last() == '\'' {
        escape_single_quotes(word.drop_last()) + seq!['\'', '\\', '\'', '\'']
    } else {
        escape_single_quotes(word.drop_last()).push(word.last())
    }
}

/// A word as the shell has to be given it to read `word`: unchanged where it
/// is not empty and holds no special character, else in single quotes, with
/// each single quote inside written as `'\''`.
pub open spec fn shell_quoted(word: Seq<char>) -> Seq<char> {
    if word.len() > 0 && forall|i: int| 0 <= i < word.len() ==> !is_shell_special(#[trigger] word[i]) {
        word
    } else {
        seq!['\''] + escape_single_quotes(word) + seq!['\'']
    }
}

/// Each word quoted for the shell.
pub open spec fn all_shell_quoted(words: Seq<Seq<char>>) -> Seq<Seq<char>> {
    Seq::new(words.len(), |i: int| shell_quoted(words[i]))
}

/// The command line that reads back as `words`: each word quoted, with one
/// space between neighbours.
pub open spec fn shell_joined(words: Seq<Seq<char>>) -> Seq<char> {
    joined(all_shell_quoted(words), seq![' '])
}

/// `shell_words::split`: the words of a command line, read as a POSIX shell
/// reads them. Assumed: the result is the one that `shell_split` names.
#[verifier::external_body]
fn split_words(line: &str) -> (r: Result<Vec<String>, shell_words::ParseError>)
    ensures
        match shell_split(line@) {
            Some(words) => r matches Ok(v) && v.deep_view() == words,
            None => r is Err,
        },
{
    shell_words::split(line)
}

/// `shell_words::quote`. Assumed: a word that is not empty and holds no
/// character special to the shell comes back unchanged; any other comes back
/// in single quotes, each single quote inside written as `'\''`.
#[verifier::external_body]
pub(crate) fn quote_word(word: &str) -> (r: String)
    ensures
        r@ == shell_quoted(word@),
{
    shell_words::quote(word).into_owned()
}

/// `shell_words::join`. Assumed: the result is each word as
/// `shell_words::quote` gives it, with one space between neighbours.
#[verifier::external_body]
fn join_words(words: &Vec<String>) -> (r: String)
    ensures
        r@ == shell_joined(words.deep_view()),
{
    shell_words::join(words)
}

/// `FxHasher::default`. Assumed: the new hasher's state is zero.
#[verifier::external_body]
fn fx_new() -> (hasher: rustc_hash::FxHasher)
    ensures
        fx_state(hasher) == 0,
{
    rustc_hash::FxHasher::default()
}

/// `FxHasher::write`. Assumed: the state afterwards depends on the state
/// before and on the bytes alone, as `fx_absorb` names it.
#[verifier::external_body]
fn fx_write(hasher: &mut rustc_hash::FxHasher, bytes: &[u8])
    ensures
        fx_state(*final(hasher)) == fx_absorb(fx_state(*old(hasher)), bytes@),
{
    hasher.write(bytes)
}

/// `FxHasher::finish`. Assumed: the digest is the state, widened to 64 bits.
#[verifier::external_body]
fn fx_finish(hasher: &rustc_hash::FxHasher) -> (digest: u64)
    ensures
        digest == fx_state(*hasher) as u64,
{
    hasher.finish()
}

/// The digest of `bytes` written to a new hasher in one piece.
pub open spec fn fx_digest(bytes: Seq<u8>) -> u64 {
    fx_absorb(0, bytes) as u64
}

/// Hashes `bytes` with a new hasher.
pub fn hash_bytes(bytes: &[u8]) -> (digest: u64)
    ensures
        digest == fx_digest(bytes@),
{
    let mut hasher = fx_new();
    fx_write(&mut hasher, bytes);
    fx_finish(&hasher)
}

/// A command line that cannot be split into words.
#[derive(Debug, Clone, Copy, PartialEq, Eq, Structural)]
pub enum CommandError {
    /// The line ends inside a quoted word.
    MissingClosingQuote,
}

impl CommandError {
    /// The message shown to the user.
    pub fn message(&self) -> (r: String)
        ensures
            r@ == "missing closing quote"@,
    {
        "missing closing quote".to_owned()
    }
}

/// The words of the command line that `entry` and `args` make: the words of
/// `entry`, then each argument quoted for the shell.
pub open spec fn command_words(entry_words: Seq<Seq<char>>, args: Seq<Seq<char>>) -> Seq<Seq<char>> {
    entry_words + all_shell_quoted(args)
}

/// The command line for the given words of the entry and the arguments.
pub open spec fn command_line(entry_words: Seq<Seq<char>>, args: Seq<Seq<char>>) -> Seq<char> {
    shell_joined(command_words(entry_words, args))
}

/// Builds a hook's command line from the words that its entry was split into
/// and its arguments.
pub fn command_from_words(entry_words: Vec<String>, args: &Vec<String>) -> (r: String)
    ensures
        r@ == command_line(entry_words.deep_view(), args.deep_view()),
{
    let mut command = entry_words;
    let mut i: usize = 0;
    while i < args.len()
        invariant
            i <= args.len(),
            command.deep_view() == entry_words.deep_view() + all_shell_quoted(
                args.deep_view().take(i as int),
            ),
        decreases args.len() - i,
    {
        let quoted = quote_word(args[i].as_str());
        push_text(&mut command, quoted);
        i += 1;
        assert(command.deep_view() =~= entry_words.deep_view() + all_shell_quoted(
            args.deep_view().take(i as int),
        ));
    }
    assert(args.deep_view().take(args.len() as int) =~= args.deep_view());
    join_words(&command)
}

/// Appends `args` to the command prefix `entry`. The entry is split into
/// words as a shell would; a line that ends inside a quoted word is refused.
pub fn append_args(entry: &str, args: &Vec<String>) -> (r: Result<String, CommandError>)
    ensures
        match shell_split(entry@) {
            Some(words) => r matches Ok(line) && line@ == command_line(words, args.deep_view()),
            None => r == Err::<String, CommandError>(CommandError::MissingClosingQuote),
        },
{
    match split_words(entry) {
        Ok(words) => Ok(command_from_words(words, args)),
        Err(_) => Err(CommandError::MissingClosingQuote),
    }
}

/// The hasher state after each dependency, followed by a zero byte, has been
/// written to a hasher in state `state`.
pub open spec fn fx_absorb_all(state: usize, deps: Seq<Seq<char>>) -> usize
    decreases deps.len(),
{
    if deps.len() == 0 {
        state
    } else {
        fx_absorb(
            fx_absorb(fx_absorb_all(state, deps.drop_last()), encode_utf8(deps.last())),
            seq![0u8],
        )
    }
}

/// The hash of a list of additional dependencies, in lowercase hexadecimal.
pub open spec fn deps_hash(deps: Seq<Seq<char>>) -> Seq<char> {
    hex_digits(fx_absorb_all(0, deps) as nat)
}

/// The text under which a digest appears in directory names.
pub fn digest_text(digest: u64) -> (r: String)
    ensures
        r@ == hex_digits(digest as nat),
{
    lower_hex(digest)
}

/// Hashes a list of additional dependencies: the bytes of each dependency and
/// one zero byte after it go through a fast, non-cryptographic hasher; the
/// digest is written in lowercase hexadecimal. Equal lists give equal hashes.
pub fn hash_additional_dependencies(deps: &Vec<String>) -> (r: String)
    ensures
        r@ == deps_hash(deps.deep_view()),
{
    let mut hasher = fx_new();
    let mut nul: Vec<u8> = Vec::new();
    nul.push(0u8);
    let mut i: usize = 0;
    while i < deps.len()
        invariant
            i <= deps.len(),
            nul@ == seq![0u8],
            fx_state(hasher) == fx_absorb_all(0, deps.deep_view().take(i as int)),
        decreases deps.len() - i,
    {
        fx_write(&mut hasher, deps[i].as_str().as_bytes());
        fx_write(&mut hasher, nul.as_slice());
        i += 1;
        proof {
            let now = deps.deep_view().take(i as int);
            assert(now.drop_last() =~= deps.deep_view().take(i - 1));
            assert(now.last() == deps[i - 1]@);
        }
    }
    assert(deps.deep_view().take(deps.len() as int) =~= deps.deep_view());
    digest_text(fx_finish(&hasher))
}

} // verus!
