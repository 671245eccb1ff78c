//! Taking a dotenv file into the source environment.
//!
//! Reading a file is the caller's part: it hands over what the read gave,
//! as a `FileRead`. The text is parsed by `dotenvy`; what the lines of a
//! file do to a store is decided here.

use crate::env::Env;
use crate::error::{CfgError, CfgErrorView};
use vstd::prelude::*;
use vstd::slice::slice_subrange;

verus! {

/// The error type of `dotenvy`.
#[verifier::external_type_specification]
#[verifier::external_body]
pub struct ExDotenvError(dotenvy::Error);

/// `dotenvy::Error::not_found`: whether the error is an I/O error of the
/// kind "not found". Nothing is claimed of the answer.
pub assume_specification[ dotenvy::Error::not_found ](e: &dotenvy::Error) -> bool;

/// Whether `c` can open the name of a variable: an ASCII letter or `_`.
pub open spec fn is_key_start(c: char) -> bool {
    ('a' <= c <= 'z') || ('A' <= c <= 'Z') || c == '_'
}

/// Whether `c` can stand in the name of a variable: an ASCII letter or
/// digit, `_` or `.`.
pub open spec fn is_key_char(c: char) -> bool {
    is_key_start(c) || ('0' <= c <= '9') || c == '.'
}

/// Whether `s` is the name of a variable as a dotenv file writes it.
pub open spec fn is_key(s: Seq<char>) -> bool {
    s.len() > 0 && is_key_start(s[0]) && forall|i: int|
        0 <= i < s.len() ==> is_key_char(#[trigger] s[i])
}

/// Whether an item of the parser, if it sets a variable, names it properly.
pub open spec fn proper_item(item: Result<(String, String), dotenvy::Error>) -> bool {
    match item {
        Ok(pair) => is_key(pair.0@),
        Err(_) => true,
    }
}

/// Calls `dotenvy::from_read_iter` on `content` and collects what the
/// iterator yields: for each line that sets a variable its key and value,
/// for each line that cannot be read the error. Substitution in values
/// looks into the process environment, so the values and the errors are
/// left open. Two things are claimed, which hold whatever that
/// environment is: the parser takes a key only where the line opens with
/// an ASCII letter or `_`, and up to the first character that is neither
/// an ASCII letter or digit nor `_` nor `.`; and it yields nothing for a
/// text without any byte.
#[verifier::external_body]
fn dotenv_items(content: &[u8]) -> (r: Vec<Result<(String, String), dotenvy::Error>>)
    ensures
        forall|i: int| 0 <= i < r.len() ==> proper_item(#[trigger] r[i]),
        content.len() == 0 ==> r.len() == 0,
{
    dotenvy::from_read_iter(content).collect()
}

/// What reading a candidate file gave.
#[derive(Clone, Debug, PartialEq, Eq)]
pub enum FileRead {
    /// There is no such file.
    Missing,
    /// The file is there and could not be read; the text says why.
    Unreadable(String),
    /// The bytes of the file.
    Content(Vec<u8>),
}

/// One line of a dotenv file, as far as a load cares.
#[derive(Clone, Debug, PartialEq, Eq)]
pub enum Line {
    /// The line sets `key` to `value`.
    Entry { key: String, value: String },
    /// The line could not be read. `not_found` tells an absent source
    /// from any other failure; `text` is the parser's message.
    Failure { not_found: bool, text: String },
}

/// What a candidate file amounts to once its text is parsed.
#[derive(Clone, Debug, PartialEq, Eq)]
pub enum Preload {
    /// There is no such file.
    Missing,
    /// The file is there and could not be read.
    Unreadable(String),
    /// The lines of the file, in order.
    Lines(Vec<Line>),
}

/// `content` without a leading byte order mark.
pub open spec fn without_bom(content: Seq<u8>) -> Seq<u8> {
    if content.len() >= 3 && content[0] == 0xEF && content[1] == 0xBB && content[2] == 0xBF {
        content.skip(3)
    } else {
        content
    }
}

/// `content` without a leading byte order mark.
pub fn strip_bom(content: &[u8]) -> (r: &[u8])
    ensures
        r@ == without_bom(content@),
{
    if content.len() >= 3 && content[0] == 0xEF && content[1] == 0xBB && content[2] == 0xBF {
        slice_subrange(content, 3, content.len())
    } else {
        content
    }
}

/// Whether `line` is what a load makes of the parser's `item`: an entry
/// with the key and the value of a pair, a failure for an error.
pub open spec fn line_from(item: Result<(String, String), dotenvy::Error>, line: Line) -> bool {
    match item {
        Ok(pair) => line matches Line::Entry { key, value } && key@ == pair.0@ && value@
            == pair.1@,
        Err(_) => line is Failure,
    }
}

/// Whether every entry among `lines` names its variable properly.
pub open spec fn proper_keys(lines: Seq<Line>) -> bool {
    forall|i: int|
        0 <= i < lines.len() ==> ((#[trigger] lines[i]) matches Line::Entry { key, .. } ==> is_key(
            key@,
        ))
}

/// The lines that the parser's items amount to, one for one and in order.
/// A failure takes its text and whether it is a "not found" from the error.
fn lines_of(items: &Vec<Result<(String, String), dotenvy::Error>>) -> (r: Vec<Line>)
    ensures
        r.len() == items.len(),
        forall|i: int| 0 <= i < items.len() ==> line_from(items[i], #[trigger] r[i]),
{
    let mut lines: Vec<Line> = Vec::new();
    let n: usize = items.len();
    let mut i: usize = 0;
    while i < n
        invariant
            i <= n,
            n == items.len(),
            lines.len() == i,
            forall|j: int| 0 <= j < i ==> line_from(items[j], #[trigger] lines[j]),
        decreases n - i,
    {
        match &items[i] {
            Ok(pair) => {
                lines.push(Line::Entry { key: pair.0.clone(), value: pair.1.clone() });
            },
            Err(e) => {
                lines.push(Line::Failure { not_found: e.not_found(), text: e.to_string() });
            },
        }
        i += 1;
    }
    lines
}

/// Parses the text of a dotenv file, a leading byte order mark apart,
/// into its lines. The values and the failures are `dotenvy`'s, and
/// `merge_lines` says what each possible line does. Whatever the parser
/// makes of the text, every entry names its variable properly, and a
/// text without any byte has no lines.
pub fn parse_lines(content: &[u8]) -> (r: Vec<Line>)
    ensures
        proper_keys(r@),
        without_bom(content@).len() == 0 ==> r.len() == 0,
{
    let items = dotenv_items(strip_bom(content));
    lines_of(&items)
}

/// `env` with `value` under `key`, unless the key has a value already.
pub open spec fn with_fallback(
    env: Map<Seq<char>, Seq<char>>,
    key: Seq<char>,
    value: Seq<char>,
) -> Map<Seq<char>, Seq<char>> {
    if env.contains_key(key) {
        env
    } else {
        env.insert(key, value)
    }
}

/// `env` after the lines of a file are merged into it: each entry in turn
/// fills its key where the key has no value; the first failure ends the
/// merge, and what was merged before it stays.
pub open spec fn merged(env: Map<Seq<char>, Seq<char>>, lines: Seq<Line>) -> Map<
    Seq<char>,
    Seq<char>,
>
    decreases lines.len(),
{
    if lines.len() == 0 {
        env
    } else {
        match lines[0] {
            Line::Entry { key, value } => merged(with_fallback(env, key@, value@), lines.skip(1)),
            Line::Failure { .. } => env,
        }
    }
}

/// The error of a file that is there and cannot be taken in.
pub open spec fn load_failure(text: Seq<char>) -> CfgErrorView {
    CfgErrorView::LoadError { msg: "failed to load .env file"@, source: text }
}

/// The error that merging `lines` ends in, if any: that of the first
/// failure, unless it only says that the source is absent.
pub open spec fn lines_error(lines: Seq<Line>) -> Option<CfgErrorView>
    decreases lines.len(),
{
    if lines.len() == 0 {
        None
    } else {
        match lines[0] {
            Line::Entry { .. } => lines_error(lines.skip(1)),
            Line::Failure { not_found, text } => if not_found {
                None
            } else {
                Some(load_failure(text@))
            },
        }
    }
}

/// `env` after `file` is merged into it. An absent or unreadable file
/// leaves it as it is.
pub open spec fn preloaded(env: Map<Seq<char>, Seq<char>>, file: Preload) -> Map<
    Seq<char>,
    Seq<char>,
> {
    match file {
        Preload::Lines(lines) => merged(env, lines@),
        _ => env,
    }
}

/// The error that merging `file` ends in, if any. An absent file is none.
pub open spec fn preload_error(file: Preload) -> Option<CfgErrorView> {
    match file {
        Preload::Missing => None,
        Preload::Unreadable(text) => Some(load_failure(text@)),
        Preload::Lines(lines) => lines_error(lines@),
    }
}

/// The error of a result without a value, if it is one.
pub open spec fn failure(r: Result<(), CfgError>) -> Option<CfgErrorView> {
    match r {
        Ok(_) => None,
        Err(e) => Some(e@),
    }
}

/// Builds the error of a file that is there and cannot be taken in.
fn make_load_failure(text: String) -> (r: CfgError)
    ensures
        r@ == load_failure(text@),
{
    CfgError::LoadError { msg: "failed to load .env file".to_owned(), source: text }
}

/// Merges the lines of a file into `env`.
pub fn merge_lines(env: &mut Env, lines: &Vec<Line>) -> (r: Result<(), CfgError>)
    ensures
        final(env)@ == merged(old(env)@, lines@),
        failure(r) == lines_error(lines@),
{
    let n: usize = lines.len();
    let mut i: usize = 0;
    proof {
        assert(lines@.skip(0) =~= lines@);
    }
    while i < n
        invariant
            i <= n,
            n == lines.len(),
            merged(old(env)@, lines@) == merged(env@, lines@.skip(i as int)),
            lines_error(lines@) == lines_error(lines@.skip(i as int)),
        decreases n - i,
    {
        proof {
            assert(lines@.skip(i as int).skip(1) =~= lines@.skip(i + 1));
        }
        match &lines[i] {
            Line::Entry { key, value } => {
                env.set_if_absent(key.clone(), value.clone());
            },
            Line::Failure { not_found, text } => {
                if *not_found {
                    return Ok(());
                } else {
                    return Err(make_load_failure(text.clone()));
                }
            },
        }
        i += 1;
    }
    Ok(())
}

/// Merges `file` into `env`: a file never replaces a value that `env` holds.
pub fn preload(env: &mut Env, file: &Preload) -> (r: Result<(), CfgError>)
    ensures
        final(env)@ == preloaded(old(env)@, *file),
        failure(r) == preload_error(*file),
{
    match file {
        Preload::Missing => Ok(()),
        Preload::Unreadable(text) => Err(make_load_failure(text.clone())),
        Preload::Lines(lines) => merge_lines(env, lines),
    }
}

/// Whether `parsed` is what parsing made of `file`: the same, but for the
/// bytes of a file, which became lines. Of the lines this much holds
/// whatever the parser made of the bytes: every entry names its variable
/// properly, and a file without any byte behind its byte order mark has
/// no lines.
pub open spec fn parsed_from(file: FileRead, parsed: Preload) -> bool {
    match file {
        FileRead::Missing => parsed is Missing,
        FileRead::Unreadable(text) => parsed matches Preload::Unreadable(t) && t@ == text@,
        FileRead::Content(bytes) => parsed matches Preload::Lines(lines) && proper_keys(lines@)
            && (without_bom(bytes@).len() == 0 ==> lines.len() == 0),
    }
}

/// Parses what a read gave.
pub fn parse_file(file: &FileRead) -> (r: Preload)
    ensures
        parsed_from(*file, r),
{
    match file {
        FileRead::Missing => Preload::Missing,
        FileRead::Unreadable(text) => Preload::Unreadable(text.clone()),
        FileRead::Content(bytes) => Preload::Lines(parse_lines(bytes.as_slice())),
    }
}

/// Takes the file behind `file` into `env`. An absent file is no error
/// and changes nothing; a file that cannot be read or parsed is a
/// `LoadError`.
///
/// A `$NAME` in a value of the file is resolved by the parser, against
/// the variables of the process and the lines above it in the same file,
/// not against `env`. Where `env` holds anything else than the process
/// environment, be it a store of the caller's own or what an earlier
/// file merged, the value is not what `env` would give.
pub fn load_env_file(env: &mut Env, file: &FileRead) -> (r: Result<(), CfgError>)
    ensures
        exists|parsed: Preload|
            parsed_from(*file, parsed) && final(env)@ == preloaded(old(env)@, parsed) && failure(r)
                == preload_error(parsed),
        file is Missing ==> r is Ok && final(env)@ == old(env)@,
        file matches FileRead::Unreadable(text) ==> failure(r) == Some(load_failure(text@))
            && final(env)@ == old(env)@,
        kept(old(env)@, final(env)@),
{
    let parsed = parse_file(file);
    proof {
        lemma_preload_keeps(env@, parsed);
    }
    preload(env, &parsed)
}

/// The error of a load that was given no file to try.
pub open spec fn no_file_error() -> CfgErrorView {
    CfgErrorView::LoadError {
        msg: "no .env file found in any provided path"@,
        source: "not found"@,
    }
}

/// `env` after the candidates are tried in order up to the first that is
/// merged without error. What a failed candidate merged before it failed
/// stays.
pub open spec fn first_preloaded(env: Map<Seq<char>, Seq<char>>, files: Seq<Preload>) -> Map<
    Seq<char>,
    Seq<char>,
>
    decreases files.len(),
{
    if files.len() == 0 {
        env
    } else if preload_error(files[0]) is None {
        preloaded(env, files[0])
    } else {
        first_preloaded(preloaded(env, files[0]), files.skip(1))
    }
}

/// The error of trying the candidates in order, `last` being the error
/// of the candidate tried before them: none if one of them is merged
/// without error, else the error of the last one, and without any
/// candidate at all the error that says so.
pub open spec fn first_preload_error(files: Seq<Preload>, last: Option<CfgErrorView>) -> Option<
    CfgErrorView,
>
    decreases files.len(),
{
    if files.len() == 0 {
        match last {
            Some(e) => Some(e),
            None => Some(no_file_error()),
        }
    } else {
        match preload_error(files[0]) {
            None => None,
            Some(e) => first_preload_error(files.skip(1), Some(e)),
        }
    }
}

/// Builds the error of a load that was given no file to try.
pub fn make_no_file_error() -> (r: CfgError)
    ensures
        r@ == no_file_error(),
{
    CfgError::LoadError {
        msg: "no .env file found in any provided path".to_owned(),
        source: "not found".to_owned(),
    }
}

/// Merges the first of `files` that can be merged without error.
pub fn preload_first(env: &mut Env, files: &Vec<Preload>) -> (r: Result<(), CfgError>)
    ensures
        final(env)@ == first_preloaded(old(env)@, files@),
        failure(r) == first_preload_error(files@, None),
{
    let n: usize = files.len();
    let mut last: Option<CfgError> = None;
    let mut i: usize = 0;
    proof {
        assert(files@.skip(0) =~= files@);
    }
    while i < n
        invariant
            i <= n,
            n == files.len(),
            first_preloaded(old(env)@, files@) == first_preloaded(env@, files@.skip(i as int)),
            first_preload_error(files@, None) == first_preload_error(
                files@.skip(i as int),
                failure_of(last),
            ),
        decreases n - i,
    {
        proof {
            assert(files@.skip(i as int).skip(1) =~= files@.skip(i + 1));
        }
        match preload(env, &files[i]) {
            Ok(_) => {
                return Ok(());
            },
            Err(e) => {
                last = Some(e);
            },
        }
        i += 1;
    }
    match last {
        Some(e) => Err(e),
        None => Err(make_no_file_error()),
    }
}

/// The view of an optional error.
pub open spec fn failure_of(e: Option<CfgError>) -> Option<CfgErrorView> {
    match e {
        Some(e) => Some(e@),
        None => None,
    }
}

/// Whether `parsed` holds, file by file, what parsing made of `files`.
pub open spec fn all_parsed_from(files: Seq<FileRead>, parsed: Seq<Preload>) -> bool {
    parsed.len() == files.len() && forall|j: int|
        0 <= j < files.len() ==> parsed_from(#[trigger] files[j], parsed[j])
}

/// Parses what the reads of the candidates gave, in order.
pub fn parse_files(files: &Vec<FileRead>) -> (r: Vec<Preload>)
    ensures
        all_parsed_from(files@, r@),
{
    let mut parsed: Vec<Preload> = Vec::new();
    let n: usize = files.len();
    let mut i: usize = 0;
    while i < n
        invariant
            i <= n,
            n == files.len(),
            parsed.len() == i,
            forall|j: int| 0 <= j < i ==> parsed_from(#[trigger] files@[j], parsed@[j]),
        decreases n - i,
    {
        parsed.push(parse_file(&files[i]));
        i += 1;
    }
    parsed
}

/// Takes into `env` the first of the candidate files that can be taken
/// in without error; an absent file counts as taken in. Where every
/// candidate fails the error is that of the last one, and without any
/// candidate the error says that no file was found.
///
/// As with `load_env_file`, a `$NAME` in a value is resolved against the
/// process and the file itself, not against `env`: what a failed
/// candidate merged is not seen by the values of the next.
pub fn load_env_file_iter(env: &mut Env, files: &Vec<FileRead>) -> (r: Result<(), CfgError>)
    ensures
        exists|parsed: Seq<Preload>|
            all_parsed_from(files@, parsed) && final(env)@ == first_preloaded(old(env)@, parsed)
                && failure(r) == first_preload_error(parsed, None),
        files.len() == 0 ==> failure(r) == Some(no_file_error()) && final(env)@ == old(env)@,
        files.len() > 0 && files[0] is Missing ==> r is Ok && final(env)@ == old(env)@,
        kept(old(env)@, final(env)@),
{
    let parsed = parse_files(files);
    proof {
        lemma_first_preloaded_keeps(env@, parsed@);
    }
    preload_first(env, &parsed)
}

/// Whether every value of `before` is a value of `after`, under its key.
pub open spec fn kept(before: Map<Seq<char>, Seq<char>>, after: Map<Seq<char>, Seq<char>>) -> bool {
    forall|key: Seq<char>| #[trigger]
        before.contains_key(key) ==> after.contains_key(key) && after[key] == before[key]
}

/// What is kept over one step and over the next is kept over both.
pub proof fn lemma_kept_twice(
    first: Map<Seq<char>, Seq<char>>,
    second: Map<Seq<char>, Seq<char>>,
    third: Map<Seq<char>, Seq<char>>,
)
    requires
        kept(first, second),
        kept(second, third),
    ensures
        kept(first, third),
{
}

/// Whether `env` has a value for the key of every entry that a merge of
/// `lines` reaches.
pub open spec fn covers(env: Map<Seq<char>, Seq<char>>, lines: Seq<Line>) -> bool
    decreases lines.len(),
{
    if lines.len() == 0 {
        true
    } else {
        match lines[0] {
            Line::Entry { key, .. } => env.contains_key(key@) && covers(env, lines.skip(1)),
            Line::Failure { .. } => true,
        }
    }
}

/// Merging the lines of a file replaces no value: what the environment
/// held before the merge it holds after it.
pub proof fn lemma_merged_keeps(env: Map<Seq<char>, Seq<char>>, lines: Seq<Line>)
    ensures
        kept(env, merged(env, lines)),
    decreases lines.len(),
{
    if lines.len() > 0 {
        match lines[0] {
            Line::Entry { key, value } => {
                let next = with_fallback(env, key@, value@);
                let last = merged(next, lines.skip(1));
                lemma_merged_keeps(next, lines.skip(1));
                assert forall|k: Seq<char>| #[trigger] env.contains_key(k) implies last.contains_key(
                    k,
                ) && last[k] == env[k] by {
                    assert(next.contains_key(k));
                }
            },
            Line::Failure { .. } => {},
        }
    }
}

/// After a merge, every key that the merge reached has a value.
pub proof fn lemma_merged_covers(env: Map<Seq<char>, Seq<char>>, lines: Seq<Line>)
    ensures
        covers(merged(env, lines), lines),
    decreases lines.len(),
{
    if lines.len() > 0 {
        match lines[0] {
            Line::Entry { key, value } => {
                let next = with_fallback(env, key@, value@);
                lemma_merged_covers(next, lines.skip(1));
                lemma_merged_keeps(next, lines.skip(1));
                assert(next.contains_key(key@));
            },
            Line::Failure { .. } => {},
        }
    }
}

/// A merge into an environment that has a value for every key it
/// reaches changes nothing.
pub proof fn lemma_covered_merge(env: Map<Seq<char>, Seq<char>>, lines: Seq<Line>)
    requires
        covers(env, lines),
    ensures
        merged(env, lines) == env,
    decreases lines.len(),
{
    if lines.len() > 0 {
        match lines[0] {
            Line::Entry { key, value } => {
                lemma_covered_merge(env, lines.skip(1));
            },
            Line::Failure { .. } => {},
        }
    }
}

/// A file never overrides: whatever the environment held before a file
/// is merged into it, it holds after.
pub proof fn lemma_preload_keeps(env: Map<Seq<char>, Seq<char>>, file: Preload)
    ensures
        kept(env, preloaded(env, file)),
{
    match file {
        Preload::Lines(lines) => {
            lemma_merged_keeps(env, lines@);
        },
        _ => {},
    }
}

/// Merging a file a second time changes nothing.
pub proof fn lemma_preload_twice(env: Map<Seq<char>, Seq<char>>, file: Preload)
    ensures
        preloaded(preloaded(env, file), file) == preloaded(env, file),
{
    match file {
        Preload::Lines(lines) => {
            lemma_merged_covers(env, lines@);
            lemma_covered_merge(merged(env, lines@), lines@);
        },
        _ => {},
    }
}

/// Trying candidates in order overrides nothing either.
pub proof fn lemma_first_preloaded_keeps(env: Map<Seq<char>, Seq<char>>, files: Seq<Preload>)
    ensures
        kept(env, first_preloaded(env, files)),
    decreases files.len(),
{
    if files.len() > 0 {
        lemma_preload_keeps(env, files[0]);
        if preload_error(files[0]) is Some {
            lemma_first_preloaded_keeps(preloaded(env, files[0]), files.skip(1));
        }
    }
}

} // verus!
