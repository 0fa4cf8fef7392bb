//! Configuration and credential files: the two file formats, and what to do
//! with the result of reading a file that may be missing or unreadable.
//! Reading and writing the files happens outside.
use vstd::prelude::*;

use crate::text::{chars_of, string_from_chars};

verus! {

/// Files in TOML.
pub struct TomlSerializer {}

/// Files in CBOR.
pub struct CborSerializer {}

/// What to do after looking for a file, or after reading it.
pub enum LoadOutcome<T> {
    /// Build the default value, write it to the file and hand it back.
    WriteDefault,
    /// Hand this back.
    Finish(Result<T, String>),
}

/// The first step of loading a file that may be missing.
#[derive(Clone, Copy, Debug, PartialEq, Eq, Structural)]
pub enum LookupStep {
    /// The file is missing: build the default value, write it to the file
    /// and hand it back.
    WriteDefault,
    /// Read the file, then go on with `on_load_result`.
    ReadFile,
}

/// What to do after looking for the file: a missing file gets the default
/// written; an existing one is read.
pub fn on_lookup(exists: bool) -> (r: LookupStep)
    ensures
        r == (if exists {
            LookupStep::ReadFile
        } else {
            LookupStep::WriteDefault
        }),
{
    if exists {
        LookupStep::ReadFile
    } else {
        LookupStep::WriteDefault
    }
}

/// The message for a file at `path` that could not be read as `error` says.
pub open spec fn parse_failure_text(path: Seq<char>, error: Seq<char>) -> Seq<char> {
    "Unable to parse "@ + path + ": "@ + error
}

fn push_all(v: &mut Vec<char>, s: &[char])
    ensures
        final(v)@ == old(v)@ + s@,
{
    let mut i: usize = 0;
    while i < s.len()
        invariant
            i <= s@.len(),
            v@ == old(v)@ + s@.take(i as int),
        decreases s@.len() - i,
    {
        v.push(s[i]);
        i = i + 1;
        assert(s@.take(i as int) =~= s@.take(i - 1).push(s@[i - 1]));
    }
    assert(s@.take(s@.len() as int) =~= s@);
}

/// What to do with the result of reading the file at `path`: a value read is
/// handed back; a failure writes the default where `default_on_parse_failure`
/// asks for it, and is otherwise handed back with the path in its message.
pub fn on_load_result<T>(path: &str, result: Result<T, String>, default_on_parse_failure: bool) -> (r:
    LoadOutcome<T>)
    ensures
        match result {
            Ok(value) => r == LoadOutcome::Finish(Ok::<T, String>(value)),
            Err(e) => if default_on_parse_failure {
                r is WriteDefault
            } else {
                r matches LoadOutcome::Finish(Err(m)) && m@ == parse_failure_text(path@, e@)
            },
        },
{
    match result {
        Ok(value) => LoadOutcome::Finish(Ok(value)),
        Err(e) => {
            if default_on_parse_failure {
                LoadOutcome::WriteDefault
            } else {
                let mut text: Vec<char> = Vec::new();
                let prefix = chars_of("Unable to parse ");
                let path_chars = chars_of(path);
                let sep = chars_of(": ");
                let err_chars = chars_of(e.as_str());
                push_all(&mut text, prefix.as_slice());
                push_all(&mut text, path_chars.as_slice());
                push_all(&mut text, sep.as_slice());
                push_all(&mut text, err_chars.as_slice());
                LoadOutcome::Finish(Err(string_from_chars(text.as_slice())))
            }
        },
    }
}

} // verus!
