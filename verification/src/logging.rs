//! Settings of the log.

use vstd::prelude::*;

use crate::config::LogLevel;
use crate::text::characters;

verus! {

/// The rolling log files.
#[derive(Debug)]
pub struct LogFileConfig {
    /// Directory of the files.
    pub dir: String,
    /// First part of a file's name.
    pub prefix: String,
    /// How many files are kept.
    pub max_files: usize,
}

/// A character in lower case, where it is an ASCII letter.
pub open spec fn ascii_lower(c: char) -> char {
    if 'A' <= c && c <= 'Z' {
        ((c as u32) + 32) as char
    } else {
        c
    }
}

/// The text is this name, whatever the case of its ASCII letters.
pub open spec fn named(text: Seq<char>, name: Seq<char>) -> bool {
    text.map_values(|c: char| ascii_lower(c)) == name
}

fn lower(c: char) -> (r: char)
    ensures
        r == ascii_lower(c),
{
    if 'A' <= c && c <= 'Z' {
        ((c as u8) + 32) as char
    } else {
        c
    }
}

fn is_named(text: &Vec<char>, name: &str) -> (r: bool)
    ensures
        r == named(text@, name@),
{
    let n = characters(name);
    let ghost low = text@.map_values(|c: char| ascii_lower(c));
    if text.len() != n.len() {
        return false;
    }
    let mut i: usize = 0;
    while i < n.len()
        invariant
            i <= n@.len(),
            n@ == name@,
            text@.len() == n@.len(),
            low == text@.map_values(|c: char| ascii_lower(c)),
            forall|j: int| 0 <= j < i ==> low[j] == #[trigger] n@[j],
        decreases n@.len() - i,
    {
        if lower(text[i]) != n[i] {
            assert(low[i as int] != name@[i as int]);
            return false;
        }
        i = i + 1;
    }
    assert(low =~= name@);
    true
}

/// The level that a name stands for, whatever its case.
pub open spec fn level_named(text: Seq<char>) -> Option<LogLevel> {
    if named(text, "trace"@) {
        Some(LogLevel::Trace)
    } else if named(text, "debug"@) {
        Some(LogLevel::Debug)
    } else if named(text, "info"@) {
        Some(LogLevel::Info)
    } else if named(text, "warn"@) || named(text, "warning"@) {
        Some(LogLevel::Warn)
    } else if named(text, "error"@) {
        Some(LogLevel::Error)
    } else {
        None
    }
}

/// The level that a name stands for, whatever its case.
pub fn level_from_str(s: &str) -> (r: Option<LogLevel>)
    ensures
        r == level_named(s@),
{
    let text = characters(s);
    if is_named(&text, "trace") {
        Some(LogLevel::Trace)
    } else if is_named(&text, "debug") {
        Some(LogLevel::Debug)
    } else if is_named(&text, "info") {
        Some(LogLevel::Info)
    } else if is_named(&text, "warn") || is_named(&text, "warning") {
        Some(LogLevel::Warn)
    } else if is_named(&text, "error") {
        Some(LogLevel::Error)
    } else {
        None
    }
}

} // verus!
