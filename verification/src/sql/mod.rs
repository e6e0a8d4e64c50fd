//! From SQL text to plans and from plans to results.
pub mod ast;
pub mod command_runner;
pub mod compiled_filter;
pub mod debug_text;
pub mod execution;
pub mod filter_laws;
pub mod logical_plan;
pub mod physical_plan;
pub mod plan_optimization;
pub mod projection;
pub mod sql_parser;
pub mod sql_text;

use vstd::prelude::*;
use vstd::string::*;

verus! {

/// Whether a character may occur in a name.
pub open spec fn is_name_char(c: char) -> bool {
    'a' <= c <= 'z' || 'A' <= c <= 'Z' || '0' <= c <= '9' || c == '_'
}

/// Whether a text is a name: not empty, and every character may occur in a name.
pub open spec fn is_name(name: Seq<char>) -> bool {
    name.len() > 0 && forall|i: int| 0 <= i < name.len() ==> is_name_char(#[trigger] name[i])
}

/// Validates the name of fields, databases, columns.
///
/// Returns:
///   * `true` when: name is non-empty and consists only of ASCII alphanumeric characters or underscore.
///   * `false` when: name is empty or contains invalid characters.
pub fn validate_name(name: &str) -> (r: bool)
    ensures
        r == is_name(name@),
{
    let n: usize = name.unicode_len();
    if n == 0 {
        return false;
    }
    let mut i: usize = 0;
    while i < n
        invariant
            i <= n,
            n == name@.len(),
            forall|k: int| 0 <= k < i ==> is_name_char(#[trigger] name@[k]),
        decreases n - i,
    {
        let c = name.get_char(i);
        if !(('a' <= c && c <= 'z') || ('A' <= c && c <= 'Z') || ('0' <= c && c <= '9') || c == '_') {
            return false;
        }
        i += 1;
    }
    true
}

} // verus!
