//! Strict extraction of the first balanced JSON object from free-form
//! model output.
//!
//! Provider output is untrusted text: it may wrap the JSON payload in
//! prose or markdown fences. Rather than pattern-matching around it,
//! the first `{` opens an object and the scan tracks nesting and JSON
//! string syntax until the brace that closes it; if the text never
//! closes it, extraction fails explicitly. Structured decoding of the
//! extracted object is the caller's next step.

use vstd::prelude::*;
use vstd::string::StrSliceExecFns;

verus! {

/// The index of the first `{` at or after `i`, if any.
pub open spec fn spec_first_brace(s: Seq<char>, i: int) -> Option<int>
    decreases s.len() - i,
{
    if i < 0 || i >= s.len() {
        None
    } else if s[i] == '{' {
        Some(i)
    } else {
        spec_first_brace(s, i + 1)
    }
}

/// Scanning from `i` with `depth` objects open and the given JSON
/// string-literal state: the index just past the brace that closes the
/// outermost open object, if the text ever closes it.
pub open spec fn spec_object_end(
    s: Seq<char>,
    i: int,
    depth: int,
    in_str: bool,
    esc: bool,
) -> Option<int>
    decreases s.len() - i,
{
    if i < 0 || i >= s.len() {
        None
    } else {
        let c = s[i];
        if in_str {
            if esc {
                spec_object_end(s, i + 1, depth, true, false)
            } else if c == '\\' {
                spec_object_end(s, i + 1, depth, true, true)
            } else if c == '"' {
                spec_object_end(s, i + 1, depth, false, false)
            } else {
                spec_object_end(s, i + 1, depth, true, false)
            }
        } else {
            if c == '"' {
                spec_object_end(s, i + 1, depth, true, false)
            } else if c == '{' {
                spec_object_end(s, i + 1, depth + 1, false, false)
            } else if c == '}' {
                if depth == 1 {
                    Some(i + 1)
                } else {
                    spec_object_end(s, i + 1, depth - 1, false, false)
                }
            } else {
                spec_object_end(s, i + 1, depth, false, false)
            }
        }
    }
}

/// The first balanced JSON object of a text, braces included.
pub open spec fn spec_extract_object(s: Seq<char>) -> Option<Seq<char>> {
    match spec_first_brace(s, 0) {
        None => None,
        Some(a) => match spec_object_end(s, a + 1, 1, false, false) {
            None => None,
            Some(b) => Some(s.subrange(a, b)),
        },
    }
}

/// Extracts the first balanced JSON object from untrusted model output,
/// or nothing when the text holds no complete object.
pub fn extract_first_json_object(s: &str) -> (r: Option<String>)
    ensures
        (r matches Some(t) ==> spec_extract_object(s@) == Some(t@)),
        r is None ==> spec_extract_object(s@) is None,
{
    let n = s.unicode_len();
    let mut a: usize = 0;
    while a < n && s.get_char(a) != '{'
        invariant
            n == s@.len(),
            a <= n,
            spec_first_brace(s@, 0) == spec_first_brace(s@, a as int),
        decreases n - a,
    {
        a = a + 1;
    }
    if a == n {
        proof {
            assert(spec_first_brace(s@, n as int) is None);
        }
        return None;
    }
    proof {
        assert(spec_first_brace(s@, 0) == Some(a as int));
    }
    let mut i: usize = a + 1;
    let mut depth: usize = 1;
    let mut in_str: bool = false;
    let mut esc: bool = false;
    while i < n
        invariant
            n == s@.len(),
            a < n,
            a < i <= n,
            1 <= depth <= i,
            esc ==> in_str,
            spec_first_brace(s@, 0) == Some(a as int),
            spec_object_end(s@, a + 1, 1, false, false) == spec_object_end(
                s@,
                i as int,
                depth as int,
                in_str,
                esc,
            ),
        decreases n - i,
    {
        let c = s.get_char(i);
        if in_str {
            if esc {
                esc = false;
            } else if c == '\\' {
                esc = true;
            } else if c == '"' {
                in_str = false;
            }
        } else {
            if c == '"' {
                in_str = true;
            } else if c == '{' {
                depth = depth + 1;
            } else if c == '}' {
                if depth == 1 {
                    let out = s.substring_char(a, i + 1);
                    proof {
                        assert(spec_object_end(s@, i as int, 1, false, false) == Some(
                            i as int + 1,
                        ));
                        assert(spec_extract_object(s@) == Some(s@.subrange(a as int, i + 1)));
                    }
                    return Some(out.to_owned());
                }
                depth = depth - 1;
            }
        }
        i = i + 1;
    }
    proof {
        assert(spec_object_end(s@, n as int, depth as int, in_str, esc) is None);
        assert(spec_extract_object(s@) is None);
    }
    None
}

} // verus!
