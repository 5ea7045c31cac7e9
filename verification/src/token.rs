//! Tokens of the form `key=value`.

use crate::number::{parse_int, parse_int_from};
use crate::text::to_chars;
use vstd::prelude::*;

verus! {

/// Whether the character at index `at` is the only `=` of `token`.
pub open spec fn only_assignment_at(token: Seq<char>, at: int) -> bool {
    &&& 0 <= at < token.len()
    &&& token[at] == '='
    &&& forall|j: int| 0 <= j < token.len() && #[trigger] token[j] == '=' ==> j == at
}

/// Whether `token` holds exactly one `=`, so that it splits into a key and a value.
pub open spec fn has_one_assignment(token: Seq<char>) -> bool {
    exists|at: int| only_assignment_at(token, at)
}

/// The index of the only `=` of a token that has exactly one.
pub open spec fn assignment_index(token: Seq<char>) -> int {
    choose|at: int| only_assignment_at(token, at)
}

/// The key and the integer that `token` assigns to it.
///
/// A token decodes when it holds exactly one `=` and what follows the `=` writes an `i32`;
/// the key is what stands before the `=`, untrimmed. Any other token decodes to nothing.
pub open spec fn key_value(token: Seq<char>) -> Option<(Seq<char>, i32)> {
    if has_one_assignment(token) {
        let at = assignment_index(token);
        match parse_int(token.skip(at + 1)) {
            Some(value) => Some((token.take(at), value)),
            None => None,
        }
    } else {
        None
    }
}

/// A token with its only `=` at `at` splits there and nowhere else.
pub proof fn lemma_assignment_index(token: Seq<char>, at: int)
    requires
        only_assignment_at(token, at),
    ensures
        has_one_assignment(token),
        assignment_index(token) == at,
{
    let chosen = assignment_index(token);
    assert(only_assignment_at(token, chosen));
    assert(token[chosen] == '=');
}

/// A key, a `=` and a value, neither of which holds a `=`, make a token that decodes to that
/// key and to the integer that the value writes, if it writes one.
pub proof fn lemma_key_value_joined(key: Seq<char>, value: Seq<char>)
    requires
        !key.contains('='),
        !value.contains('='),
    ensures
        key_value(key + seq!['='] + value) == match parse_int(value) {
            Some(number) => Some((key, number)),
            None => None,
        },
{
    let token = key + seq!['='] + value;
    let at = key.len() as int;
    assert forall|j: int| 0 <= j < token.len() && #[trigger] token[j] == '=' implies j == at by {
        if j < at {
            assert(key[j] == '=');
        } else if j > at {
            assert(value[j - at - 1] == '=');
        }
    }
    assert(token[at] == '=');
    lemma_assignment_index(token, at);
    assert(token.take(at) =~= key);
    assert(token.skip(at + 1) =~= value);
}

/// A token that decodes begins with its key and a `=`.
pub proof fn lemma_key_value_prefix(token: Seq<char>)
    ensures
        key_value(token) matches Some((key, _)) ==> (key + seq!['=']).is_prefix_of(token),
{
    if has_one_assignment(token) {
        let at = assignment_index(token);
        assert(only_assignment_at(token, at));
        assert(token.subrange(0, at + 1) =~= token.take(at) + seq!['=']);
    }
}

/// Finds the only `=` of `chars`, if it has exactly one.
pub(crate) fn find_assignment(chars: &Vec<char>) -> (r: Option<usize>)
    ensures
        match r {
            Some(at) => only_assignment_at(chars@, at as int),
            None => !has_one_assignment(chars@),
        },
{
    let mut found: Option<usize> = None;
    let mut i: usize = 0;
    while i < chars.len()
        invariant
            i <= chars.len(),
            match found {
                Some(at) => at < i && chars[at as int] == '=' && forall|j: int|
                    0 <= j < i && #[trigger] chars[j] == '=' ==> j == at,
                None => forall|j: int| 0 <= j < i ==> #[trigger] chars[j] != '=',
            },
        decreases chars.len() - i,
    {
        if chars[i] == '=' {
            match found {
                Some(at) => {
                    assert forall|p: int| !only_assignment_at(chars@, p) by {
                        assert(chars@[at as int] == '=');
                        assert(chars@[i as int] == '=');
                    }
                    return None;
                },
                None => {
                    found = Some(i);
                },
            }
        }
        i = i + 1;
    }
    proof {
        if found is None {
            assert forall|p: int| !only_assignment_at(chars@, p) by {
                if 0 <= p < chars@.len() {
                    assert(chars@[p] != '=');
                }
            }
        }
    }
    found
}

/// Splits `input` into the name of a variable and the value given to it.
///
/// Succeeds exactly when `input` decodes as a `key=value` token, and then returns that key
/// and that value.
pub fn extract_numeric_value(input: &str) -> (r: Option<(String, i32)>)
    ensures
        match r {
            Some((key, value)) => key_value(input@) == Some((key@, value)),
            None => key_value(input@) is None,
        },
{
    let chars = to_chars(input);
    match find_assignment(&chars) {
        Some(at) => {
            proof {
                lemma_assignment_index(input@, at as int);
            }
            match parse_int_from(&chars, at + 1) {
                Some(value) => {
                    let key = input.substring_char(0, at).to_owned();
                    Some((key, value))
                },
                None => None,
            }
        },
        None => None,
    }
}

} // verus!
