//! What the terminal environment supports, decided from the values of its
//! environment variables (which the caller reads).
use vstd::prelude::*;

use crate::text::{parse_u32, parse_u32_spec, str_chars};

verus! {

/// The code of `c` in ASCII lower case.
pub open spec fn lower_code(c: char) -> int {
    if 'A' <= c && c <= 'Z' {
        c as int + 32
    } else {
        c as int
    }
}

/// `s` holds `tmux`, in any ASCII case, at position `i`.
pub open spec fn tmux_at(s: Seq<char>, i: int) -> bool {
    &&& lower_code(s[i]) == 't' as int
    &&& lower_code(s[i + 1]) == 'm' as int
    &&& lower_code(s[i + 2]) == 'u' as int
    &&& lower_code(s[i + 3]) == 'x' as int
}

/// `s`, in ASCII lower case, contains `tmux`.
pub open spec fn mentions_tmux(s: Seq<char>) -> bool {
    exists|i: int| 0 <= i && i + 4 <= s.len() && #[trigger] tmux_at(s, i)
}

fn lower_code_of(c: char) -> (code: u32)
    ensures
        code == lower_code(c),
{
    let u = c as u32;
    if 65 <= u && u <= 90 {
        u + 32
    } else {
        u
    }
}

/// Whether the value of a terminal variable, lowered to ASCII lower case,
/// contains `tmux`.
pub fn value_mentions_tmux(value: &str) -> (b: bool)
    ensures
        b == mentions_tmux(value@),
{
    let chars = str_chars(value);
    let n = chars.len();
    if n < 4 {
        return false;
    }
    let mut i: usize = 0;
    while i <= n - 4
        invariant
            n == chars@.len(),
            chars@ == value@,
            n >= 4,
            i <= n - 3,
            forall|j: int| 0 <= j < i ==> !#[trigger] tmux_at(value@, j),
        decreases n - i,
    {
        if lower_code_of(chars[i]) == 116 && lower_code_of(chars[i + 1]) == 109 && lower_code_of(
            chars[i + 2],
        ) == 117 && lower_code_of(chars[i + 3]) == 120 {
            assert(tmux_at(value@, i as int));
            return true;
        }
        i = i + 1;
    }
    false
}

/// Whether the terminal runs under tmux: one of the values of the terminal
/// variables (`TERM`, `TERMINAL`; `None` where unset) mentions `tmux`.
pub fn is_tmux(values: &Vec<Option<String>>) -> (b: bool)
    ensures
        b == exists|i: int|
            0 <= i < values@.len() && (#[trigger] values@[i] matches Some(v) && mentions_tmux(
                v@,
            )),
{
    let mut i: usize = 0;
    while i < values.len()
        invariant
            i <= values@.len(),
            forall|j: int|
                0 <= j < i ==> !(#[trigger] values@[j] matches Some(v) && mentions_tmux(v@)),
        decreases values@.len() - i,
    {
        match &values[i] {
            Some(v) => {
                if value_mentions_tmux(v.as_str()) {
                    return true;
                }
            },
            None => {},
        }
        i = i + 1;
    }
    false
}

/// How deeply tmux sessions are nested, from the value of `TMUX_NEST_COUNT`:
/// its number, or 1 when it is unset or no `u32`.
pub fn get_tmux_nest_count(value: Option<String>) -> (count: u32)
    ensures
        count == match value {
            Some(s) => match parse_u32_spec(s@) {
                Some(n) => n,
                None => 1,
            },
            None => 1,
        },
{
    match value {
        Some(s) => match parse_u32(s.as_str()) {
            Some(n) => n,
            None => 1,
        },
        None => 1,
    }
}

/// Whether the viewer runs over SSH: one of the SSH variables
/// (`SSH_CLIENT`, `SSH_CONNECTION`) is set.
pub fn is_ssh(vars_set: &Vec<bool>) -> (b: bool)
    ensures
        b == exists|i: int| 0 <= i < vars_set@.len() && #[trigger] vars_set@[i],
{
    let mut i: usize = 0;
    while i < vars_set.len()
        invariant
            i <= vars_set@.len(),
            forall|j: int| 0 <= j < i ==> !#[trigger] vars_set@[j],
        decreases vars_set@.len() - i,
    {
        if vars_set[i] {
            return true;
        }
        i = i + 1;
    }
    false
}

} // verus!
