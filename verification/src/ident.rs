//! Identifier and token checks: whether a candidate name is a valid C-style
//! identifier, and whether a long name or alias is free of spaces.
use vstd::prelude::*;
use vstd::string::StrSliceExecFns;

verus! {

/// A character that may start a C identifier: `_`, `a`-`z` or `A`-`Z`.
pub open spec fn spec_ident_start(c: char) -> bool {
    c == '_' || ('a' as u32 <= c as u32 && c as u32 <= 'z' as u32) || ('A' as u32 <= c as u32
        && c as u32 <= 'Z' as u32)
}

/// A character that may continue a C identifier: a start character or a digit.
pub open spec fn spec_ident_char(c: char) -> bool {
    spec_ident_start(c) || ('0' as u32 <= c as u32 && c as u32 <= '9' as u32)
}

/// A valid C-style identifier: one start character, then any number of
/// identifier characters.
pub open spec fn spec_is_ident(s: Seq<char>) -> bool {
    s.len() > 0 && spec_ident_start(s[0]) && (forall|i: int|
        1 <= i < s.len() ==> spec_ident_char(#[trigger] s[i]))
}

fn ident_start(c: char) -> (r: bool)
    ensures
        r == spec_ident_start(c),
{
    let u = c as u32;
    c == '_' || ('a' as u32 <= u && u <= 'z' as u32) || ('A' as u32 <= u && u <= 'Z' as u32)
}

fn ident_char(c: char) -> (r: bool)
    ensures
        r == spec_ident_char(c),
{
    let u = c as u32;
    ident_start(c) || ('0' as u32 <= u && u <= '9' as u32)
}

/// Whether `s` is a valid C-style identifier.
pub fn is_ident(s: &str) -> (r: bool)
    ensures
        r == spec_is_ident(s@),
{
    let n = s.unicode_len();
    if n == 0 {
        return false;
    }
    if !ident_start(s.get_char(0)) {
        return false;
    }
    let mut i: usize = 1;
    while i < n
        invariant
            1 <= i <= n,
            n == s@.len(),
            spec_ident_start(s@[0]),
            forall|j: int| 1 <= j < i ==> spec_ident_char(#[trigger] s@[j]),
        decreases n - i,
    {
        if !ident_char(s.get_char(i)) {
            return false;
        }
        i = i + 1;
    }
    true
}

/// `s` holds a space character somewhere.
pub open spec fn spec_has_space(s: Seq<char>) -> bool {
    exists|i: int| 0 <= i < s.len() && s[i] == ' '
}

/// Whether `s` holds a space character.
pub fn has_space(s: &str) -> (r: bool)
    ensures
        r == spec_has_space(s@),
{
    let n = s.unicode_len();
    let mut i: usize = 0;
    while i < n
        invariant
            0 <= i <= n,
            n == s@.len(),
            forall|j: int| 0 <= j < i ==> #[trigger] s@[j] != ' ',
        decreases n - i,
    {
        if s.get_char(i) == ' ' {
            return true;
        }
        i = i + 1;
    }
    false
}

} // verus!
