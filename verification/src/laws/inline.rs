//! Inline assembly: a substitution that cannot be made stops the
//! compilation.

use vstd::prelude::*;
use crate::lowering::stmt::{ident_end, is_ident_at, lemma_ident_end, substitute_with};
use crate::state::State;

verus! {

/// A name does not run past a character that belongs to none.
proof fn lemma_ident_end_before(s: Seq<char>, flags: Seq<bool>, i: int, p: int)
    requires
        0 <= i <= p < s.len(),
        !is_ident_at(s, flags, p),
    ensures
        ident_end(s, flags, i) <= p,
    decreases p - i,
{
    if i < p && is_ident_at(s, flags, i) {
        lemma_ident_end_before(s, flags, i + 1, p);
    }
}

/// A substitution that fails at a `%` fails from every position before it:
/// no name before it runs over the `%`.
proof fn lemma_failure_is_reached(st: State, s: Seq<char>, flags: Seq<bool>, i: int, p: int)
    requires
        0 <= i <= p < s.len(),
        s[p] == '%',
        substitute_with(st, s, flags, p) is Err,
    ensures
        substitute_with(st, s, flags, i) is Err,
    decreases p - i,
{
    if i < p {
        if s[i] != '%' {
            lemma_failure_is_reached(st, s, flags, i + 1, p);
        } else {
            let end = ident_end(s, flags, i + 1);
            lemma_ident_end(s, flags, i + 1);
            lemma_ident_end_before(s, flags, i + 1, p);
            if end > i + 1 && st.lookup(s.subrange(i + 1, end)) is Some {
                lemma_failure_is_reached(st, s, flags, end, p);
            }
        }
    }
}

/// A line with a `%` that no name follows cannot be compiled, whatever
/// else it holds.
pub proof fn lemma_missing_name_fails(st: State, s: Seq<char>, flags: Seq<bool>, p: int)
    requires
        0 <= p < s.len(),
        s[p] == '%',
        p + 1 == s.len() || !is_ident_at(s, flags, p + 1),
    ensures
        substitute_with(st, s, flags, 0) is Err,
{
    lemma_failure_is_reached(st, s, flags, 0, p);
}

/// A line with a `%` and a name that is not in scope cannot be compiled,
/// whatever else it holds.
pub proof fn lemma_unknown_name_fails(st: State, s: Seq<char>, flags: Seq<bool>, p: int)
    requires
        0 <= p < s.len(),
        s[p] == '%',
        st.lookup(s.subrange(p + 1, ident_end(s, flags, p + 1))) is None,
    ensures
        substitute_with(st, s, flags, 0) is Err,
{
    lemma_failure_is_reached(st, s, flags, 0, p);
}

} // verus!
