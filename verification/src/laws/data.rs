//! String constants in the data buffer: the operands of `db` stand for
//! the characters of the string, one for one.

use vstd::prelude::*;
use crate::lowering::expr::{
    db_operands, db_operands_from, escape_code, is_escaped, separator,
};
use crate::text::decimal;

verus! {

/// Inside a quoted run, the characters up to the end of the run are copied.
pub proof fn lemma_open_run(s: Seq<char>, from: int, to: int)
    requires
        0 <= from <= to <= s.len(),
        forall|k: int| from <= k < to ==> !is_escaped(s[k]),
    ensures
        db_operands_from(s, from, true) == s.subrange(from, to) + db_operands_from(s, to, true),
    decreases to - from,
{
    if from < to {
        lemma_open_run(s, from + 1, to);
        assert(seq![s[from]] + s.subrange(from + 1, to) =~= s.subrange(from, to));
        assert(db_operands_from(s, from, true) =~= s.subrange(from, to) + db_operands_from(
            s,
            to,
            true,
        ));
    } else {
        assert(s.subrange(from, to) + db_operands_from(s, to, true) =~= db_operands_from(
            s,
            to,
            true,
        ));
    }
}

/// A run of ordinary characters that ends at an escaped character, or at
/// the end, stands in one pair of quotes.
pub proof fn lemma_quoted_run(s: Seq<char>, from: int, to: int)
    requires
        0 <= from < to <= s.len(),
        forall|k: int| from <= k < to ==> !is_escaped(s[k]),
        to == s.len() || is_escaped(s[to]),
    ensures
        db_operands_from(s, from, false) == separator(from) + "\""@ + s.subrange(from, to) + "\""@
            + db_operands_from(s, to, false),
{
    lemma_open_run(s, from + 1, to);
    assert(seq![s[from]] + s.subrange(from + 1, to) =~= s.subrange(from, to));
    assert(db_operands_from(s, to, true) =~= "\""@ + db_operands_from(s, to, false));
    assert(db_operands_from(s, from, false) =~= separator(from) + "\""@ + s.subrange(from, to)
        + "\""@ + db_operands_from(s, to, false));
}

/// An operand of `db`: a run of characters in quotes, or the code of one
/// character.
pub enum DbItem {
    Run(Seq<char>),
    Code(char),
}

/// The number of ordinary characters in a row from position `i` on.
pub open spec fn plain_len(s: Seq<char>, i: int) -> nat
    decreases s.len() - i,
{
    if 0 <= i < s.len() && !is_escaped(s[i]) {
        1 + plain_len(s, i + 1)
    } else {
        0
    }
}

/// A run of ordinary characters ends inside the string, at an escaped
/// character or at the end.
pub proof fn lemma_plain_len(s: Seq<char>, i: int)
    requires
        0 <= i <= s.len(),
    ensures
        i + plain_len(s, i) <= s.len(),
        forall|k: int| i <= k < i + plain_len(s, i) ==> !is_escaped(s[k]),
        i + plain_len(s, i) == s.len() || is_escaped(s[i + plain_len(s, i)]),
    decreases s.len() - i,
{
    if i < s.len() && !is_escaped(s[i]) {
        lemma_plain_len(s, i + 1);
    }
}

/// The operands that the characters of `s` from position `i` on are
/// written as: each escaped character by its code, each longest run of
/// ordinary characters as one quoted run.
pub open spec fn db_items(s: Seq<char>, i: int) -> Seq<DbItem>
    decreases s.len() - i,
{
    if i < 0 || i >= s.len() {
        Seq::empty()
    } else if is_escaped(s[i]) {
        seq![DbItem::Code(s[i])] + db_items(s, i + 1)
    } else {
        let n = plain_len(s, i);
        proof {
            lemma_plain_len(s, i);
        }
        seq![DbItem::Run(s.subrange(i, i + n))] + db_items(s, i + n)
    }
}

/// The text of one operand: a run between double quotes, a code as a
/// decimal number behind a space.
pub open spec fn item_text(item: DbItem) -> Seq<char> {
    match item {
        DbItem::Run(run) => "\""@ + run + "\""@,
        DbItem::Code(c) => " "@ + decimal(c as nat),
    }
}

/// The characters that one operand stands for.
pub open spec fn item_chars(item: DbItem) -> Seq<char> {
    match item {
        DbItem::Run(run) => run,
        DbItem::Code(c) => seq![c],
    }
}

/// The text of a list of operands, with commas in between; `first` says
/// that no operand stands before them.
pub open spec fn items_text(items: Seq<DbItem>, first: bool) -> Seq<char>
    decreases items.len(),
{
    if items.len() == 0 {
        Seq::empty()
    } else {
        let comma = if first {
            Seq::empty()
        } else {
            ","@
        };
        comma + item_text(items[0]) + items_text(items.drop_first(), false)
    }
}

/// The characters that a list of operands stands for.
pub open spec fn items_chars(items: Seq<DbItem>) -> Seq<char>
    decreases items.len(),
{
    if items.len() == 0 {
        Seq::empty()
    } else {
        item_chars(items[0]) + items_chars(items.drop_first())
    }
}

/// The code of an escaped character is written as its decimal number.
pub proof fn lemma_escape_code(c: char)
    requires
        is_escaped(c),
    ensures
        escape_code(c) == " "@ + decimal(c as nat),
{
    reveal_strlit(" ");
    reveal_strlit(" 10");
    reveal_strlit(" 9");
    reveal_strlit(" 13");
    reveal_strlit(" 34");
    reveal_with_fuel(decimal, 2);
    assert(escape_code(c) =~= " "@ + decimal(c as nat));
}

/// The operand list of a string constant is the text of its operands.
pub proof fn lemma_operands_are_items(s: Seq<char>, i: int)
    requires
        0 <= i <= s.len(),
    ensures
        db_operands_from(s, i, false) == items_text(db_items(s, i), i == 0),
    decreases s.len() - i,
{
    if i < s.len() {
        if is_escaped(s[i]) {
            let rest = db_items(s, i + 1);
            let items = seq![DbItem::Code(s[i])] + rest;
            lemma_operands_are_items(s, i + 1);
            lemma_escape_code(s[i]);
            assert(items.drop_first() =~= rest);
            assert(db_operands_from(s, i, false) =~= items_text(items, i == 0));
        } else {
            let n = plain_len(s, i);
            lemma_plain_len(s, i);
            let rest = db_items(s, i + n);
            let items = seq![DbItem::Run(s.subrange(i, i + n))] + rest;
            lemma_operands_are_items(s, i + n);
            lemma_quoted_run(s, i, i + n);
            assert(items.drop_first() =~= rest);
            assert(db_operands_from(s, i, false) =~= items_text(items, i == 0));
        }
    }
}

/// The operands of the characters from position `i` on stand for these
/// characters.
pub proof fn lemma_items_read_back(s: Seq<char>, i: int)
    requires
        0 <= i <= s.len(),
    ensures
        items_chars(db_items(s, i)) == s.subrange(i, s.len() as int),
    decreases s.len() - i,
{
    if i < s.len() {
        if is_escaped(s[i]) {
            let rest = db_items(s, i + 1);
            let items = seq![DbItem::Code(s[i])] + rest;
            lemma_items_read_back(s, i + 1);
            assert(items.drop_first() =~= rest);
            assert(items_chars(items) =~= s.subrange(i, s.len() as int));
        } else {
            let n = plain_len(s, i);
            lemma_plain_len(s, i);
            let rest = db_items(s, i + n);
            let items = seq![DbItem::Run(s.subrange(i, i + n))] + rest;
            lemma_items_read_back(s, i + n);
            assert(items.drop_first() =~= rest);
            assert(items_chars(items) =~= s.subrange(i, s.len() as int));
        }
    } else {
        assert(s.subrange(i, s.len() as int) =~= Seq::<char>::empty());
    }
}

/// No quoted run is empty or holds an escaped character, and every code is
/// the code of an escaped character.
pub proof fn lemma_items_shape(s: Seq<char>, i: int)
    requires
        0 <= i <= s.len(),
    ensures
        forall|k: int|
            0 <= k < db_items(s, i).len() ==> match #[trigger] db_items(s, i)[k] {
                DbItem::Run(run) => run.len() > 0 && forall|j: int|
                    0 <= j < run.len() ==> !is_escaped(run[j]),
                DbItem::Code(c) => is_escaped(c),
            },
    decreases s.len() - i,
{
    if i < s.len() {
        if is_escaped(s[i]) {
            lemma_items_shape(s, i + 1);
        } else {
            lemma_plain_len(s, i);
            lemma_items_shape(s, i + plain_len(s, i));
        }
    }
}

/// The operand list that a string constant is written as reads back as the
/// string: it is the text of a list of operands, quoted runs and codes
/// with commas in between, that stand for the characters of the string in
/// order.
pub proof fn lemma_string_constant_reads_back(s: Seq<char>)
    ensures
        db_operands(s) == items_text(db_items(s, 0), true),
        items_chars(db_items(s, 0)) == s,
{
    lemma_operands_are_items(s, 0);
    lemma_items_read_back(s, 0);
    assert(s.subrange(0, s.len() as int) =~= s);
}

} // verus!
