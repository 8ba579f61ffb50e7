//! The scope chain and the block counter.

use vstd::prelude::*;
use crate::laws::growth::{
    begins_with, lemma_block_advances, lemma_block_binds_above, lemma_params_advance,
    lemma_stmt_advances,
};
use crate::lowering::function::{begin_function, lower_function, lower_params};
use crate::lowering::program::{
    import_path, is_exported, lower_file, lower_item, lower_items, lower_program, register,
    source_from,
};
use crate::lowering::stmt::{lower_block, lower_stmt, open_scope};
use crate::parser::expr::ExprView;
use crate::parser::function::FunctionView;
use crate::parser::program::{FileView, ItemView};
use crate::parser::stmt::StmtView;
use crate::state::{lookup_in, lookup_in_scope, Binding, Failure, State};

verus! {

/// No scope is open when a function has been lowered.
pub proof fn lemma_function_closes_scopes(st: State, f: FunctionView)
    requires
        lower_function(st, f) is Ok,
    ensures
        lower_function(st, f)->Ok_0.scopes.len() == 0,
{
    let begun = begin_function(st, f.ident);
    lemma_params_advance(begun, f.args, 0);
    let bound = lower_params(begun, f.args, 0)->Ok_0;
    lemma_block_advances(bound, f.block);
}

/// No scope is open behind the items of a file, if none was before them.
pub proof fn lemma_items_close_scopes(
    st: State,
    sources: Seq<FileView>,
    items: Seq<ItemView>,
    i: nat,
    exports: Option<Seq<Seq<char>>>,
    depth: nat,
)
    requires
        st.scopes.len() == 0,
        lower_items(st, sources, items, i, exports, depth) is Ok,
    ensures
        lower_items(st, sources, items, i, exports, depth)->Ok_0.scopes.len() == 0,
    decreases depth, 1nat, items.len() - i,
{
    if i < items.len() {
        let then = lower_item(st, sources, items[i as int], exports, depth);
        match items[i as int] {
            ItemView::StaticVar(_) => {},
            ItemView::Func(f) => {
                if is_exported(exports, f.ident) {
                    lemma_function_closes_scopes(register(st, f), f);
                }
            },
            ItemView::Import(path, list) => {
                lemma_file_closes_scopes(
                    st,
                    sources,
                    import_path(path),
                    Some(list),
                    (depth - 1) as nat,
                );
            },
        }
        lemma_items_close_scopes(then->Ok_0, sources, items, i + 1, exports, depth);
    }
}

/// No scope is open behind a file, if none was before it.
pub proof fn lemma_file_closes_scopes(
    st: State,
    sources: Seq<FileView>,
    path: Seq<char>,
    exports: Option<Seq<Seq<char>>>,
    depth: nat,
)
    requires
        st.scopes.len() == 0,
        lower_file(st, sources, path, exports, depth) is Ok,
    ensures
        lower_file(st, sources, path, exports, depth)->Ok_0.scopes.len() == 0,
    decreases depth, 2nat, 0nat,
{
    let file = source_from(sources, path, 0)->Some_0;
    lemma_items_close_scopes(st, sources, file.items, 0, exports, depth);
}

/// The scope stack is empty when a compilation returns: a compilation that
/// starts with no scope open finds none open at its end, so the test for
/// one never fails it.
pub proof fn lemma_compilation_clears_scopes(
    st: State,
    sources: Seq<FileView>,
    path: Seq<char>,
)
    requires
        st.scopes.len() == 0,
    ensures
        lower_program(st, sources, path) == lower_file(st, sources, path, None, sources.len()),
        lower_program(st, sources, path) matches Ok(s) ==> s.scopes.len() == 0,
{
    if lower_file(st, sources, path, None, sources.len()) is Ok {
        lemma_file_closes_scopes(st, sources, path, None, sources.len());
    }
}

/// The block counter never goes back: a statement leaves it where it was
/// or higher.
pub proof fn lemma_counter_never_decreases(st: State, s: StmtView)
    requires
        lower_stmt(st, s) is Ok,
    ensures
        lower_stmt(st, s)->Ok_0.block_id >= st.block_id,
{
    lemma_stmt_advances(st, s);
}

/// Every block gets an id of its own: the counter is higher behind a block
/// than before it, and the id of the block is above every id that is open.
pub proof fn lemma_block_ids_increase(st: State, b: Seq<StmtView>)
    requires
        st.wf(),
        lower_block(st, b) is Ok,
    ensures
        lower_block(st, b)->Ok_0.block_id > st.block_id,
        open_scope(st).scopes.last() == st.block_id + 1,
        forall|i: int| 0 <= i < st.scopes.len() ==> st.scopes[i] < open_scope(st).scopes.last(),
{
    lemma_block_advances(st, b);
}

/// A scope that no slot belongs to has no variable.
proof fn lemma_scope_without_slots(vars: Seq<Binding>, ident: Seq<char>, scope: nat)
    requires
        forall|i: int| 0 <= i < vars.len() ==> (#[trigger] vars[i]).scope != scope,
    ensures
        lookup_in_scope(vars, ident, scope) is None,
    decreases vars.len(),
{
    if vars.len() > 0 {
        assert(vars.last() == vars[vars.len() - 1]);
        assert forall|i: int| 0 <= i < vars.drop_last().len() implies (#[trigger] vars.drop_last()[i]).scope
            != scope by {
            assert(vars.drop_last()[i] == vars[i]);
        }
        lemma_scope_without_slots(vars.drop_last(), ident, scope);
    }
}

/// A scope has the same variables after slots of other scopes were added.
proof fn lemma_scope_ignores_others(
    vars: Seq<Binding>,
    more: Seq<Binding>,
    ident: Seq<char>,
    scope: nat,
)
    requires
        begins_with(more, vars),
        forall|i: int| vars.len() <= i < more.len() ==> (#[trigger] more[i]).scope != scope,
    ensures
        lookup_in_scope(more, ident, scope) == lookup_in_scope(vars, ident, scope),
    decreases more.len(),
{
    if more.len() > vars.len() {
        assert(more.last() == more[more.len() - 1]);
        let shorter = more.drop_last();
        assert forall|i: int| 0 <= i < vars.len() implies #[trigger] shorter[i] == vars[i] by {
            assert(shorter[i] == more[i]);
        }
        assert forall|i: int| vars.len() <= i < shorter.len() implies (#[trigger] shorter[i]).scope
            != scope by {
            assert(shorter[i] == more[i]);
        }
        lemma_scope_ignores_others(vars, shorter, ident, scope);
    } else {
        assert(more =~= vars);
    }
}

/// The open scopes have the same variables after slots of scopes above
/// `floor` were added, if they are all numbered below it.
proof fn lemma_lookup_ignores_others(
    vars: Seq<Binding>,
    more: Seq<Binding>,
    scopes: Seq<nat>,
    ident: Seq<char>,
    floor: nat,
)
    requires
        begins_with(more, vars),
        forall|i: int| vars.len() <= i < more.len() ==> (#[trigger] more[i]).scope >= floor,
        forall|i: int| 0 <= i < scopes.len() ==> #[trigger] scopes[i] < floor,
    ensures
        lookup_in(more, scopes, ident) == lookup_in(vars, scopes, ident),
    decreases scopes.len(),
{
    if scopes.len() > 0 {
        assert(scopes.last() == scopes[scopes.len() - 1]);
        lemma_scope_ignores_others(vars, more, ident, scopes.last());
        assert forall|i: int| 0 <= i < scopes.drop_last().len() implies #[trigger] scopes.drop_last()[i]
            < floor by {
            assert(scopes.drop_last()[i] == scopes[i]);
        }
        lemma_lookup_ignores_others(vars, more, scopes.drop_last(), ident, floor);
    }
}

/// A block that has just been opened has no variable of its own: no slot
/// is found under its id.
pub proof fn lemma_new_scope_is_empty(st: State, ident: Seq<char>)
    requires
        st.wf(),
    ensures
        open_scope(st).scopes.last() == st.block_id + 1,
        lookup_in_scope(open_scope(st).vars, ident, st.block_id + 1) is None,
        open_scope(st).lookup(ident) == st.lookup(ident),
{
    lemma_scope_without_slots(st.vars, ident, st.block_id + 1);
    assert(open_scope(st).scopes.drop_last() =~= st.scopes);
}

/// What a block declares is out of scope behind it: the same names are in
/// scope after the block as before it, with the same slots.
pub proof fn lemma_closed_block_is_out_of_scope(st: State, b: Seq<StmtView>, ident: Seq<char>)
    requires
        st.wf(),
        lower_block(st, b) is Ok,
    ensures
        lower_block(st, b)->Ok_0.wf(),
        lower_block(st, b)->Ok_0.lookup(ident) == st.lookup(ident),
{
    let after = lower_block(st, b)->Ok_0;
    lemma_block_advances(st, b);
    lemma_block_binds_above(st, b, st.block_id + 1);
    lemma_lookup_ignores_others(st.vars, after.vars, st.scopes, ident, st.block_id + 1);
}

/// A block does not see what a block before it declared: a name that is
/// not in scope before the first block is undefined in the next one, and
/// the reference to it stops the compilation before any line is written.
pub proof fn lemma_sibling_block_is_out_of_scope(st: State, first: Seq<StmtView>, ident: Seq<char>)
    requires
        st.wf(),
        lower_block(st, first) is Ok,
        st.lookup(ident) is None,
        lower_block(st, first)->Ok_0.block_id < usize::MAX,
    ensures
        ({
            let between = lower_block(st, first)->Ok_0;
            let next = seq![StmtView::Return(ExprView::Variable(ident))];
            lower_block(between, next) == open_scope(between).fail(
                Failure::UndefinedVariable(ident),
            )
        }),
{
    let between = lower_block(st, first)->Ok_0;
    lemma_closed_block_is_out_of_scope(st, first, ident);
    lemma_new_scope_is_empty(between, ident);
}

} // verus!
