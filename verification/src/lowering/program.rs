//! Programs: the items of a source file in order, imports followed as they
//! come.

use vstd::prelude::*;
use crate::lowering::function::lower_function;
use crate::parser::function::FunctionView;
use crate::parser::program::{FileView, ItemView};
use crate::state::{Failure, Signature, State, Stopped};

verus! {

/// The file that an import of `path` reads.
pub open spec fn import_path(path: Seq<char>) -> Seq<char> {
    path + ".nmt"@
}

/// The first of the sources from `i` on that has the path `path`.
pub open spec fn source_from(sources: Seq<FileView>, path: Seq<char>, i: nat) -> Option<FileView>
    decreases sources.len() - i,
{
    if i >= sources.len() {
        None
    } else if sources[i as int].file_path == path {
        Some(sources[i as int])
    } else {
        source_from(sources, path, i + 1)
    }
}

/// The files that the imports among `items` read, in order.
pub open spec fn imported_paths(items: Seq<ItemView>) -> Seq<Seq<char>>
    decreases items.len(),
{
    if items.len() == 0 {
        Seq::empty()
    } else {
        match items.last() {
            ItemView::Import(path, _) => imported_paths(items.drop_last()).push(import_path(path)),
            _ => imported_paths(items.drop_last()),
        }
    }
}

/// Whether a file's function `ident` is compiled: each one of the root
/// file, and of an imported file those that the import names.
pub open spec fn is_exported(exports: Option<Seq<Seq<char>>>, ident: Seq<char>) -> bool {
    match exports {
        None => true,
        Some(list) => list.contains(ident),
    }
}

/// The state after a function was entered in the function table. A later
/// entry of the same name takes the place of an earlier one.
pub open spec fn register(st: State, f: FunctionView) -> State {
    State {
        funcs: st.funcs.push(Signature { ident: f.ident, has_return: f.ret_type is Some }),
        ..st
    }
}

/// One item of a file: a function is entered in the function table and
/// lowered, if the file's functions are asked for or this one is; an import
/// is followed; a variable is refused. `depth` is the number of imports
/// that may still be nested in one another.
pub open spec fn lower_item(
    st: State,
    sources: Seq<FileView>,
    item: ItemView,
    exports: Option<Seq<Seq<char>>>,
    depth: nat,
) -> Result<State, Stopped>
    decreases depth, 0nat, 0nat,
{
    match item {
        ItemView::StaticVar(_) => st.fail(Failure::StaticVariable),
        ItemView::Func(f) => if is_exported(exports, f.ident) {
            lower_function(register(st, f), f)
        } else {
            Ok(st)
        },
        ItemView::Import(path, list) => if depth == 0 {
            st.fail(Failure::ImportDepth)
        } else {
            lower_file(st, sources, import_path(path), Some(list), (depth - 1) as nat)
        },
    }
}

/// The items of a file from `i` on.
pub open spec fn lower_items(
    st: State,
    sources: Seq<FileView>,
    items: Seq<ItemView>,
    i: nat,
    exports: Option<Seq<Seq<char>>>,
    depth: nat,
) -> Result<State, Stopped>
    decreases depth, 1nat, items.len() - i,
{
    if i >= items.len() {
        Ok(st)
    } else {
        match lower_item(st, sources, items[i as int], exports, depth) {
            Err(f) => Err(f),
            Ok(s) => lower_items(s, sources, items, i + 1, exports, depth),
        }
    }
}

/// The file at `path`, which must be among the sources.
pub open spec fn lower_file(
    st: State,
    sources: Seq<FileView>,
    path: Seq<char>,
    exports: Option<Seq<Seq<char>>>,
    depth: nat,
) -> Result<State, Stopped>
    decreases depth, 2nat, 0nat,
{
    match source_from(sources, path, 0) {
        None => st.fail(Failure::UnknownSource(path)),
        Some(file) => lower_items(st, sources, file.items, 0, exports, depth),
    }
}

/// A whole program, from its root file. Imports may be nested as deeply as
/// there are sources, which an import graph without a cycle never exceeds.
pub open spec fn lower_program(st: State, sources: Seq<FileView>, path: Seq<char>) -> Result<
    State,
    Stopped,
> {
    match lower_file(st, sources, path, None, sources.len()) {
        Err(f) => Err(f),
        Ok(s) => if s.scopes.len() > 0 {
            s.fail(Failure::ScopeNotCleared)
        } else {
            Ok(s)
        },
    }
}

} // verus!
