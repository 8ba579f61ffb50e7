//! Source files and their top-level items.

use vstd::prelude::*;
use crate::parser::function::{function_view, Function, FunctionView};
use crate::parser::stmt::{declare_view, string_views, DeclareView, VariableDeclare};

verus! {

/// A top-level item of a source file.
#[derive(Debug, PartialEq)]
pub enum ProgramItem {
    Func(Function),
    StaticVar(VariableDeclare),
    /// The path of another source file, without its suffix, and the names
    /// of the functions taken from it.
    Import(String, Vec<String>),
}

/// A parsed source file.
#[derive(Debug, PartialEq)]
pub struct ProgramFile {
    pub shebang: String,
    pub file_path: String,
    pub items: Vec<ProgramItem>,
}

/// A top-level item as specifications see it.
pub enum ItemView {
    Func(FunctionView),
    StaticVar(DeclareView),
    Import(Seq<char>, Seq<Seq<char>>),
}

/// The view of a top-level item.
pub open spec fn item_view(item: ProgramItem) -> ItemView {
    match item {
        ProgramItem::Func(f) => ItemView::Func(function_view(f)),
        ProgramItem::StaticVar(v) => ItemView::StaticVar(declare_view(v)),
        ProgramItem::Import(path, list) => ItemView::Import(path@, string_views(list@)),
    }
}

/// The views of the items of a file.
pub open spec fn item_views(items: Seq<ProgramItem>) -> Seq<ItemView> {
    Seq::new(items.len(), |i: int| item_view(items[i]))
}

/// A parsed source file as specifications see it.
pub struct FileView {
    pub shebang: Seq<char>,
    pub file_path: Seq<char>,
    pub items: Seq<ItemView>,
}

/// The view of a parsed source file.
pub open spec fn file_view(file: ProgramFile) -> FileView {
    FileView {
        shebang: file.shebang@,
        file_path: file.file_path@,
        items: item_views(file.items@),
    }
}

/// The views of a list of parsed source files.
pub open spec fn file_views(files: Seq<ProgramFile>) -> Seq<FileView> {
    Seq::new(files.len(), |i: int| file_view(files[i]))
}

} // verus!
