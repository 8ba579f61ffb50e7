//! Compilation of a program from its parsed source files.

use vstd::prelude::*;
use crate::compiler::Compiler;
use crate::error::{follows, CompileError};
use crate::instr::{texts, views};
use crate::lowering::program::{
    import_path, imported_paths, lower_file, lower_item, lower_items, lower_program, source_from,
};
use crate::parser::program::{file_views, item_view, item_views, ProgramFile, ProgramItem};
use crate::parser::stmt::string_views;

verus! {

/// The position of the first source that has the path `path`.
fn find_source(sources: &Vec<ProgramFile>, path: &String) -> (r: Option<usize>)
    ensures
        match r {
            Some(i) => i < sources@.len() && source_from(file_views(sources@), path@, 0) == Some(
                file_views(sources@)[i as int],
            ),
            None => source_from(file_views(sources@), path@, 0) is None,
        },
{
    let mut i: usize = 0;
    while i < sources.len()
        invariant
            i <= sources.len(),
            source_from(file_views(sources@), path@, 0) == source_from(
                file_views(sources@),
                path@,
                i as nat,
            ),
        decreases sources.len() - i,
    {
        if sources[i].file_path == *path {
            return Some(i);
        }
        i += 1;
    }
    None
}

/// The paths of the files that `file` imports, in the order of its items.
/// These are the sources that a compilation of `file` looks for.
pub fn imports_of(file: &ProgramFile) -> (r: Vec<String>)
    ensures
        string_views(r@) == imported_paths(item_views(file.items@)),
{
    let mut paths: Vec<String> = Vec::new();
    let mut i: usize = 0;
    let ghost items = item_views(file.items@);
    assert(items.take(0) =~= Seq::empty());
    assert(string_views(paths@) =~= Seq::empty());
    while i < file.items.len()
        invariant
            i <= file.items@.len(),
            items == item_views(file.items@),
            string_views(paths@) == imported_paths(items.take(i as int)),
        decreases file.items@.len() - i,
    {
        let ghost before = paths@;
        proof {
            let part = items.take(i + 1);
            assert(part.last() == item_view(file.items@[i as int]));
            assert(part.drop_last() =~= items.take(i as int));
        }
        match &file.items[i] {
            ProgramItem::Import(next_path, _) => {
                let mut new_path = next_path.clone();
                new_path.append(".nmt");
                paths.push(new_path);
                assert(string_views(paths@) =~= string_views(before).push(import_path(next_path@)));
            },
            _ => {},
        }
        i += 1;
    }
    assert(items.take(i as int) =~= items);
    paths
}

/// Whether `list` holds `ident`.
fn contains_name(list: &Vec<String>, ident: &String) -> (r: bool)
    ensures
        r == string_views(list@).contains(ident@),
{
    let mut i: usize = 0;
    while i < list.len()
        invariant
            i <= list.len(),
            forall|j: int| 0 <= j < i ==> string_views(list@)[j] != ident@,
        decreases list.len() - i,
    {
        if list[i] == *ident {
            assert(string_views(list@)[i as int] == ident@);
            return true;
        }
        i += 1;
    }
    false
}

/// The names that an export list stands for.
spec fn export_names(exports: Option<&Vec<String>>) -> Option<Seq<Seq<char>>> {
    match exports {
        None => None,
        Some(list) => Some(string_views(list@)),
    }
}

impl Compiler {
    /// Compiles one item of a file.
    fn load_item(
        &mut self,
        sources: &Vec<ProgramFile>,
        item: &ProgramItem,
        exports: Option<&Vec<String>>,
        depth: usize,
    ) -> (r: Result<(), CompileError>)
        requires
            old(self).wf(),
        ensures
            final(self).wf(),
            follows(
                r,
                final(self)@,
                lower_item(
                    old(self)@,
                    file_views(sources@),
                    item_view(*item),
                    export_names(exports),
                    depth as nat,
                ),
            ),
        decreases depth, 0nat,
    {
        match item {
            ProgramItem::StaticVar(_) => Err(CompileError::StaticVariable),
            ProgramItem::Func(f) => {
                let wanted = match exports {
                    None => true,
                    Some(list) => contains_name(list, &f.ident),
                };
                if wanted {
                    self.register(f.ident.clone(), f.ret_type.is_some());
                    self.function(f)
                } else {
                    Ok(())
                }
            },
            ProgramItem::Import(next_path, idents) => {
                if depth == 0 {
                    return Err(CompileError::ImportDepth);
                }
                let mut new_path = next_path.clone();
                new_path.append(".nmt");
                self.load_file(sources, &new_path, Some(idents), depth - 1)
            },
        }
    }

    /// Compiles the items of one file.
    fn load_items(
        &mut self,
        sources: &Vec<ProgramFile>,
        items: &Vec<ProgramItem>,
        exports: Option<&Vec<String>>,
        depth: usize,
    ) -> (r: Result<(), CompileError>)
        requires
            old(self).wf(),
        ensures
            final(self).wf(),
            follows(
                r,
                final(self)@,
                lower_items(
                    old(self)@,
                    file_views(sources@),
                    item_views(items@),
                    0,
                    export_names(exports),
                    depth as nat,
                ),
            ),
        decreases depth, 1nat,
    {
        let mut i: usize = 0;
        while i < items.len()
            invariant
                i <= items.len(),
                self.wf(),
                lower_items(
                    old(self)@,
                    file_views(sources@),
                    item_views(items@),
                    0,
                    export_names(exports),
                    depth as nat,
                ) == lower_items(
                    self@,
                    file_views(sources@),
                    item_views(items@),
                    i as nat,
                    export_names(exports),
                    depth as nat,
                ),
            decreases items.len() - i,
        {
            match self.load_item(sources, &items[i], exports, depth) {
                Err(e) => {
                    return Err(e);
                },
                Ok(()) => {},
            }
            i += 1;
        }
        Ok(())
    }

    /// Compiles the file at `path`.
    fn load_file(
        &mut self,
        sources: &Vec<ProgramFile>,
        path: &String,
        exports: Option<&Vec<String>>,
        depth: usize,
    ) -> (r: Result<(), CompileError>)
        requires
            old(self).wf(),
        ensures
            final(self).wf(),
            follows(
                r,
                final(self)@,
                lower_file(
                    old(self)@,
                    file_views(sources@),
                    path@,
                    export_names(exports),
                    depth as nat,
                ),
            ),
        decreases depth, 2nat,
    {
        match find_source(sources, path) {
            None => Err(CompileError::UnknownSource(path.clone())),
            Some(i) => self.load_items(sources, &sources[i].items, exports, depth),
        }
    }

    /// Compiles the functions named in `exports` of the file at `path`,
    /// and what that file imports, with imports nested at most `depth`
    /// deep. Returns the text of the two buffers.
    pub fn compile_lib(
        &mut self,
        path: String,
        exports: Vec<String>,
        sources: &Vec<ProgramFile>,
        depth: usize,
    ) -> (r: Result<(Vec<String>, Vec<String>), CompileError>)
        requires
            old(self).wf(),
        ensures
            final(self).wf(),
            match lower_file(
                old(self)@,
                file_views(sources@),
                path@,
                Some(string_views(exports@)),
                depth as nat,
            ) {
                Ok(s) => r matches Ok((code, data)) && final(self)@ == s && views(code@) == texts(
                    s.code,
                ) && views(data@) == s.data,
                Err(stop) => r matches Err(e) && e@ == stop.failure && final(self)@ == stop.state,
            },
    {
        match self.load_file(sources, &path, Some(&exports), depth) {
            Err(e) => Err(e),
            Ok(()) => Ok(self.output()),
        }
    }

    /// Compiles the program whose root file is at `path`, with every file
    /// that it imports, from the parsed `sources`. Returns the text of the
    /// two buffers.
    pub fn compile(&mut self, path: String, sources: &Vec<ProgramFile>) -> (r: Result<
        (Vec<String>, Vec<String>),
        CompileError,
    >)
        requires
            old(self).wf(),
        ensures
            final(self).wf(),
            match lower_program(old(self)@, file_views(sources@), path@) {
                Ok(s) => r matches Ok((code, data)) && final(self)@ == s && views(code@) == texts(
                    s.code,
                ) && views(data@) == s.data,
                Err(stop) => r matches Err(e) && e@ == stop.failure && final(self)@ == stop.state,
            },
            r is Ok ==> final(self)@.scopes.len() == 0,
    {
        match self.load_file(sources, &path, None, sources.len()) {
            Err(e) => Err(e),
            Ok(()) => {
                if self.in_scope() {
                    Err(CompileError::ScopeNotCleared)
                } else {
                    Ok(self.output())
                }
            },
        }
    }
}

} // verus!
