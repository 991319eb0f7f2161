//! Where the resources that go beside the binary are written.

use vstd::prelude::*;
use vstd::string::StringExecFns;
use crate::materialize::copy_bytes;
use crate::name_map::name_views;
use crate::name_map::sorted_names;
use crate::name_map::NameMap;
use crate::resource::AppRelativeResources;
use crate::resource::AppRelativeView;
use crate::resource::PackagedModuleBytecode;
use crate::resource::PackagedModuleBytecodeView;
use crate::resource::PackagedModuleSource;
use crate::resource::PackagedModuleSourceView;
use crate::resource::ResourceTree;
use crate::text::split;
use crate::text::split_text;

verus! {

/// The path of the source file of a module, below the directory that it is
/// installed in: for a module `a.b.c` it is `a/b/c.py`, for a package `a.b`
/// it is `a/b/__init__.py`.
pub open spec fn source_path(name: Seq<char>, is_package: bool) -> Seq<Seq<char>> {
    let parts = split(name, '.');
    if is_package {
        parts.push("__init__.py"@)
    } else {
        parts.drop_last().push(parts.last() + ".py"@)
    }
}

/// The path of the bytecode file of a module, below the directory that it
/// is installed in: for a module `a.b.c` it is `a/b/__pycache__/c.TAG.pyc`,
/// for a package `a.b` it is `a/b/__pycache__/__init__.TAG.pyc`, where
/// `TAG` names the interpreter.
pub open spec fn bytecode_path(name: Seq<char>, is_package: bool, tag: Seq<char>) -> Seq<
    Seq<char>,
> {
    let parts = split(name, '.');
    if is_package {
        parts.push("__pycache__"@).push("__init__."@ + tag + ".pyc"@)
    } else {
        parts.drop_last().push("__pycache__"@).push(parts.last() + "."@ + tag + ".pyc"@)
    }
}

/// The path of a data file of a package, below the directory that it is
/// installed in: for a file `leaf` of a package `a.b` it is `a/b/leaf`.
pub open spec fn resource_path(package: Seq<char>, leaf: Seq<char>) -> Seq<Seq<char>> {
    split(package, '.').push(leaf)
}

/// The path of the source file of a module.
pub fn source_install_path(name: &str, is_package: bool) -> (path: Vec<String>)
    ensures
        name_views(path@) == source_path(name@, is_package),
{
    let mut path = split_text(name, '.');
    let ghost parts = name_views(path@);
    if is_package {
        path.push(String::from_str("__init__.py"));
        proof {
            assert(name_views(path@) =~= parts.push("__init__.py"@));
        }
    } else {
        let last = path.pop();
        let mut file = match last {
            Some(file) => file,
            None => String::new(),
        };
        file.append(".py");
        path.push(file);
        proof {
            assert(name_views(path@) =~= parts.drop_last().push(parts.last() + ".py"@));
        }
    }
    path
}

/// The path of the bytecode file of a module.
pub fn bytecode_install_path(name: &str, is_package: bool, tag: &str) -> (path: Vec<String>)
    ensures
        name_views(path@) == bytecode_path(name@, is_package, tag@),
{
    let mut path = split_text(name, '.');
    let ghost parts = name_views(path@);
    let mut file = if is_package {
        String::from_str("__init__")
    } else {
        match path.pop() {
            Some(file) => file,
            None => String::new(),
        }
    };
    let ghost stem = file@;
    let ghost directories = name_views(path@);
    proof {
        if is_package {
            assert(directories =~= parts);
        } else {
            assert(directories =~= parts.drop_last());
            assert(stem == parts.last());
        }
    }
    file.append(".");
    file.append(tag);
    file.append(".pyc");
    path.push(String::from_str("__pycache__"));
    path.push(file);
    proof {
        reveal_strlit("__init__");
        reveal_strlit("__init__.");
        reveal_strlit(".");
        assert("__init__"@ + "."@ =~= "__init__."@);
        assert(name_views(path@) =~= directories.push("__pycache__"@).push(
            stem + "."@ + tag@ + ".pyc"@,
        ));
        if is_package {
            assert(stem + "."@ + tag@ + ".pyc"@ =~= "__init__."@ + tag@ + ".pyc"@);
        }
    }
    path
}

/// The path of a data file of a package.
pub fn resource_install_path(package: &str, leaf: &str) -> (path: Vec<String>)
    ensures
        name_views(path@) == resource_path(package@, leaf@),
{
    let mut path = split_text(package, '.');
    let ghost parts = name_views(path@);
    path.push(String::from_str(leaf));
    proof {
        assert(name_views(path@) =~= parts.push(leaf@));
    }
    path
}

/// What a file that is written holds.
#[derive(Debug, Clone, Copy, PartialEq, Eq)]
pub enum InstallKind {
    /// The source of a module.
    ModuleSource,
    /// The bytecode of a module.
    ModuleBytecode,
    /// A data file of a package.
    Resource,
    /// The text of a licence.
    License,
}

/// A file to write.
#[derive(Debug, Clone, PartialEq, Eq)]
pub struct InstallFile {
    /// What the file holds.
    pub kind: InstallKind,
    /// The path of the file, directory by directory, below the directory
    /// that is installed into.
    pub path: Vec<String>,
    /// What the file holds.
    pub data: Vec<u8>,
}

/// What an `InstallFile` holds.
pub struct InstallFileView {
    pub kind: InstallKind,
    pub path: Seq<Seq<char>>,
    pub data: Seq<u8>,
}

impl View for InstallFile {
    type V = InstallFileView;

    open spec fn view(&self) -> InstallFileView {
        InstallFileView { kind: self.kind, path: name_views(self.path@), data: self.data@ }
    }
}

/// What a sequence of files holds.
pub open spec fn file_views(files: Seq<InstallFile>) -> Seq<InstallFileView> {
    Seq::new(files.len(), |i: int| files[i]@)
}

/// The source files to write: one for each module, in the order of names.
pub open spec fn source_files(sources: Map<Seq<char>, PackagedModuleSourceView>) -> Seq<
    InstallFileView,
> {
    let names = sorted_names(sources.dom());
    Seq::new(
        names.len(),
        |i: int|
            InstallFileView {
                kind: InstallKind::ModuleSource,
                path: source_path(names[i], sources[names[i]].is_package),
                data: sources[names[i]].source,
            },
    )
}

/// The bytecode files to write: one for each module, in the order of names.
pub open spec fn bytecode_files(
    bytecodes: Map<Seq<char>, PackagedModuleBytecodeView>,
    tag: Seq<char>,
) -> Seq<InstallFileView> {
    let names = sorted_names(bytecodes.dom());
    Seq::new(
        names.len(),
        |i: int|
            InstallFileView {
                kind: InstallKind::ModuleBytecode,
                path: bytecode_path(names[i], bytecodes[names[i]].is_package, tag),
                data: bytecodes[names[i]].bytecode,
            },
    )
}

/// The data files of one package to write, in the order of their names.
pub open spec fn package_files(package: Seq<char>, files: Map<Seq<char>, Seq<u8>>) -> Seq<
    InstallFileView,
> {
    let names = sorted_names(files.dom());
    Seq::new(
        names.len(),
        |i: int|
            InstallFileView {
                kind: InstallKind::Resource,
                path: resource_path(package, names[i]),
                data: files[names[i]],
            },
    )
}

/// The data files of the packages to write, package by package.
pub open spec fn resource_files(resources: ResourceTree, packages: Seq<Seq<char>>) -> Seq<
    InstallFileView,
>
    decreases packages.len(),
{
    if packages.len() == 0 {
        Seq::empty()
    } else {
        resource_files(resources, packages.drop_last()) + package_files(
            packages.last(),
            resources[packages.last()],
        )
    }
}

/// The files to write for one directory beside the binary: the sources,
/// then the bytecode, then the data files package by package, each in the
/// order of names.
pub open spec fn install_files(directory: AppRelativeView, tag: Seq<char>) -> Seq<InstallFileView> {
    source_files(directory.module_sources) + bytecode_files(directory.module_bytecodes, tag)
        + resource_files(directory.resources, sorted_names(directory.resources.dom()))
}

/// Adds the source files to write.
fn add_source_files(files: &mut Vec<InstallFile>, sources: &NameMap<PackagedModuleSource>)
    ensures
        file_views(final(files)@) == file_views(old(files)@) + source_files(sources@),
{
    let n = sources.len();
    let ghost names = sources.names();
    let ghost before = file_views(files@);
    proof {
        sources.lemma_names();
    }
    let mut i: usize = 0;
    while i < n
        invariant
            i <= n,
            n == names.len(),
            names == sources.names(),
            names == sorted_names(sources@.dom()),
            sources.items().len() == n,
            sources.well_formed(),
            file_views(files@) == before + source_files(sources@).subrange(0, i as int),
        decreases n - i,
    {
        let name = sources.name_at(i);
        let module = sources.item_at(i);
        let ghost so_far = file_views(files@);
        files.push(
            InstallFile {
                kind: InstallKind::ModuleSource,
                path: source_install_path(name.as_str(), module.is_package),
                data: copy_bytes(&module.source),
            },
        );
        proof {
            let all = source_files(sources@);
            assert(all.len() == n);
            assert(files@.last()@ == all[i as int]);
            assert(file_views(files@) =~= so_far.push(all[i as int]));
            assert(all.subrange(0, i as int + 1) =~= all.subrange(0, i as int).push(all[i as int]));
            assert(file_views(files@) =~= before + source_files(sources@).subrange(
                0,
                i as int + 1,
            ));
        }
        i += 1;
    }
    proof {
        assert(source_files(sources@).subrange(0, n as int) =~= source_files(sources@));
    }
}

/// Adds the bytecode files to write.
fn add_bytecode_files(
    files: &mut Vec<InstallFile>,
    bytecodes: &NameMap<PackagedModuleBytecode>,
    tag: &str,
)
    ensures
        file_views(final(files)@) == file_views(old(files)@) + bytecode_files(bytecodes@, tag@),
{
    let n = bytecodes.len();
    let ghost names = bytecodes.names();
    let ghost before = file_views(files@);
    proof {
        bytecodes.lemma_names();
    }
    let mut i: usize = 0;
    while i < n
        invariant
            i <= n,
            n == names.len(),
            names == bytecodes.names(),
            names == sorted_names(bytecodes@.dom()),
            bytecodes.items().len() == n,
            bytecodes.well_formed(),
            file_views(files@) == before + bytecode_files(bytecodes@, tag@).subrange(0, i as int),
        decreases n - i,
    {
        let name = bytecodes.name_at(i);
        let module = bytecodes.item_at(i);
        let ghost so_far = file_views(files@);
        files.push(
            InstallFile {
                kind: InstallKind::ModuleBytecode,
                path: bytecode_install_path(name.as_str(), module.is_package, tag),
                data: copy_bytes(&module.bytecode),
            },
        );
        proof {
            let all = bytecode_files(bytecodes@, tag@);
            assert(all.len() == n);
            assert(files@.last()@ == all[i as int]);
            assert(file_views(files@) =~= so_far.push(all[i as int]));
            assert(all.subrange(0, i as int + 1) =~= all.subrange(0, i as int).push(all[i as int]));
            assert(file_views(files@) =~= before + bytecode_files(bytecodes@, tag@).subrange(
                0,
                i as int + 1,
            ));
        }
        i += 1;
    }
    proof {
        assert(bytecode_files(bytecodes@, tag@).subrange(0, n as int) =~= bytecode_files(
            bytecodes@,
            tag@,
        ));
    }
}

/// Adds the data files of one package to write.
fn add_package_files(files: &mut Vec<InstallFile>, package: &str, entries: &NameMap<Vec<u8>>)
    ensures
        file_views(final(files)@) == file_views(old(files)@) + package_files(package@, entries@),
{
    let n = entries.len();
    let ghost names = entries.names();
    let ghost before = file_views(files@);
    proof {
        entries.lemma_names();
    }
    let mut i: usize = 0;
    while i < n
        invariant
            i <= n,
            n == names.len(),
            names == entries.names(),
            names == sorted_names(entries@.dom()),
            entries.items().len() == n,
            entries.well_formed(),
            file_views(files@) == before + package_files(package@, entries@).subrange(
                0,
                i as int,
            ),
        decreases n - i,
    {
        let name = entries.name_at(i);
        let data = entries.item_at(i);
        let ghost so_far = file_views(files@);
        files.push(
            InstallFile {
                kind: InstallKind::Resource,
                path: resource_install_path(package, name.as_str()),
                data: copy_bytes(data),
            },
        );
        proof {
            let all = package_files(package@, entries@);
            assert(all.len() == n);
            assert(files@.last()@ == all[i as int]);
            assert(file_views(files@) =~= so_far.push(all[i as int]));
            assert(all.subrange(0, i as int + 1) =~= all.subrange(0, i as int).push(all[i as int]));
            assert(file_views(files@) =~= before + package_files(package@, entries@).subrange(
                0,
                i as int + 1,
            ));
        }
        i += 1;
    }
    proof {
        assert(package_files(package@, entries@).subrange(0, n as int) =~= package_files(
            package@,
            entries@,
        ));
    }
}

/// Adds the data files of all packages to write.
fn add_resource_files(files: &mut Vec<InstallFile>, resources: &NameMap<NameMap<Vec<u8>>>)
    ensures
        file_views(final(files)@) == file_views(old(files)@) + resource_files(
            resources@,
            sorted_names(resources@.dom()),
        ),
{
    let n = resources.len();
    let ghost packages = resources.names();
    let ghost before = file_views(files@);
    proof {
        resources.lemma_names();
        assert(packages.subrange(0, 0) =~= Seq::<Seq<char>>::empty());
        assert(file_views(files@) =~= before + resource_files(
            resources@,
            packages.subrange(0, 0),
        ));
    }
    let mut i: usize = 0;
    while i < n
        invariant
            i <= n,
            n == packages.len(),
            packages == resources.names(),
            packages == sorted_names(resources@.dom()),
            resources.items().len() == n,
            resources.well_formed(),
            file_views(files@) == before + resource_files(
                resources@,
                packages.subrange(0, i as int),
            ),
        decreases n - i,
    {
        proof {
            resources.lemma_names();
            let longer = packages.subrange(0, i as int + 1);
            assert(longer.drop_last() =~= packages.subrange(0, i as int));
            assert(longer.last() == packages[i as int]);
        }
        let package = resources.name_at(i);
        let entries = resources.item_at(i);
        add_package_files(files, package.as_str(), entries);
        proof {
            assert(file_views(files@) =~= before + resource_files(
                resources@,
                packages.subrange(0, i as int + 1),
            ));
        }
        i += 1;
    }
    proof {
        assert(packages.subrange(0, n as int) =~= packages);
    }
}

/// The files to write for one directory beside the binary, each with its
/// path below that directory.
pub fn plan_install(directory: &AppRelativeResources, tag: &str) -> (files: Vec<InstallFile>)
    ensures
        file_views(files@) == install_files(directory@, tag@),
{
    let mut files: Vec<InstallFile> = Vec::new();
    proof {
        assert(file_views(files@) =~= Seq::<InstallFileView>::empty());
    }
    add_source_files(&mut files, &directory.module_sources);
    add_bytecode_files(&mut files, &directory.module_bytecodes, tag);
    add_resource_files(&mut files, &directory.resources);
    proof {
        assert(file_views(files@) =~= install_files(directory@, tag@));
    }
    files
}

} // verus!
