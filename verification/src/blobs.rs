//! The packed data that goes into the binary: the modules, the data files
//! of packages, and the list of module names.
//!
//! A packed file begins with a count, as four bytes, the lowest first. An
//! index follows: for each entry its lengths, each as four such bytes. Then
//! come the names of all entries, then what the entries hold, each part for
//! all entries in turn. Entries stand in the order of their names, so that
//! the same resources always give the same bytes.
//!
//! The index declares where each entry stands by its lengths: a part of an
//! entry begins where the parts of the entries before it end, so its offset
//! is the sum of the lengths that the index gives before it. A reader adds
//! the lengths up as it walks the index, and the writer has nothing to keep
//! in step. `lemma_parts_are_found` states that each part is found at that
//! offset.

use vstd::prelude::*;
use vstd::string::StringSliceAdditionalSpecFns;
use vstd::utf8::encode_utf8;
use crate::name_map::sorted_names;
use crate::name_map::NameMap;
use crate::name_set::NameSet;
use crate::packages::key_set;
use crate::resolve::EmbeddedPythonResources;
use crate::resolve::EmbeddedView;
use crate::resource::PackagedModuleBytecode;
use crate::resource::PackagedModuleBytecodeView;
use crate::resource::PackagedModuleSource;
use crate::resource::PackagedModuleSourceView;
use crate::resource::ResourceTree;

verus! {

/// A number as four bytes, the lowest first.
pub open spec fn u32_le(n: int) -> Seq<u8> {
    seq![
        (n % 256) as u8,
        ((n / 256) % 256) as u8,
        ((n / 65536) % 256) as u8,
        ((n / 16777216) % 256) as u8,
    ]
}

/// What one entry adds to each part of a packed file.
pub struct BlobEntry {
    pub index: Seq<u8>,
    pub name: Seq<u8>,
    pub first: Seq<u8>,
    pub second: Seq<u8>,
}

/// The parts of a packed file, as far as they are written.
#[derive(Debug, PartialEq, Eq)]
pub struct BlobParts {
    pub index: Vec<u8>,
    pub names: Vec<u8>,
    pub first: Vec<u8>,
    pub second: Vec<u8>,
}

/// What a `BlobParts` holds.
pub struct BlobPartsView {
    pub index: Seq<u8>,
    pub names: Seq<u8>,
    pub first: Seq<u8>,
    pub second: Seq<u8>,
}

impl View for BlobParts {
    type V = BlobPartsView;

    open spec fn view(&self) -> BlobPartsView {
        BlobPartsView {
            index: self.index@,
            names: self.names@,
            first: self.first@,
            second: self.second@,
        }
    }
}

impl BlobPartsView {
    /// These parts, each put behind the part of `before`.
    pub open spec fn joined_after(self, before: BlobPartsView) -> BlobPartsView {
        BlobPartsView {
            index: before.index + self.index,
            names: before.names + self.names,
            first: before.first + self.first,
            second: before.second + self.second,
        }
    }

    /// The parts with one entry more.
    pub open spec fn with(self, entry: BlobEntry) -> BlobPartsView {
        BlobPartsView {
            index: self.index + entry.index,
            names: self.names + entry.name,
            first: self.first + entry.first,
            second: self.second + entry.second,
        }
    }
}

/// The parts that the entries make, taken in their order.
pub open spec fn parts_of(entries: Seq<BlobEntry>) -> BlobPartsView
    decreases entries.len(),
{
    if entries.len() == 0 {
        BlobPartsView {
            index: Seq::empty(),
            names: Seq::empty(),
            first: Seq::empty(),
            second: Seq::empty(),
        }
    } else {
        parts_of(entries.drop_last()).with(entries.last())
    }
}

/// The parts of two runs of entries, one after the other.
pub proof fn lemma_parts_of_concat(a: Seq<BlobEntry>, b: Seq<BlobEntry>)
    ensures
        parts_of(a + b).index == parts_of(a).index + parts_of(b).index,
        parts_of(a + b).names == parts_of(a).names + parts_of(b).names,
        parts_of(a + b).first == parts_of(a).first + parts_of(b).first,
        parts_of(a + b).second == parts_of(a).second + parts_of(b).second,
    decreases b.len(),
{
    if b.len() == 0 {
        assert(a + b =~= a);
        assert(parts_of(a).index + parts_of(b).index =~= parts_of(a).index);
        assert(parts_of(a).names + parts_of(b).names =~= parts_of(a).names);
        assert(parts_of(a).first + parts_of(b).first =~= parts_of(a).first);
        assert(parts_of(a).second + parts_of(b).second =~= parts_of(a).second);
    } else {
        assert((a + b).drop_last() =~= a + b.drop_last());
        assert((a + b).last() == b.last());
        lemma_parts_of_concat(a, b.drop_last());
        let p = parts_of(a);
        let q = parts_of(b.drop_last());
        let e = b.last();
        assert((p.index + q.index) + e.index =~= p.index + (q.index + e.index));
        assert((p.names + q.names) + e.name =~= p.names + (q.names + e.name));
        assert((p.first + q.first) + e.first =~= p.first + (q.first + e.first));
        assert((p.second + q.second) + e.second =~= p.second + (q.second + e.second));
    }
}

/// Where the parts of entry `i` begin, each among the parts of its kind:
/// behind the parts of the entries before it.
pub open spec fn offsets_of(entries: Seq<BlobEntry>, i: int) -> BlobPartsView {
    parts_of(entries.subrange(0, i))
}

/// The parts of one entry.
pub proof fn lemma_parts_of_one(entry: BlobEntry)
    ensures
        parts_of(seq![entry]).index == entry.index,
        parts_of(seq![entry]).names == entry.name,
        parts_of(seq![entry]).first == entry.first,
        parts_of(seq![entry]).second == entry.second,
{
    let own = seq![entry];
    let nothing = Seq::<BlobEntry>::empty();
    assert(own.drop_last() =~= nothing);
    assert(own.last() == entry);
    assert(parts_of(nothing).index =~= Seq::<u8>::empty());
    assert(parts_of(nothing).names =~= Seq::<u8>::empty());
    assert(parts_of(nothing).first =~= Seq::<u8>::empty());
    assert(parts_of(nothing).second =~= Seq::<u8>::empty());
    assert(parts_of(own) == parts_of(nothing).with(entry));
    assert(parts_of(own).index =~= entry.index);
    assert(parts_of(own).names =~= entry.name);
    assert(parts_of(own).first =~= entry.first);
    assert(parts_of(own).second =~= entry.second);
}

/// Each part of each entry stands at its offset: behind as many bytes as
/// the parts of the entries before it are long.
pub proof fn lemma_parts_are_found(entries: Seq<BlobEntry>, i: int)
    requires
        0 <= i < entries.len(),
    ensures
        ({
            let at = offsets_of(entries, i);
            let all = parts_of(entries);
            let entry = entries[i];
            &&& at.index.len() + entry.index.len() <= all.index.len()
            &&& at.names.len() + entry.name.len() <= all.names.len()
            &&& at.first.len() + entry.first.len() <= all.first.len()
            &&& at.second.len() + entry.second.len() <= all.second.len()
            &&& all.index.subrange(
                at.index.len() as int,
                (at.index.len() + entry.index.len()) as int,
            ) == entry.index
            &&& all.names.subrange(at.names.len() as int, (at.names.len() + entry.name.len()) as int)
                == entry.name
            &&& all.first.subrange(at.first.len() as int, (at.first.len() + entry.first.len()) as int)
                == entry.first
            &&& all.second.subrange(
                at.second.len() as int,
                (at.second.len() + entry.second.len()) as int,
            ) == entry.second
        }),
{
    let before = entries.subrange(0, i);
    let own = seq![entries[i]];
    let after = entries.subrange(i + 1, entries.len() as int);
    assert(entries =~= before + own + after);
    lemma_parts_of_one(entries[i]);
    lemma_parts_of_concat(before, own);
    lemma_parts_of_concat(before + own, after);
    let at = parts_of(before);
    let all = parts_of(entries);
    let entry = entries[i];
    assert(all.index =~= at.index + entry.index + parts_of(after).index);
    assert(all.names =~= at.names + entry.name + parts_of(after).names);
    assert(all.first =~= at.first + entry.first + parts_of(after).first);
    assert(all.second =~= at.second + entry.second + parts_of(after).second);
    assert(all.index.subrange(at.index.len() as int, (at.index.len() + entry.index.len()) as int)
        =~= entry.index);
    assert(all.names.subrange(at.names.len() as int, (at.names.len() + entry.name.len()) as int)
        =~= entry.name);
    assert(all.first.subrange(at.first.len() as int, (at.first.len() + entry.first.len()) as int)
        =~= entry.first);
    assert(all.second.subrange(at.second.len() as int, (at.second.len() + entry.second.len()) as int)
        =~= entry.second);
}

/// The packed file of a number of entries: the count, the index, the
/// names, then what the entries hold.
pub open spec fn blob_of(count: int, entries: Seq<BlobEntry>) -> Seq<u8> {
    let parts = parts_of(entries);
    u32_le(count) + parts.index + parts.names + parts.first + parts.second
}

/// The largest number that four bytes hold.
pub const MAX_LENGTH: usize = 0xffff_ffff;

/// The entry of a module: the lengths of its name, of its source and of
/// its bytecode, and a mark for a package; its name; its source; its
/// bytecode. A module without source, or without bytecode, has none of
/// length zero.
pub open spec fn module_entry(
    sources: Map<Seq<char>, PackagedModuleSourceView>,
    bytecodes: Map<Seq<char>, PackagedModuleBytecodeView>,
    name: Seq<char>,
) -> BlobEntry {
    let source = if sources.contains_key(name) {
        sources[name].source
    } else {
        Seq::empty()
    };
    let bytecode = if bytecodes.contains_key(name) {
        bytecodes[name].bytecode
    } else {
        Seq::empty()
    };
    let is_package = (sources.contains_key(name) && sources[name].is_package) || (
    bytecodes.contains_key(name) && bytecodes[name].is_package);
    BlobEntry {
        index: u32_le(encode_utf8(name).len() as int) + u32_le(source.len() as int) + u32_le(
            bytecode.len() as int,
        ) + u32_le(
            if is_package {
                1
            } else {
                0
            },
        ),
        name: encode_utf8(name),
        first: source,
        second: bytecode,
    }
}

/// The names of the modules that have source or bytecode, in their order.
pub open spec fn packed_module_names(
    sources: Map<Seq<char>, PackagedModuleSourceView>,
    bytecodes: Map<Seq<char>, PackagedModuleBytecodeView>,
) -> Seq<Seq<char>> {
    sorted_names(sources.dom().union(bytecodes.dom()))
}

/// The entries of the modules that have source or bytecode.
pub open spec fn module_entries(
    sources: Map<Seq<char>, PackagedModuleSourceView>,
    bytecodes: Map<Seq<char>, PackagedModuleBytecodeView>,
) -> Seq<BlobEntry> {
    let names = packed_module_names(sources, bytecodes);
    Seq::new(names.len(), |i: int| module_entry(sources, bytecodes, names[i]))
}

/// Whether every length of an entry can be written in four bytes.
pub open spec fn entry_fits(entry: BlobEntry) -> bool {
    entry.name.len() <= MAX_LENGTH && entry.first.len() <= MAX_LENGTH && entry.second.len()
        <= MAX_LENGTH
}

/// Whether the count and every length can be written in four bytes.
pub open spec fn entries_fit(count: int, entries: Seq<BlobEntry>) -> bool {
    count <= MAX_LENGTH && forall|i: int| 0 <= i < entries.len() ==> entry_fits(#[trigger] entries[i])
}

/// The packed file of the modules.
pub open spec fn modules_blob(
    sources: Map<Seq<char>, PackagedModuleSourceView>,
    bytecodes: Map<Seq<char>, PackagedModuleBytecodeView>,
) -> Seq<u8> {
    blob_of(module_entries(sources, bytecodes).len() as int, module_entries(sources, bytecodes))
}

/// The entry of a data file: the lengths of its name and of what it holds;
/// its name; what it holds.
pub open spec fn file_entry(name: Seq<char>, data: Seq<u8>) -> BlobEntry {
    BlobEntry {
        index: u32_le(encode_utf8(name).len() as int) + u32_le(data.len() as int),
        name: encode_utf8(name),
        first: data,
        second: Seq::empty(),
    }
}

/// The entry of a package: the length of its name and the number of its
/// data files; its name.
pub open spec fn package_entry(package: Seq<char>, count: int) -> BlobEntry {
    BlobEntry {
        index: u32_le(encode_utf8(package).len() as int) + u32_le(count),
        name: encode_utf8(package),
        first: Seq::empty(),
        second: Seq::empty(),
    }
}

/// The entries of the data files of one package, in the order of names.
pub open spec fn file_entries(files: Map<Seq<char>, Seq<u8>>) -> Seq<BlobEntry> {
    let names = sorted_names(files.dom());
    Seq::new(names.len(), |i: int| file_entry(names[i], files[names[i]]))
}

/// The entries of the packages and their data files: each package, then
/// its files.
pub open spec fn resource_entries(resources: ResourceTree, packages: Seq<Seq<char>>) -> Seq<
    BlobEntry,
>
    decreases packages.len(),
{
    if packages.len() == 0 {
        Seq::empty()
    } else {
        let package = packages.last();
        resource_entries(resources, packages.drop_last()) + seq![
            package_entry(package, file_entries(resources[package]).len() as int),
        ] + file_entries(resources[package])
    }
}

/// Whether the name of a package, the number of its data files and the
/// lengths of each of them can be written in four bytes.
pub open spec fn package_fits(package: Seq<char>, files: Map<Seq<char>, Seq<u8>>) -> bool {
    &&& encode_utf8(package).len() <= MAX_LENGTH
    &&& file_entries(files).len() <= MAX_LENGTH
    &&& forall|i: int|
        0 <= i < file_entries(files).len() ==> entry_fits(#[trigger] file_entries(files)[i])
}

/// All entries of the packed file of data files.
pub open spec fn all_resource_entries(resources: ResourceTree) -> Seq<BlobEntry> {
    resource_entries(resources, sorted_names(resources.dom()))
}

/// The packed file of the data files of packages.
pub open spec fn resources_blob(resources: ResourceTree) -> Seq<u8> {
    blob_of(sorted_names(resources.dom()).len() as int, all_resource_entries(resources))
}

/// Whether the packed file of data files can be written: the number of
/// packages and what is written of each has to go into four bytes.
pub open spec fn resources_fit(resources: ResourceTree) -> bool {
    &&& sorted_names(resources.dom()).len() <= MAX_LENGTH
    &&& forall|package: Seq<char>| #[trigger]
        resources.contains_key(package) ==> package_fits(package, resources[package])
}

/// The list of module names: each name, then a line feed.
pub open spec fn names_listing(names: Seq<Seq<char>>) -> Seq<u8>
    decreases names.len(),
{
    if names.len() == 0 {
        Seq::empty()
    } else {
        names_listing(names.drop_last()) + encode_utf8(names.last()) + seq![0x0au8]
    }
}

/// The three files that are written for the binary.
#[derive(Debug, Clone, PartialEq, Eq)]
pub struct Blobs {
    /// The names of all modules, one to a line.
    pub module_names: Vec<u8>,
    /// The packed modules.
    pub modules: Vec<u8>,
    /// The packed data files.
    pub resources: Vec<u8>,
}

/// What a `Blobs` holds.
pub struct BlobsView {
    pub module_names: Seq<u8>,
    pub modules: Seq<u8>,
    pub resources: Seq<u8>,
}

impl View for Blobs {
    type V = BlobsView;

    open spec fn view(&self) -> BlobsView {
        BlobsView {
            module_names: self.module_names@,
            modules: self.modules@,
            resources: self.resources@,
        }
    }
}

/// The three files for what goes into the binary.
pub open spec fn blobs_of(embedded: EmbeddedView) -> BlobsView {
    BlobsView {
        module_names: names_listing(sorted_names(embedded.all_modules)),
        modules: modules_blob(embedded.module_sources, embedded.module_bytecodes),
        resources: resources_blob(embedded.resources),
    }
}

/// Whether the files for what goes into the binary can be written: every
/// count and every length has to go into four bytes.
pub open spec fn blobs_fit(embedded: EmbeddedView) -> bool {
    let modules = module_entries(embedded.module_sources, embedded.module_bytecodes);
    entries_fit(modules.len() as int, modules) && resources_fit(embedded.resources)
}

/// The packed data is too large: a count or a length does not go into four
/// bytes.
#[derive(Debug, Clone, Copy, PartialEq, Eq)]
pub struct BlobTooLarge;

/// Appends bytes.
pub fn append_bytes(dest: &mut Vec<u8>, bytes: &[u8])
    ensures
        final(dest)@ == old(dest)@ + bytes@,
{
    let n = bytes.len();
    let mut i: usize = 0;
    proof {
        assert(bytes@.subrange(0, 0) =~= Seq::<u8>::empty());
        assert(dest@ =~= old(dest)@ + bytes@.subrange(0, 0));
    }
    while i < n
        invariant
            i <= n,
            n == bytes@.len(),
            dest@ == old(dest)@ + bytes@.subrange(0, i as int),
        decreases n - i,
    {
        dest.push(bytes[i]);
        proof {
            assert(dest@ =~= old(dest)@ + bytes@.subrange(0, i as int + 1));
        }
        i += 1;
    }
    proof {
        assert(bytes@.subrange(0, n as int) =~= bytes@);
    }
}

/// Appends a number as four bytes, the lowest first.
pub fn append_u32(dest: &mut Vec<u8>, n: usize)
    requires
        n <= MAX_LENGTH,
    ensures
        final(dest)@ == old(dest)@ + u32_le(n as int),
{
    dest.push((n % 256) as u8);
    dest.push(((n / 256) % 256) as u8);
    dest.push(((n / 65536) % 256) as u8);
    dest.push(((n / 16777216) % 256) as u8);
    proof {
        assert(dest@ =~= old(dest)@ + u32_le(n as int));
    }
}

impl BlobParts {
    /// Parts with nothing in them.
    pub fn new() -> (parts: Self)
        ensures
            parts@ == parts_of(Seq::<BlobEntry>::empty()),
    {
        BlobParts { index: Vec::new(), names: Vec::new(), first: Vec::new(), second: Vec::new() }
    }

    /// Puts the parts together behind the count.
    pub fn finish(self, count: usize) -> (blob: Vec<u8>)
        requires
            count <= MAX_LENGTH,
        ensures
            blob@ == u32_le(count as int) + self@.index + self@.names + self@.first + self@.second,
    {
        let mut blob: Vec<u8> = Vec::new();
        append_u32(&mut blob, count);
        append_bytes(&mut blob, self.index.as_slice());
        append_bytes(&mut blob, self.names.as_slice());
        append_bytes(&mut blob, self.first.as_slice());
        append_bytes(&mut blob, self.second.as_slice());
        proof {
            assert(blob@ =~= u32_le(count as int) + self@.index + self@.names + self@.first
                + self@.second);
        }
        blob
    }
}

/// Adds the entry of a module.
fn add_module_entry(
    parts: &mut BlobParts,
    sources: &NameMap<PackagedModuleSource>,
    bytecodes: &NameMap<PackagedModuleBytecode>,
    name: &String,
) -> (fits: bool)
    ensures
        fits == entry_fits(module_entry(sources@, bytecodes@, name@)),
        fits ==> final(parts)@ == old(parts)@.with(module_entry(sources@, bytecodes@, name@)),
{
    let empty: Vec<u8> = Vec::new();
    let source = sources.get(name.as_str());
    let bytecode = bytecodes.get(name.as_str());
    let name_bytes = name.as_str().as_bytes();
    let (source_bytes, source_package) = match source {
        Some(module) => (&module.source, module.is_package),
        None => (&empty, false),
    };
    let (bytecode_bytes, bytecode_package) = match bytecode {
        Some(module) => (&module.bytecode, module.is_package),
        None => (&empty, false),
    };
    if name_bytes.len() > MAX_LENGTH || source_bytes.len() > MAX_LENGTH || bytecode_bytes.len()
        > MAX_LENGTH {
        return false;
    }
    append_u32(&mut parts.index, name_bytes.len());
    append_u32(&mut parts.index, source_bytes.len());
    append_u32(&mut parts.index, bytecode_bytes.len());
    append_u32(
        &mut parts.index,
        if source_package || bytecode_package {
            1
        } else {
            0
        },
    );
    append_bytes(&mut parts.names, name_bytes);
    append_bytes(&mut parts.first, source_bytes.as_slice());
    append_bytes(&mut parts.second, bytecode_bytes.as_slice());
    proof {
        let entry = module_entry(sources@, bytecodes@, name@);
        assert(parts@.index =~= old(parts)@.index + entry.index);
    }
    true
}

/// The packed file of the modules, unless it is too large.
pub fn pack_modules(
    sources: &NameMap<PackagedModuleSource>,
    bytecodes: &NameMap<PackagedModuleBytecode>,
) -> (r: Result<Vec<u8>, BlobTooLarge>)
    ensures
        r is Ok <==> entries_fit(
            module_entries(sources@, bytecodes@).len() as int,
            module_entries(sources@, bytecodes@),
        ),
        r is Ok ==> r->Ok_0@ == modules_blob(sources@, bytecodes@),
{
    let mut names = key_set(sources);
    let with_bytecode = key_set(bytecodes);
    names.extend_from(&with_bytecode);
    let n = names.len();
    let ghost all = module_entries(sources@, bytecodes@);
    proof {
        names.lemma_names();
        assert(all.len() == n);
        assert(all.subrange(0, 0) =~= Seq::<BlobEntry>::empty());
    }
    if n > MAX_LENGTH {
        return Err(BlobTooLarge);
    }
    let mut parts = BlobParts::new();
    let mut i: usize = 0;
    while i < n
        invariant
            i <= n,
            n == names.names().len(),
            n <= MAX_LENGTH,
            names.well_formed(),
            names.names() == packed_module_names(sources@, bytecodes@),
            all == module_entries(sources@, bytecodes@),
            all.len() == n,
            parts@ == parts_of(all.subrange(0, i as int)),
            forall|j: int| 0 <= j < i ==> entry_fits(#[trigger] all[j]),
        decreases n - i,
    {
        proof {
            let longer = all.subrange(0, i as int + 1);
            assert(longer.drop_last() =~= all.subrange(0, i as int));
            assert(longer.last() == all[i as int]);
        }
        let fits = add_module_entry(&mut parts, sources, bytecodes, names.name_at(i));
        if !fits {
            return Err(BlobTooLarge);
        }
        i += 1;
    }
    proof {
        assert(all.subrange(0, n as int) =~= all);
    }
    Ok(parts.finish(n))
}

/// Adds the entries of the data files of one package.
fn add_file_entries(parts: &mut BlobParts, files: &NameMap<Vec<u8>>) -> (fits: bool)
    ensures
        fits == (forall|i: int|
            0 <= i < file_entries(files@).len() ==> entry_fits(#[trigger] file_entries(files@)[i])),
        fits ==> final(parts)@.index == old(parts)@.index + parts_of(file_entries(files@)).index,
        fits ==> final(parts)@.names == old(parts)@.names + parts_of(file_entries(files@)).names,
        fits ==> final(parts)@.first == old(parts)@.first + parts_of(file_entries(files@)).first,
        fits ==> final(parts)@.second == old(parts)@.second + parts_of(
            file_entries(files@),
        ).second,
{
    let n = files.len();
    let ghost all = file_entries(files@);
    let ghost before = parts@;
    proof {
        files.lemma_names();
        assert(all.subrange(0, 0) =~= Seq::<BlobEntry>::empty());
        assert(before.index + parts_of(all.subrange(0, 0)).index =~= before.index);
        assert(before.names + parts_of(all.subrange(0, 0)).names =~= before.names);
        assert(before.first + parts_of(all.subrange(0, 0)).first =~= before.first);
        assert(before.second + parts_of(all.subrange(0, 0)).second =~= before.second);
    }
    let mut i: usize = 0;
    while i < n
        invariant
            i <= n,
            n == files.names().len(),
            files.items().len() == n,
            files.well_formed(),
            files.names() == sorted_names(files@.dom()),
            all == file_entries(files@),
            all.len() == n,
            parts@.index == before.index + parts_of(all.subrange(0, i as int)).index,
            parts@.names == before.names + parts_of(all.subrange(0, i as int)).names,
            parts@.first == before.first + parts_of(all.subrange(0, i as int)).first,
            parts@.second == before.second + parts_of(all.subrange(0, i as int)).second,
            forall|j: int| 0 <= j < i ==> entry_fits(#[trigger] all[j]),
        decreases n - i,
    {
        proof {
            files.lemma_names();
            let longer = all.subrange(0, i as int + 1);
            assert(longer.drop_last() =~= all.subrange(0, i as int));
            assert(longer.last() == all[i as int]);
        }
        let name_bytes = files.name_at(i).as_str().as_bytes();
        let data = files.item_at(i);
        if name_bytes.len() > MAX_LENGTH || data.len() > MAX_LENGTH {
            return false;
        }
        append_u32(&mut parts.index, name_bytes.len());
        append_u32(&mut parts.index, data.len());
        append_bytes(&mut parts.names, name_bytes);
        append_bytes(&mut parts.first, data.as_slice());
        proof {
            let entry = all[i as int];
            let done = parts_of(all.subrange(0, i as int));
            assert(parts@.index =~= before.index + (done.index + entry.index));
            assert(parts@.names =~= before.names + (done.names + entry.name));
            assert(parts@.first =~= before.first + (done.first + entry.first));
            assert(parts@.second =~= before.second + (done.second + entry.second));
        }
        i += 1;
    }
    proof {
        assert(all.subrange(0, n as int) =~= all);
    }
    true
}

/// Adds the entry of a package and the entries of its data files.
fn add_package_entries(parts: &mut BlobParts, package: &String, files: &NameMap<Vec<u8>>) -> (fits:
    bool)
    ensures
        fits == package_fits(package@, files@),
        fits ==> final(parts)@ == parts_of(
            seq![package_entry(package@, file_entries(files@).len() as int)] + file_entries(
                files@,
            ),
        ).joined_after(old(parts)@),
{
    let ghost before = parts@;
    let ghost header = package_entry(package@, file_entries(files@).len() as int);
    let package_bytes = package.as_str().as_bytes();
    let count = files.len();
    proof {
        files.lemma_names();
    }
    if package_bytes.len() > MAX_LENGTH || count > MAX_LENGTH {
        return false;
    }
    append_u32(&mut parts.index, package_bytes.len());
    append_u32(&mut parts.index, count);
    append_bytes(&mut parts.names, package_bytes);
    proof {
        assert(parts@.index =~= before.index + header.index);
        assert(parts@.names =~= before.names + header.name);
        assert(parts@.first =~= before.first + header.first);
        assert(parts@.second =~= before.second + header.second);
    }
    let fits = add_file_entries(parts, files);
    if !fits {
        return false;
    }
    proof {
        let own = seq![header];
        let nothing = Seq::<BlobEntry>::empty();
        assert(own.drop_last() =~= nothing);
        assert(own.last() == header);
        assert(parts_of(nothing).index =~= Seq::<u8>::empty());
        assert(parts_of(nothing).names =~= Seq::<u8>::empty());
        assert(parts_of(nothing).first =~= Seq::<u8>::empty());
        assert(parts_of(nothing).second =~= Seq::<u8>::empty());
        assert(parts_of(own) == parts_of(nothing).with(header));
        assert(parts_of(own).index =~= header.index);
        assert(parts_of(own).names =~= header.name);
        assert(parts_of(own).first =~= header.first);
        assert(parts_of(own).second =~= header.second);
        lemma_parts_of_concat(own, file_entries(files@));
        let whole = parts_of(own + file_entries(files@));
        let rest = parts_of(file_entries(files@));
        assert(parts@.index =~= before.index + (header.index + rest.index));
        assert(parts@.names =~= before.names + (header.name + rest.names));
        assert(parts@.first =~= before.first + (header.first + rest.first));
        assert(parts@.second =~= before.second + (header.second + rest.second));
    }
    true
}

/// The packed file of the data files of packages, unless it is too large.
pub fn pack_resources(resources: &NameMap<NameMap<Vec<u8>>>) -> (r: Result<Vec<u8>, BlobTooLarge>)
    ensures
        r is Ok <==> resources_fit(resources@),
        r is Ok ==> r->Ok_0@ == resources_blob(resources@),
{
    let n = resources.len();
    let ghost packages = resources.names();
    proof {
        resources.lemma_names();
        assert(packages.subrange(0, 0) =~= Seq::<Seq<char>>::empty());
    }
    if n > MAX_LENGTH {
        return Err(BlobTooLarge);
    }
    let mut parts = BlobParts::new();
    let mut i: usize = 0;
    while i < n
        invariant
            i <= n,
            n <= MAX_LENGTH,
            n == packages.len(),
            packages == resources.names(),
            packages == sorted_names(resources@.dom()),
            resources.items().len() == n,
            resources.well_formed(),
            parts@ == parts_of(resource_entries(resources@, packages.subrange(0, i as int))),
            forall|j: int|
                0 <= j < i ==> package_fits(#[trigger] packages[j], resources@[packages[j]]),
        decreases n - i,
    {
        let ghost shorter = packages.subrange(0, i as int);
        let ghost longer = packages.subrange(0, i as int + 1);
        let ghost done = resource_entries(resources@, shorter);
        let package = resources.name_at(i);
        let files = resources.item_at(i);
        let ghost own = seq![package_entry(package@, file_entries(files@).len() as int)]
            + file_entries(files@);
        proof {
            resources.lemma_names();
            assert(longer.drop_last() =~= shorter);
            assert(longer.last() == packages[i as int]);
            assert(resource_entries(resources@, longer) =~= done + own);
            lemma_parts_of_concat(done, own);
        }
        let fits = add_package_entries(&mut parts, package, files);
        if !fits {
            proof {
                assert(resources@.contains_key(packages[i as int]));
            }
            return Err(BlobTooLarge);
        }
        i += 1;
    }
    proof {
        assert(packages.subrange(0, n as int) =~= packages);
        assert forall|package: Seq<char>| #[trigger]
            resources@.contains_key(package) implies package_fits(package, resources@[package]) by {
            assert(packages.to_set().contains(package));
            let j = packages.index_of(package);
            assert(0 <= j < packages.len() && packages[j] == package);
        }
    }
    Ok(parts.finish(n))
}

/// The list of module names.
pub fn list_module_names(names: &NameSet) -> (listing: Vec<u8>)
    ensures
        listing@ == names_listing(sorted_names(names@)),
{
    let n = names.len();
    let ghost all = names.names();
    let mut listing: Vec<u8> = Vec::new();
    proof {
        names.lemma_names();
        assert(all.subrange(0, 0) =~= Seq::<Seq<char>>::empty());
    }
    let mut i: usize = 0;
    while i < n
        invariant
            i <= n,
            n == all.len(),
            all == names.names(),
            names.well_formed(),
            listing@ == names_listing(all.subrange(0, i as int)),
        decreases n - i,
    {
        proof {
            let longer = all.subrange(0, i as int + 1);
            assert(longer.drop_last() =~= all.subrange(0, i as int));
            assert(longer.last() == all[i as int]);
        }
        append_bytes(&mut listing, names.name_at(i).as_str().as_bytes());
        listing.push(0x0a);
        proof {
            assert(listing@ =~= names_listing(all.subrange(0, i as int)) + encode_utf8(
                all[i as int],
            ) + seq![0x0au8]);
        }
        i += 1;
    }
    proof {
        assert(all.subrange(0, n as int) =~= all);
    }
    listing
}

impl EmbeddedPythonResources {
    /// The three files that are written for the binary: the list of module
    /// names, the packed modules and the packed data files.
    pub fn write_blobs(&self) -> (r: Result<Blobs, BlobTooLarge>)
        ensures
            r is Ok <==> blobs_fit(self@),
            r is Ok ==> r->Ok_0@ == blobs_of(self@),
    {
        let modules = match pack_modules(&self.module_sources, &self.module_bytecodes) {
            Ok(modules) => modules,
            Err(e) => {
                return Err(e);
            },
        };
        let resources = match pack_resources(&self.resources) {
            Ok(resources) => resources,
            Err(e) => {
                return Err(e);
            },
        };
        let module_names = list_module_names(&self.all_modules);
        Ok(Blobs { module_names, modules, resources })
    }
}

} // verus!
