//! What the packaging rules yield, and how the working set is made from it,
//! rule by rule.

use vstd::prelude::*;
use vstd::string::StrSliceExecFns;
use crate::name_map::name_views;
use crate::name_set::NameSet;
use crate::packages::chars_of;
use crate::resource::PythonResourceAction;
use crate::text::split;
use crate::text::split_text;
use crate::working_set::is_supported;
use crate::working_set::StructuralError;
use crate::working_set::WorkingSet;
use crate::working_set::WorkingSetView;

verus! {

/// A file that lists names, one to a line.
#[derive(Debug, Clone, PartialEq, Eq)]
pub struct NamesFile {
    /// Where the file was found.
    pub path: String,
    /// What it holds.
    pub content: String,
}

/// What one packaging rule has yielded.
#[derive(Debug, Clone, PartialEq, Eq)]
pub enum RuleOutcome {
    /// Steps to take, in their order.
    Resources { actions: Vec<PythonResourceAction> },
    /// Names to keep: those listed in `files`, and those listed in the
    /// files that each pattern of the rule has matched.
    FilterInclude { files: Vec<NamesFile>, glob_files: Vec<Vec<NamesFile>> },
    /// The directory into which licence files are written.
    WriteLicenseFiles { path: String },
}

/// Why no set of resources came out.
#[derive(Debug, Clone, Copy, PartialEq, Eq)]
pub enum ResolveError {
    /// More than one rule names a directory for licence files.
    DuplicateLicenseFiles,
    /// The files that a pattern has matched list no name at all.
    EmptyGlob,
    /// A rule has asked for a step that the working set has no place for.
    UnsupportedStep(StructuralError),
    /// There are not as many compiled modules as were asked for.
    BytecodeCount,
}

/// The line that stands at place `j` of the pieces of a text: a piece before
/// the last has ended in a line feed, and loses a carriage return before it.
pub open spec fn line_of(pieces: Seq<Seq<char>>, j: int) -> Seq<char> {
    let piece = pieces[j];
    if j + 1 < pieces.len() && piece.len() > 0 && piece.last() == '\r' {
        piece.drop_last()
    } else {
        piece
    }
}

/// A line that gives a name: it is not empty and is no comment.
pub open spec fn is_name_line(line: Seq<char>) -> bool {
    line.len() > 0 && line[0] != '#'
}

/// The names that the first `count` lines give.
pub open spec fn names_of_lines(pieces: Seq<Seq<char>>, count: int) -> Set<Seq<char>> {
    Set::new(
        |name: Seq<char>|
            exists|j: int|
                0 <= j < count && #[trigger] line_of(pieces, j) == name && is_name_line(name),
    )
}

/// The names that a text lists, one to a line.
pub open spec fn resource_names(content: Seq<char>) -> Set<Seq<char>> {
    names_of_lines(split(content, '\n'), split(content, '\n').len() as int)
}

/// The names that the files list.
pub open spec fn names_of_files(files: Seq<NamesFile>) -> Set<Seq<char>>
    decreases files.len(),
{
    if files.len() == 0 {
        Set::empty()
    } else {
        names_of_files(files.drop_last()).union(resource_names(files.last().content@))
    }
}

/// The paths of the files.
pub open spec fn file_paths(files: Seq<NamesFile>) -> Seq<Seq<char>> {
    Seq::new(files.len(), |i: int| files[i].path@)
}

/// The names that the files of all the patterns list.
pub open spec fn names_of_globs(globs: Seq<Vec<NamesFile>>) -> Set<Seq<char>>
    decreases globs.len(),
{
    if globs.len() == 0 {
        Set::empty()
    } else {
        names_of_globs(globs.drop_last()).union(names_of_files(globs.last()@))
    }
}

/// The paths of the files of all the patterns, pattern by pattern.
pub open spec fn glob_paths(globs: Seq<Vec<NamesFile>>) -> Seq<Seq<char>>
    decreases globs.len(),
{
    if globs.len() == 0 {
        Seq::empty()
    } else {
        glob_paths(globs.drop_last()) + file_paths(globs.last()@)
    }
}

/// Whether the files of some pattern list no name.
pub open spec fn has_empty_glob(globs: Seq<Vec<NamesFile>>) -> bool {
    exists|j: int|
        0 <= j < globs.len() && #[trigger] names_of_files(globs[j]@) == Set::<Seq<char>>::empty()
}

/// The names to keep.
pub open spec fn include_names(files: Seq<NamesFile>, globs: Seq<Vec<NamesFile>>) -> Set<
    Seq<char>,
> {
    names_of_files(files).union(names_of_globs(globs))
}

/// The working set after the steps, or the first step that has no place.
pub open spec fn apply_actions(
    working_set: WorkingSetView,
    actions: Seq<PythonResourceAction>,
) -> Result<WorkingSetView, StructuralError>
    decreases actions.len(),
{
    if actions.len() == 0 {
        Ok(working_set)
    } else {
        match apply_actions(working_set, actions.drop_last()) {
            Err(e) => Err(e),
            Ok(before) => {
                let entry = actions.last();
                if is_supported(
                    entry.action,
                    entry.location.spec_kind(),
                    entry.resource.spec_kind(),
                ) {
                    Ok(before.apply(entry))
                } else {
                    Err(
                        StructuralError {
                            action: entry.action,
                            location: entry.location.spec_kind(),
                            resource: entry.resource.spec_kind(),
                        },
                    )
                }
            },
        }
    }
}

/// The working set after one rule.
pub open spec fn apply_rule(working_set: WorkingSetView, rule: RuleOutcome) -> Result<
    WorkingSetView,
    ResolveError,
> {
    match rule {
        RuleOutcome::Resources { actions } => match apply_actions(working_set, actions@) {
            Ok(after) => Ok(after),
            Err(e) => Err(ResolveError::UnsupportedStep(e)),
        },
        RuleOutcome::FilterInclude { files, glob_files } => if has_empty_glob(glob_files@) {
            Err(ResolveError::EmptyGlob)
        } else {
            Ok(
                WorkingSetView {
                    read_files: working_set.read_files + file_paths(files@) + glob_paths(
                        glob_files@,
                    ),
                    ..working_set.filter(include_names(files@, glob_files@))
                },
            )
        },
        RuleOutcome::WriteLicenseFiles { path } => Ok(
            WorkingSetView { license_files_path: Some(path@), ..working_set },
        ),
    }
}

/// The working set after the rules, in their order, or why the first rule
/// that fails does.
pub open spec fn apply_rules(working_set: WorkingSetView, rules: Seq<RuleOutcome>) -> Result<
    WorkingSetView,
    ResolveError,
>
    decreases rules.len(),
{
    if rules.len() == 0 {
        Ok(working_set)
    } else {
        match apply_rules(working_set, rules.drop_last()) {
            Err(e) => Err(e),
            Ok(before) => apply_rule(before, rules.last()),
        }
    }
}

/// How many of the rules name a directory for licence files.
pub open spec fn license_rule_count(rules: Seq<RuleOutcome>) -> nat
    decreases rules.len(),
{
    if rules.len() == 0 {
        0
    } else {
        license_rule_count(rules.drop_last()) + if rules.last() is WriteLicenseFiles {
            1nat
        } else {
            0nat
        }
    }
}

/// The working set that the rules make. Rules that name more than one
/// directory for licence files make none.
pub open spec fn reduced(rules: Seq<RuleOutcome>) -> Result<WorkingSetView, ResolveError> {
    if license_rule_count(rules) > 1 {
        Err(ResolveError::DuplicateLicenseFiles)
    } else {
        apply_rules(WorkingSetView::empty(), rules)
    }
}

/// The names that a text lists, one to a line. A line that is empty or
/// begins with `#` gives none.
pub fn parse_resource_names(content: &str) -> (names: NameSet)
    ensures
        names@ == resource_names(content@),
        names.well_formed(),
{
    let pieces = split_text(content, '\n');
    let ghost all = name_views(pieces@);
    let n = pieces.len();
    let mut names = NameSet::new();
    proof {
        assert(names@ =~= names_of_lines(all, 0));
    }
    let mut j: usize = 0;
    while j < n
        invariant
            j <= n,
            n == pieces@.len(),
            all == name_views(pieces@),
            names.well_formed(),
            names@ == names_of_lines(all, j as int),
        decreases n - j,
    {
        let piece = pieces[j].as_str();
        let chars = chars_of(piece);
        let length = chars.len();
        let ghost before = names@;
        assert(piece@ == all[j as int]);
        let line: String = if j + 1 < n && length > 0 && chars[length - 1] == '\r' {
            piece.substring_char(0, length - 1).to_owned()
        } else {
            piece.to_owned()
        };
        assert(line@ == line_of(all, j as int));
        if length > 0 && chars[0] != '#' && line.as_str().unicode_len() > 0 {
            names.insert(line);
        }
        proof {
            let line_here = line_of(all, j as int);
            assert forall|name: Seq<char>| #[trigger]
                names_of_lines(all, j as int + 1).contains(name) implies names@.contains(name) by {
                let k = choose|k: int|
                    0 <= k < j as int + 1 && #[trigger] line_of(all, k) == name && is_name_line(
                        name,
                    );
                if k < j {
                    assert(names_of_lines(all, j as int).contains(name));
                }
            }
            assert forall|name: Seq<char>| #[trigger] names@.contains(name) implies names_of_lines(
                all,
                j as int + 1,
            ).contains(name) by {
                if before.contains(name) {
                    let k = choose|k: int|
                        0 <= k < j as int && #[trigger] line_of(all, k) == name && is_name_line(
                            name,
                        );
                    assert(0 <= k < j as int + 1 && line_of(all, k) == name && is_name_line(name));
                } else {
                    assert(line_of(all, j as int) == name && is_name_line(name));
                }
            }
            assert(names@ =~= names_of_lines(all, j as int + 1));
        }
        j += 1;
    }
    names
}

/// Adds the names that the files list to `names`, and their paths to `read`.
fn add_file_names(names: &mut NameSet, read: &mut Vec<String>, files: &Vec<NamesFile>)
    ensures
        final(names)@ == old(names)@.union(names_of_files(files@)),
        final(names).well_formed(),
        name_views(final(read)@) == name_views(old(read)@) + file_paths(files@),
{
    let n = files.len();
    let mut i: usize = 0;
    proof {
        assert(files@.subrange(0, 0) =~= Seq::<NamesFile>::empty());
        assert(names@.union(names_of_files(files@.subrange(0, 0))) =~= names@);
        assert(name_views(read@) + file_paths(files@.subrange(0, 0)) =~= name_views(read@));
    }
    proof {
        use_type_invariant(&*names);
    }
    while i < n
        invariant
            i <= n,
            n == files@.len(),
            names.well_formed(),
            names@ == old(names)@.union(names_of_files(files@.subrange(0, i as int))),
            name_views(read@) == name_views(old(read)@) + file_paths(
                files@.subrange(0, i as int),
            ),
        decreases n - i,
    {
        let found = parse_resource_names(files[i].content.as_str());
        names.extend_from(&found);
        let ghost read_before = name_views(read@);
        let path = files[i].path.clone();
        assert(path@ == files@[i as int].path@);
        read.push(path);
        proof {
            assert(name_views(read@) =~= read_before.push(files@[i as int].path@));
            let longer = files@.subrange(0, i as int + 1);
            assert(longer.drop_last() =~= files@.subrange(0, i as int));
            assert(longer.last() == files@[i as int]);
            assert(names@ =~= old(names)@.union(names_of_files(longer)));
            assert(file_paths(longer) =~= file_paths(files@.subrange(0, i as int)).push(
                files@[i as int].path@,
            ));
            assert(name_views(read@) =~= name_views(old(read)@) + file_paths(longer));
        }
        i += 1;
    }
    proof {
        assert(files@.subrange(0, n as int) =~= files@);
    }
}

/// The names that a rule keeps, and the files that were read for them.
#[derive(Debug, PartialEq, Eq)]
pub struct IncludeNames {
    pub names: NameSet,
    pub read_files: Vec<String>,
}

/// Finds the names that a rule keeps. Where the files of a pattern list no
/// name, the rule is in error.
pub fn resolve_filter_include(files: &Vec<NamesFile>, glob_files: &Vec<Vec<NamesFile>>) -> (r:
    Result<IncludeNames, ResolveError>)
    ensures
        r is Err <==> has_empty_glob(glob_files@),
        r is Err ==> r->Err_0 == ResolveError::EmptyGlob,
        r is Ok ==> r->Ok_0.names@ == include_names(files@, glob_files@) && name_views(
            r->Ok_0.read_files@,
        ) == file_paths(files@) + glob_paths(glob_files@),
{
    let mut names = NameSet::new();
    let mut read_files: Vec<String> = Vec::new();
    add_file_names(&mut names, &mut read_files, files);
    let n = glob_files.len();
    let mut i: usize = 0;
    proof {
        assert(glob_files@.subrange(0, 0) =~= Seq::<Vec<NamesFile>>::empty());
        assert(names@ =~= include_names(files@, glob_files@.subrange(0, 0)));
        assert(name_views(read_files@) =~= file_paths(files@) + glob_paths(
            glob_files@.subrange(0, 0),
        ));
    }
    while i < n
        invariant
            i <= n,
            n == glob_files@.len(),
            names.well_formed(),
            names@ == include_names(files@, glob_files@.subrange(0, i as int)),
            name_views(read_files@) == file_paths(files@) + glob_paths(
                glob_files@.subrange(0, i as int),
            ),
            forall|j: int|
                0 <= j < i ==> #[trigger] names_of_files(glob_files@[j]@) != Set::<
                    Seq<char>,
                >::empty(),
        decreases n - i,
    {
        let mut found = NameSet::new();
        add_file_names(&mut found, &mut read_files, &glob_files[i]);
        proof {
            assert(found@ =~= names_of_files(glob_files@[i as int]@));
        }
        if found.is_empty() {
            return Err(ResolveError::EmptyGlob);
        }
        names.extend_from(&found);
        proof {
            let longer = glob_files@.subrange(0, i as int + 1);
            assert(longer.drop_last() =~= glob_files@.subrange(0, i as int));
            assert(longer.last() == glob_files@[i as int]);
            assert(names@ =~= include_names(files@, longer));
            assert(name_views(read_files@) =~= file_paths(files@) + glob_paths(longer));
        }
        i += 1;
    }
    proof {
        assert(glob_files@.subrange(0, n as int) =~= glob_files@);
    }
    Ok(IncludeNames { names, read_files })
}

/// An error in a part of the steps is the error of the whole.
pub proof fn lemma_apply_actions_error(
    working_set: WorkingSetView,
    actions: Seq<PythonResourceAction>,
    count: int,
)
    requires
        0 <= count <= actions.len(),
        apply_actions(working_set, actions.subrange(0, count)) is Err,
    ensures
        apply_actions(working_set, actions) == apply_actions(
            working_set,
            actions.subrange(0, count),
        ),
    decreases actions.len() - count,
{
    if count < actions.len() {
        let longer = actions.subrange(0, count + 1);
        assert(longer.drop_last() =~= actions.subrange(0, count));
        lemma_apply_actions_error(working_set, actions, count + 1);
    } else {
        assert(actions.subrange(0, count) =~= actions);
    }
}

/// An error in a part of the rules is the error of the whole.
pub proof fn lemma_apply_rules_error(
    working_set: WorkingSetView,
    rules: Seq<RuleOutcome>,
    count: int,
)
    requires
        0 <= count <= rules.len(),
        apply_rules(working_set, rules.subrange(0, count)) is Err,
    ensures
        apply_rules(working_set, rules) == apply_rules(working_set, rules.subrange(0, count)),
    decreases rules.len() - count,
{
    if count < rules.len() {
        let longer = rules.subrange(0, count + 1);
        assert(longer.drop_last() =~= rules.subrange(0, count));
        lemma_apply_rules_error(working_set, rules, count + 1);
    } else {
        assert(rules.subrange(0, count) =~= rules);
    }
}

impl WorkingSet {
    /// Takes the steps in their order, up to the first that has no place.
    pub fn apply_all(&mut self, actions: Vec<PythonResourceAction>) -> (r: Result<
        (),
        StructuralError,
    >)
        ensures
            r is Ok <==> apply_actions(old(self)@, actions@) is Ok,
            r is Ok ==> final(self)@ == apply_actions(old(self)@, actions@)->Ok_0,
            r is Err ==> r->Err_0 == apply_actions(old(self)@, actions@)->Err_0,
    {
        let ghost all = actions@;
        let ghost start = self@;
        proof {
            assert(all.subrange(0, 0) =~= Seq::<PythonResourceAction>::empty());
        }
        for entry in it: actions
            invariant
                it.seq() == all,
                all == actions@,
                start == old(self)@,
                apply_actions(start, all.subrange(0, it.index() as int)) == Ok::<
                    WorkingSetView,
                    StructuralError,
                >(self@),
        {
            let ghost i = it.index() as int;
            proof {
                let longer = all.subrange(0, i + 1);
                assert(longer.drop_last() =~= all.subrange(0, i));
                assert(longer.last() == entry);
            }
            match self.apply(entry) {
                Ok(()) => {},
                Err(e) => {
                    proof {
                        lemma_apply_actions_error(start, all, i + 1);
                    }
                    return Err(e);
                },
            }
        }
        proof {
            assert(all.subrange(0, all.len() as int) =~= all);
        }
        Ok(())
    }

    /// Takes what one rule has yielded.
    pub fn apply_rule(&mut self, rule: RuleOutcome) -> (r: Result<(), ResolveError>)
        ensures
            r is Ok <==> apply_rule(old(self)@, rule) is Ok,
            r is Ok ==> final(self)@ == apply_rule(old(self)@, rule)->Ok_0,
            r is Err ==> r->Err_0 == apply_rule(old(self)@, rule)->Err_0,
    {
        match rule {
            RuleOutcome::Resources { actions } => match self.apply_all(actions) {
                Ok(()) => Ok(()),
                Err(e) => Err(ResolveError::UnsupportedStep(e)),
            },
            RuleOutcome::FilterInclude { files, glob_files } => {
                match resolve_filter_include(&files, &glob_files) {
                    Err(e) => Err(e),
                    Ok(kept) => {
                        let IncludeNames { names, read_files } = kept;
                        let mut read_files = read_files;
                        self.filter(&names);
                        let ghost before = name_views(self.read_files@);
                        let ghost added = name_views(read_files@);
                        self.read_files.append(&mut read_files);
                        proof {
                            assert(name_views(self.read_files@) =~= before + added);
                            assert(before + (file_paths(files@) + glob_paths(glob_files@))
                                =~= before + file_paths(files@) + glob_paths(glob_files@));
                        }
                        Ok(())
                    },
                }
            },
            RuleOutcome::WriteLicenseFiles { path } => {
                self.license_files_path = Some(path);
                Ok(())
            },
        }
    }
}

/// Whether more than one of the rules names a directory for licence files.
fn has_duplicate_license_rules(rules: &Vec<RuleOutcome>) -> (b: bool)
    ensures
        b == (license_rule_count(rules@) > 1),
{
    let n = rules.len();
    let mut count: usize = 0;
    let mut i: usize = 0;
    proof {
        assert(rules@.subrange(0, 0) =~= Seq::<RuleOutcome>::empty());
    }
    while i < n
        invariant
            i <= n,
            n == rules@.len(),
            count <= i,
            count == license_rule_count(rules@.subrange(0, i as int)),
        decreases n - i,
    {
        proof {
            let longer = rules@.subrange(0, i as int + 1);
            assert(longer.drop_last() =~= rules@.subrange(0, i as int));
            assert(longer.last() == rules@[i as int]);
        }
        match &rules[i] {
            RuleOutcome::WriteLicenseFiles { .. } => {
                count += 1;
            },
            _ => {},
        }
        i += 1;
    }
    proof {
        assert(rules@.subrange(0, n as int) =~= rules@);
    }
    count > 1
}

/// Makes the working set from what the rules have yielded, in their order.
pub fn reduce_rules(rules: Vec<RuleOutcome>) -> (r: Result<WorkingSet, ResolveError>)
    ensures
        r is Ok <==> reduced(rules@) is Ok,
        r is Ok ==> r->Ok_0@ == reduced(rules@)->Ok_0,
        r is Err ==> r->Err_0 == reduced(rules@)->Err_0,
{
    if has_duplicate_license_rules(&rules) {
        return Err(ResolveError::DuplicateLicenseFiles);
    }
    let ghost all = rules@;
    let mut working_set = WorkingSet::new();
    proof {
        assert(all.subrange(0, 0) =~= Seq::<RuleOutcome>::empty());
    }
    for rule in it: rules
        invariant
            it.seq() == all,
            all == rules@,
            license_rule_count(all) <= 1,
            apply_rules(WorkingSetView::empty(), all.subrange(0, it.index() as int)) == Ok::<
                WorkingSetView,
                ResolveError,
            >(working_set@),
    {
        let ghost i = it.index() as int;
        proof {
            let longer = all.subrange(0, i + 1);
            assert(longer.drop_last() =~= all.subrange(0, i));
            assert(longer.last() == rule);
        }
        match working_set.apply_rule(rule) {
            Ok(()) => {},
            Err(e) => {
                proof {
                    lemma_apply_rules_error(WorkingSetView::empty(), all, i + 1);
                }
                return Err(e);
            },
        }
    }
    proof {
        assert(all.subrange(0, all.len() as int) =~= all);
    }
    Ok(working_set)
}

} // verus!
