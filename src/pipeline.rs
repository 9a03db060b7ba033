//! The whole run: check the registry, select the files, rewrite each of them.
use vstd::prelude::*;
use crate::engine::{PatchView, TargetedPatch, ends_with, has_extension, patch_file, patch_file_spec, table_view};
use crate::manifest::{
    FileLocation, FileView, SelectError, SourceFile, SourceManifestEntry, select, select_spec,
    tree_view,
};
use crate::patches::{RouterTarget, global_rules, global_rules_spec, patch_table, patch_table_spec};
use crate::registry::{PluginEntry, RegistryError, ids_unique, validate_registry};
use crate::rules::{PatchError, Rule, RuleFailure, RuleView, rules_view};

verus! {

/// Why a run stopped.
#[derive(Clone, Debug, PartialEq, Eq)]
pub enum PipelineError {
    /// Two plugins of one category share an identifier.
    AmbiguousRegistry { category: String, id: String },
    /// The manifest asks for a source file that upstream lacks.
    MissingImplementation { directory: String, file_name: String },
    /// A rule could not be applied.
    Rewrite(PatchError),
}

/// Why a run stops, as values.
pub enum RunFailure {
    AmbiguousRegistry,
    MissingImplementation(Seq<char>, Seq<char>),
    Rewrite(RuleFailure),
}

/// What a run makes of an upstream snapshot: a registry with a repeated identifier
/// stops it; otherwise the manifest's selection, with each file patched by the global
/// rules and the targeted table of the registry and the router targets, whose rules must
/// match where `require_match` is set.
pub open spec fn run_spec(
    manifest: Seq<SourceManifestEntry>,
    registry: Seq<PluginEntry>,
    targets: Seq<RouterTarget>,
    upstream: Seq<FileView>,
    require_match: bool,
) -> Result<Seq<FileView>, RunFailure> {
    if !ids_unique(registry) {
        Err(RunFailure::AmbiguousRegistry)
    } else {
        match select_spec(manifest, upstream) {
            Err((d, n)) => Err(RunFailure::MissingImplementation(d, n)),
            Ok(w) => match patch_tree_spec(
                w,
                global_rules_spec(),
                patch_table_spec(registry, targets),
                require_match,
            ) {
                Ok(out) => Ok(out),
                Err(f) => Err(RunFailure::Rewrite(f)),
            },
        }
    }
}

/// Each file of `tree` rewritten where it stands, or the first pattern that failed.
pub open spec fn patch_tree_spec(
    tree: Seq<FileView>,
    global: Seq<RuleView>,
    table: Seq<PatchView>,
    require_match: bool,
) -> Result<Seq<FileView>, RuleFailure>
    decreases tree.len(),
{
    if tree.len() == 0 {
        Ok(Seq::empty())
    } else {
        match patch_tree_spec(tree.drop_last(), global, table, require_match) {
            Ok(w) => {
                let f = tree.last();
                match patch_file_spec(f.file_name, f.content, global, table, require_match) {
                    Ok(c) => Ok(
                        w.push(FileView { directory: f.directory, file_name: f.file_name, content: c }),
                    ),
                    Err(e) => Err(e),
                }
            },
            Err(e) => Err(e),
        }
    }
}

proof fn lemma_patch_tree_failure_persists(
    tree: Seq<FileView>,
    k: int,
    global: Seq<RuleView>,
    table: Seq<PatchView>,
    require_match: bool,
    f: RuleFailure,
)
    requires
        0 <= k <= tree.len(),
        patch_tree_spec(tree.subrange(0, k), global, table, require_match) == Err::<
            Seq<FileView>,
            RuleFailure,
        >(f),
    ensures
        patch_tree_spec(tree, global, table, require_match) == Err::<Seq<FileView>, RuleFailure>(f),
    decreases tree.len() - k,
{
    if k < tree.len() {
        assert(tree.subrange(0, k + 1).drop_last() =~= tree.subrange(0, k));
        lemma_patch_tree_failure_persists(tree, k + 1, global, table, require_match, f);
    } else {
        assert(tree.subrange(0, k) =~= tree);
    }
}

/// Rewrites each file of `tree` in place, in tree order; where `require_match` is set,
/// every targeted rule must match in the file it is applied to.
pub fn patch_tree(
    tree: Vec<SourceFile>,
    global: &Vec<Rule>,
    table: &Vec<TargetedPatch>,
    require_match: bool,
) -> (r: Result<Vec<SourceFile>, PatchError>)
    ensures
        match r {
            Ok(w) => patch_tree_spec(tree_view(tree@), rules_view(global@), table_view(table@), require_match)
                == Ok::<Seq<FileView>, RuleFailure>(tree_view(w@)),
            Err(e) => patch_tree_spec(tree_view(tree@), rules_view(global@), table_view(table@), require_match)
                == Err::<Seq<FileView>, RuleFailure>(e@),
        },
{
    let ghost g = rules_view(global@);
    let ghost t = table_view(table@);
    let ghost input = tree_view(tree@);
    let mut out: Vec<SourceFile> = Vec::new();
    let mut i: usize = 0;
    assert(tree_view(out@) =~= Seq::<FileView>::empty());
    while i < tree.len()
        invariant
            i <= tree.len(),
            g == rules_view(global@),
            t == table_view(table@),
            input == tree_view(tree@),
            patch_tree_spec(input.subrange(0, i as int), g, t, require_match) == Ok::<
                Seq<FileView>,
                RuleFailure,
            >(tree_view(out@)),
        decreases tree.len() - i,
    {
        let f = &tree[i];
        assert(input.subrange(0, i + 1).drop_last() =~= input.subrange(0, i as int));
        assert(input.subrange(0, i + 1).last() == f@);
        match patch_file(f.file_name.as_str(), f.content.as_str(), global, table, require_match) {
            Ok(c) => {
                let ghost before = out@;
                out.push(
                    SourceFile {
                        directory: f.directory.clone(),
                        file_name: f.file_name.clone(),
                        content: c,
                    },
                );
                assert(out@ == before.push(out@.last()));
                assert(tree_view(out@) =~= tree_view(before).push(out@.last()@));
            },
            Err(e) => {
                proof {
                    lemma_patch_tree_failure_persists(input, i + 1, g, t, require_match, e@);
                }
                return Err(e);
            },
        }
        i += 1;
    }
    assert(input.subrange(0, i as int) =~= input);
    Ok(out)
}

/// Runs the whole rewrite on an upstream snapshot: the registry is checked first, then
/// the manifest's files are selected, then each selected file receives the global rules
/// and the targeted table built from the registry and the router targets. The result
/// depends on these inputs alone; nothing of an earlier run enters it. Where
/// `require_match` is set, a targeted rule that finds nothing stops the run.
pub fn run(
    manifest: &Vec<SourceManifestEntry>,
    registry: &Vec<PluginEntry>,
    targets: &Vec<RouterTarget>,
    upstream: &Vec<SourceFile>,
    require_match: bool,
) -> (r: Result<Vec<SourceFile>, PipelineError>)
    ensures
        match r {
            Ok(out) => run_spec(manifest@, registry@, targets@, tree_view(upstream@), require_match) == Ok::<
                Seq<FileView>,
                RunFailure,
            >(tree_view(out@)),
            Err(PipelineError::AmbiguousRegistry { .. }) => run_spec(
                manifest@,
                registry@,
                targets@,
                tree_view(upstream@),
                require_match,
            ) == Err::<Seq<FileView>, RunFailure>(RunFailure::AmbiguousRegistry),
            Err(PipelineError::MissingImplementation { directory, file_name }) => run_spec(
                manifest@,
                registry@,
                targets@,
                tree_view(upstream@),
                require_match,
            ) == Err::<Seq<FileView>, RunFailure>(
                RunFailure::MissingImplementation(directory@, file_name@),
            ),
            Err(PipelineError::Rewrite(e)) => run_spec(
                manifest@,
                registry@,
                targets@,
                tree_view(upstream@),
                require_match,
            ) == Err::<Seq<FileView>, RunFailure>(RunFailure::Rewrite(e@)),
        },
{
    match validate_registry(registry) {
        Err(RegistryError::DuplicateId { category, id }) => {
            return Err(PipelineError::AmbiguousRegistry { category, id });
        },
        Ok(()) => {},
    }
    let selected = match select(manifest, upstream) {
        Ok(w) => w,
        Err(SelectError::MissingImplementation { directory, file_name }) => {
            return Err(PipelineError::MissingImplementation { directory, file_name });
        },
    };
    let global = global_rules();
    let table = patch_table(registry, targets);
    match patch_tree(selected, &global, &table, require_match) {
        Ok(w) => Ok(w),
        Err(e) => Err(PipelineError::Rewrite(e)),
    }
}

/// Patching works file by file: each rewritten file keeps its place, and its text is
/// what the rules make of that file's own name and text, whatever the other files hold.
/// So a run from a clean state, repeated on the same input, writes the same tree.
pub proof fn lemma_patching_per_file(
    tree: Seq<FileView>,
    global: Seq<RuleView>,
    table: Seq<PatchView>,
    require_match: bool,
)
    ensures
        patch_tree_spec(tree, global, table, require_match) matches Ok(out) ==> {
            &&& out.len() == tree.len()
            &&& forall|k: int|
                0 <= k < tree.len() ==> (#[trigger] out[k]).directory == tree[k].directory
                    && out[k].file_name == tree[k].file_name && patch_file_spec(
                    tree[k].file_name,
                    tree[k].content,
                    global,
                    table,
                    require_match,
                ) == Ok::<Seq<char>, RuleFailure>(out[k].content)
        },
    decreases tree.len(),
{
    if tree.len() > 0 {
        let prev = tree.drop_last();
        lemma_patching_per_file(prev, global, table, require_match);
        if let Ok(out) = patch_tree_spec(tree, global, table, require_match) {
            let w = patch_tree_spec(prev, global, table, require_match)->Ok_0;
            assert forall|k: int| 0 <= k < tree.len() implies (#[trigger] out[k]).directory
                == tree[k].directory && out[k].file_name == tree[k].file_name && patch_file_spec(
                tree[k].file_name,
                tree[k].content,
                global,
                table,
                require_match,
            ) == Ok::<Seq<char>, RuleFailure>(out[k].content) by {
                if k < prev.len() {
                    assert(out[k] == w[k]);
                    assert(tree[k] == prev[k]);
                }
            }
        }
    }
}

/// The sources of a tree, in tree order: the files that go to the compiler.
pub open spec fn sources_of(tree: Seq<FileView>) -> Seq<FileView>
    decreases tree.len(),
{
    if tree.len() == 0 {
        Seq::empty()
    } else if has_extension(tree.last().file_name, "cpp"@) {
        sources_of(tree.drop_last()).push(tree.last())
    } else {
        sources_of(tree.drop_last())
    }
}

/// Where the sources of `tree` stand, in tree order.
pub fn compile_units(tree: &Vec<SourceFile>) -> (r: Vec<FileLocation>)
    ensures
        r@.len() == sources_of(tree_view(tree@)).len(),
        forall|k: int|
            0 <= k < r@.len() ==> (#[trigger] r@[k]).directory@ == sources_of(tree_view(tree@))[k].directory
                && r@[k].file_name@ == sources_of(tree_view(tree@))[k].file_name,
{
    let ghost input = tree_view(tree@);
    let mut r: Vec<FileLocation> = Vec::new();
    let mut i: usize = 0;
    while i < tree.len()
        invariant
            i <= tree.len(),
            input == tree_view(tree@),
            r@.len() == sources_of(input.subrange(0, i as int)).len(),
            forall|k: int|
                0 <= k < r@.len() ==> (#[trigger] r@[k]).directory@ == sources_of(
                    input.subrange(0, i as int),
                )[k].directory && r@[k].file_name@ == sources_of(input.subrange(0, i as int))[k].file_name,
        decreases tree.len() - i,
    {
        let f = &tree[i];
        assert(input.subrange(0, i + 1).drop_last() =~= input.subrange(0, i as int));
        assert(input.subrange(0, i + 1).last() == f@);
        proof {
            reveal_strlit(".cpp");
            reveal_strlit("cpp");
            assert(seq!['.'] + "cpp"@ =~= ".cpp"@);
        }
        if ends_with(f.file_name.as_str(), ".cpp") && f.file_name.as_str().unicode_len() > 4 {
            r.push(FileLocation { directory: f.directory.clone(), file_name: f.file_name.clone() });
        }
        i += 1;
    }
    assert(input.subrange(0, i as int) =~= input);
    r
}

} // verus!
