//! The plugin registry and the static routers generated from it.
use vstd::prelude::*;
use crate::rules::{Rule, RuleView};

verus! {

/// One plugin implementation that must stay reachable: its category, the file that
/// defines it, its class and the identifier it is looked up by.
#[derive(Clone, Debug, PartialEq, Eq)]
pub struct PluginEntry {
    pub category: String,
    pub source_file: String,
    pub class_name: String,
    pub id: String,
}

/// The generated text of one category's router.
#[derive(Clone, Debug, PartialEq, Eq)]
pub struct RouterCode {
    /// One factory declaration per plugin of the category.
    pub forward_decls: String,
    /// The `FindType` function that maps an identifier to a new instance.
    pub dispatch_fn: String,
}

/// Why a registry cannot be used.
#[derive(Clone, Debug, PartialEq, Eq)]
pub enum RegistryError {
    /// Two plugins of one category share an identifier.
    DuplicateId { category: String, id: String },
}

/// The entries of `registry` whose category is `category`, in registry order.
pub open spec fn in_category(registry: Seq<PluginEntry>, category: Seq<char>) -> Seq<PluginEntry>
    decreases registry.len(),
{
    if registry.len() == 0 {
        Seq::empty()
    } else {
        let rest = in_category(registry.drop_last(), category);
        if registry.last().category@ == category {
            rest.push(registry.last())
        } else {
            rest
        }
    }
}

/// Within each category, no two entries have the same identifier.
pub open spec fn ids_unique(registry: Seq<PluginEntry>) -> bool {
    forall|i: int, j: int|
        0 <= i < j < registry.len() && (#[trigger] registry[i]).category@ == (#[trigger] registry[j]).category@
            ==> registry[i].id@ != registry[j].id@
}

/// The declaration of the factory of `class_name`.
pub open spec fn declaration_text(category: Seq<char>, class_name: Seq<char>) -> Seq<char> {
    "OB"@ + category + "* new_"@ + class_name + "();"@
}

/// The branch of a router that answers `id` with a new `class_name`.
pub open spec fn branch_text(id: Seq<char>, class_name: Seq<char>) -> Seq<char> {
    "else if (!strcmp(ID, \""@ + id + "\")) { return new_"@ + class_name + "(); }"@
}

/// The factory declarations of `entries`, one per line.
pub open spec fn declarations(category: Seq<char>, entries: Seq<PluginEntry>) -> Seq<char>
    decreases entries.len(),
{
    if entries.len() == 0 {
        Seq::empty()
    } else if entries.len() == 1 {
        declaration_text(category, entries[0].class_name@)
    } else {
        declarations(category, entries.drop_last()) + "\n"@ + declaration_text(
            category,
            entries.last().class_name@,
        )
    }
}

/// The branches for `entries`, one per line, in order.
pub open spec fn branches(entries: Seq<PluginEntry>) -> Seq<char>
    decreases entries.len(),
{
    if entries.len() == 0 {
        Seq::empty()
    } else if entries.len() == 1 {
        branch_text(entries[0].id@, entries[0].class_name@)
    } else {
        branches(entries.drop_last()) + "\n"@ + branch_text(
            entries.last().id@,
            entries.last().class_name@,
        )
    }
}

/// The `FindType` function of a category around its branches: a null identifier gives
/// null, then each branch in turn, and an identifier that no branch takes gives null.
pub open spec fn find_type_text(category: Seq<char>, branch_lines: Seq<char>) -> Seq<char> {
    "OB"@ + category + "* OB"@ + category
        + "::FindType(const char* ID) {\n        if (!ID) { return nullptr; }\n        "@
        + branch_lines + "\n        else { return nullptr; }\n    }"@
}

/// The pattern of the line that opens the library's namespace, captured as `c`.
pub open spec fn namespace_pattern() -> Seq<char> {
    "(?P<c>namespace OpenBabel[^{]*\\{)"@
}

/// The class that the router of a category built from `entries` constructs for `id`:
/// that of the first entry with this identifier.
pub open spec fn dispatch(entries: Seq<PluginEntry>, id: Seq<char>) -> Option<Seq<char>>
    decreases entries.len(),
{
    if entries.len() == 0 {
        None
    } else {
        match dispatch(entries.drop_last(), id) {
            Some(c) => Some(c),
            None => if entries.last().id@ == id {
                Some(entries.last().class_name@)
            } else {
                None
            },
        }
    }
}

/// Each entry of a category's list comes from the registry and has that category.
proof fn lemma_in_category_members(registry: Seq<PluginEntry>, category: Seq<char>)
    ensures
        forall|k: int|
            0 <= k < in_category(registry, category).len() ==> exists|i: int|
                0 <= i < registry.len() && registry[i] == #[trigger] in_category(
                    registry,
                    category,
                )[k] && registry[i].category@ == category,
    decreases registry.len(),
{
    if registry.len() > 0 {
        let prev = registry.drop_last();
        lemma_in_category_members(prev, category);
        assert forall|k: int| 0 <= k < in_category(registry, category).len() implies exists|i: int|
            0 <= i < registry.len() && registry[i] == #[trigger] in_category(registry, category)[k]
                && registry[i].category@ == category by {
            if k < in_category(prev, category).len() {
                let i = choose|i: int|
                    0 <= i < prev.len() && prev[i] == #[trigger] in_category(prev, category)[k]
                        && prev[i].category@ == category;
                assert(registry[i] == prev[i]);
            } else {
                assert(registry[registry.len() - 1] == registry.last());
            }
        }
    }
}

/// Entries of a category's list keep the registry's order: any two come from two
/// different registry positions, the earlier from the earlier.
proof fn lemma_in_category_order(registry: Seq<PluginEntry>, category: Seq<char>)
    ensures
        forall|k1: int, k2: int|
            0 <= k1 < k2 < in_category(registry, category).len() ==> exists|i1: int, i2: int|
                0 <= i1 < i2 < registry.len() && registry[i1] == #[trigger] in_category(
                    registry,
                    category,
                )[k1] && registry[i2] == #[trigger] in_category(registry, category)[k2]
                    && registry[i1].category@ == category && registry[i2].category@ == category,
    decreases registry.len(),
{
    if registry.len() > 0 {
        let prev = registry.drop_last();
        let es = in_category(registry, category);
        lemma_in_category_order(prev, category);
        lemma_in_category_members(prev, category);
        assert forall|k1: int, k2: int| 0 <= k1 < k2 < es.len() implies exists|i1: int, i2: int|
            0 <= i1 < i2 < registry.len() && registry[i1] == #[trigger] es[k1] && registry[i2]
                == #[trigger] es[k2] && registry[i1].category@ == category
                && registry[i2].category@ == category by {
            let pe = in_category(prev, category);
            if k2 < pe.len() {
                let (i1, i2) = choose|i1: int, i2: int|
                    0 <= i1 < i2 < prev.len() && prev[i1] == #[trigger] pe[k1] && prev[i2]
                        == #[trigger] pe[k2] && prev[i1].category@ == category
                        && prev[i2].category@ == category;
                assert(registry[i1] == prev[i1] && registry[i2] == prev[i2]);
            } else {
                let i1 = choose|i: int|
                    0 <= i < prev.len() && prev[i] == #[trigger] pe[k1] && prev[i].category@
                        == category;
                assert(registry[i1] == prev[i1]);
                assert(registry[registry.len() - 1] == registry.last());
                assert(es[k2] == registry[registry.len() - 1]);
            }
        }
    }
}

/// Each registry entry of a category appears in that category's list.
proof fn lemma_in_category_covers(registry: Seq<PluginEntry>, category: Seq<char>, i: int)
    requires
        0 <= i < registry.len(),
        registry[i].category@ == category,
    ensures
        exists|k: int|
            0 <= k < in_category(registry, category).len() && #[trigger] in_category(
                registry,
                category,
            )[k] == registry[i],
    decreases registry.len(),
{
    let es = in_category(registry, category);
    if i == registry.len() - 1 {
        assert(es[es.len() - 1] == registry[i]);
    } else {
        let prev = registry.drop_last();
        assert(prev[i] == registry[i]);
        lemma_in_category_covers(prev, category, i);
        let k = choose|k: int|
            0 <= k < in_category(prev, category).len() && #[trigger] in_category(prev, category)[k]
                == prev[i];
        assert(es[k] == registry[i]);
    }
}

/// The router answers `id` with the class of the only entry that has it.
proof fn lemma_dispatch_single(entries: Seq<PluginEntry>, id: Seq<char>, k: int)
    requires
        0 <= k < entries.len(),
        entries[k].id@ == id,
        forall|j: int| 0 <= j < entries.len() && j != k ==> (#[trigger] entries[j]).id@ != id,
    ensures
        dispatch(entries, id) == Some(entries[k].class_name@),
    decreases entries.len(),
{
    let prev = entries.drop_last();
    if k == entries.len() - 1 {
        lemma_dispatch_absent(prev, id);
    } else {
        assert forall|j: int| 0 <= j < prev.len() && j != k implies (#[trigger] prev[j]).id@
            != id by {
            assert(prev[j] == entries[j]);
        }
        lemma_dispatch_single(prev, id, k);
    }
}

/// An identifier that no entry has is answered with nothing.
proof fn lemma_dispatch_absent(entries: Seq<PluginEntry>, id: Seq<char>)
    requires
        forall|j: int| 0 <= j < entries.len() ==> (#[trigger] entries[j]).id@ != id,
    ensures
        dispatch(entries, id) is None,
    decreases entries.len(),
{
    if entries.len() > 0 {
        let prev = entries.drop_last();
        assert forall|j: int| 0 <= j < prev.len() implies (#[trigger] prev[j]).id@ != id by {
            assert(prev[j] == entries[j]);
        }
        lemma_dispatch_absent(prev, id);
        assert(entries.last() == entries[entries.len() - 1]);
    }
}

/// Router completeness: where identifiers are unique within each category, the router of
/// a category has one branch for each of its entries and none for anything else, no
/// identifier is tested by two branches, and an unmatched identifier falls through to the
/// null result that closes the function.
pub proof fn lemma_router_complete(registry: Seq<PluginEntry>, category: Seq<char>)
    requires
        ids_unique(registry),
    ensures
        forall|i: int|
            0 <= i < registry.len() && (#[trigger] registry[i]).category@ == category ==> exists|
                k: int,
            |
                0 <= k < in_category(registry, category).len() && #[trigger] in_category(
                    registry,
                    category,
                )[k] == registry[i],
        forall|k: int|
            0 <= k < in_category(registry, category).len() ==> registry.contains(
                #[trigger] in_category(registry, category)[k],
            ) && in_category(registry, category)[k].category@ == category,
        forall|k1: int, k2: int|
            0 <= k1 < k2 < in_category(registry, category).len() ==> (#[trigger] in_category(
                registry,
                category,
            )[k1]).id@ != (#[trigger] in_category(registry, category)[k2]).id@,
        forall|id: Seq<char>|
            (forall|k: int|
                0 <= k < in_category(registry, category).len() ==> (#[trigger] in_category(
                    registry,
                    category,
                )[k]).id@ != id) ==> #[trigger] dispatch(in_category(registry, category), id)
                is None,
{
    let es = in_category(registry, category);
    lemma_in_category_members(registry, category);
    lemma_in_category_order(registry, category);
    assert forall|i: int|
        0 <= i < registry.len() && (#[trigger] registry[i]).category@ == category implies exists|
            k: int,
        |
            0 <= k < es.len() && #[trigger] es[k] == registry[i] by {
        lemma_in_category_covers(registry, category, i);
    }
    assert forall|k: int| 0 <= k < es.len() implies registry.contains(#[trigger] es[k])
        && es[k].category@ == category by {
        let i = choose|i: int| 0 <= i < registry.len() && registry[i] == #[trigger] es[k] && registry[i].category@ == category;
        assert(registry[i] == es[k]);
    }
    assert forall|k1: int, k2: int| 0 <= k1 < k2 < es.len() implies (#[trigger] es[k1]).id@
        != (#[trigger] es[k2]).id@ by {
        let (i1, i2) = choose|i1: int, i2: int|
            0 <= i1 < i2 < registry.len() && registry[i1] == #[trigger] es[k1] && registry[i2]
                == #[trigger] es[k2] && registry[i1].category@ == category
                && registry[i2].category@ == category;
        assert(registry[i1].category@ == registry[i2].category@);
    }
    assert forall|id: Seq<char>|
        (forall|k: int| 0 <= k < es.len() ==> (#[trigger] es[k]).id@ != id) implies #[trigger] dispatch(
        es,
        id,
    ) is None by {
        lemma_dispatch_absent(es, id);
    }
}

/// Router correctness: where identifiers are unique within each category, the router of
/// an entry's category answers the entry's identifier with a new instance of the entry's
/// class.
pub proof fn lemma_router_correct(registry: Seq<PluginEntry>, i: int)
    requires
        ids_unique(registry),
        0 <= i < registry.len(),
    ensures
        dispatch(in_category(registry, registry[i].category@), registry[i].id@) == Some(
            registry[i].class_name@,
        ),
{
    let category = registry[i].category@;
    let es = in_category(registry, category);
    lemma_router_complete(registry, category);
    let k = choose|k: int| 0 <= k < es.len() && #[trigger] es[k] == registry[i];
    assert forall|j: int| 0 <= j < es.len() && j != k implies (#[trigger] es[j]).id@
        != registry[i].id@ by {
        if j < k {
            assert(es[j].id@ != es[k].id@);
        } else {
            assert(es[k].id@ != es[j].id@);
        }
    }
    lemma_dispatch_single(es, registry[i].id@, k);
}

/// Builds the router of `category`: the factory declarations of its plugins and the
/// `FindType` function that tests their identifiers in registry order.
pub fn generate_router(category: &str, registry: &Vec<PluginEntry>) -> (r: RouterCode)
    ensures
        r.forward_decls@ == declarations(category@, in_category(registry@, category@)),
        r.dispatch_fn@ == find_type_text(category@, branches(in_category(registry@, category@))),
{
    let wanted = String::from_str(category);
    let mut decls = String::new();
    let mut lines = String::new();
    let mut empty = true;
    let mut i: usize = 0;
    while i < registry.len()
        invariant
            i <= registry.len(),
            wanted@ == category@,
            empty == (in_category(registry@.subrange(0, i as int), category@).len() == 0),
            decls@ == declarations(category@, in_category(registry@.subrange(0, i as int), category@)),
            lines@ == branches(in_category(registry@.subrange(0, i as int), category@)),
        decreases registry.len() - i,
    {
        let e = &registry[i];
        let ghost before = in_category(registry@.subrange(0, i as int), category@);
        assert(registry@.subrange(0, i + 1).drop_last() =~= registry@.subrange(0, i as int));
        assert(registry@.subrange(0, i + 1).last() == registry@[i as int]);
        if e.category == wanted {
            let ghost after = before.push(registry@[i as int]);
            assert(after.drop_last() =~= before);
            if !empty {
                decls.append("\n");
                lines.append("\n");
            }
            empty = false;
            decls.append("OB");
            decls.append(category);
            decls.append("* new_");
            decls.append(e.class_name.as_str());
            decls.append("();");
            lines.append("else if (!strcmp(ID, \"");
            lines.append(e.id.as_str());
            lines.append("\")) { return new_");
            lines.append(e.class_name.as_str());
            lines.append("(); }");
            proof {
                if before.len() == 0 {
                    assert(decls@ =~= declarations(category@, after));
                    assert(lines@ =~= branches(after));
                } else {
                    assert(decls@ =~= declarations(category@, after));
                    assert(lines@ =~= branches(after));
                }
            }
        }
        i += 1;
    }
    assert(registry@.subrange(0, i as int) =~= registry@);
    let mut dispatch_fn = String::from_str("OB");
    dispatch_fn.append(category);
    dispatch_fn.append("* OB");
    dispatch_fn.append(category);
    dispatch_fn.append("::FindType(const char* ID) {\n        if (!ID) { return nullptr; }\n        ");
    dispatch_fn.append(lines.as_str());
    dispatch_fn.append("\n        else { return nullptr; }\n    }");
    assert(dispatch_fn@ =~= find_type_text(category@, branches(in_category(registry@, category@))));
    RouterCode { forward_decls: decls, dispatch_fn }
}

/// The rule that writes the router of `category`, its declarations and then its
/// `FindType`, right after the opening of the library's namespace.
pub open spec fn router_rule_view(category: Seq<char>, registry: Seq<PluginEntry>) -> RuleView {
    RuleView {
        pattern: namespace_pattern(),
        replacement: "$c\n"@ + declarations(category, in_category(registry, category)) + "\n"@
            + find_type_text(category, branches(in_category(registry, category))),
    }
}

/// Builds the rule that writes the router of `category` after the namespace opening.
pub fn router_rule(category: &str, registry: &Vec<PluginEntry>) -> (r: Rule)
    ensures
        r@ == router_rule_view(category@, registry@),
{
    let code = generate_router(category, registry);
    let mut replacement = String::from_str("$c\n");
    replacement.append(code.forward_decls.as_str());
    replacement.append("\n");
    replacement.append(code.dispatch_fn.as_str());
    Rule { pattern: String::from_str("(?P<c>namespace OpenBabel[^{]*\\{)"), replacement }
}

/// The pattern of the static instance that registers a plugin of class `class_name`.
pub open spec fn instance_pattern(class_name: Seq<char>) -> Seq<char> {
    class_name + " the"@ + class_name
}

/// The factory that takes the place of that static instance.
pub open spec fn factory_text(category: Seq<char>, class_name: Seq<char>) -> Seq<char> {
    "OB"@ + category + "* new_"@ + class_name + "() { return static_cast<OB"@ + category
        + "*>(new "@ + class_name + "()); }"@
}

/// The rule that replaces the registering instance of a plugin by its factory.
pub open spec fn instance_rule_view(entry: PluginEntry) -> RuleView {
    RuleView {
        pattern: instance_pattern(entry.class_name@),
        replacement: factory_text(entry.category@, entry.class_name@),
    }
}

/// Builds the rule that replaces the registering instance of a plugin by its factory.
pub fn plugin_instance_rule(entry: &PluginEntry) -> (r: Rule)
    ensures
        r@ == instance_rule_view(*entry),
{
    let cls = entry.class_name.as_str();
    let cat = entry.category.as_str();
    let mut pattern = String::from_str(cls);
    pattern.append(" the");
    pattern.append(cls);
    let mut replacement = String::from_str("OB");
    replacement.append(cat);
    replacement.append("* new_");
    replacement.append(cls);
    replacement.append("() { return static_cast<OB");
    replacement.append(cat);
    replacement.append("*>(new ");
    replacement.append(cls);
    replacement.append("()); }");
    Rule { pattern, replacement }
}

/// The class whose instance the router of `category` creates for `id`; a missing
/// identifier, like one that no plugin of the category has, gives nothing.
pub fn find_type(registry: &Vec<PluginEntry>, category: &str, id: Option<&str>) -> (r: Option<
    String,
>)
    ensures
        match id {
            None => r is None,
            Some(x) => match dispatch(in_category(registry@, category@), x@) {
                Some(c) => r matches Some(s) && s@ == c,
                None => r is None,
            },
        },
{
    match id {
        None => None,
        Some(x) => find_class(registry, category, x),
    }
}

fn find_class(registry: &Vec<PluginEntry>, category: &str, x: &str) -> (r: Option<String>)
    ensures
        match dispatch(in_category(registry@, category@), x@) {
            Some(c) => r matches Some(s) && s@ == c,
            None => r is None,
        },
{
    let wanted = String::from_str(category);
    let key = String::from_str(x);
    let mut i: usize = 0;
    while i < registry.len()
        invariant
            i <= registry.len(),
            wanted@ == category@,
            key@ == x@,
            dispatch(in_category(registry@.subrange(0, i as int), category@), x@) is None,
        decreases registry.len() - i,
    {
        let e = &registry[i];
        let ghost before = in_category(registry@.subrange(0, i as int), category@);
        assert(registry@.subrange(0, i + 1).drop_last() =~= registry@.subrange(0, i as int));
        assert(registry@.subrange(0, i + 1).last() == registry@[i as int]);
        if e.category == wanted {
            assert(before.push(registry@[i as int]).drop_last() =~= before);
            if e.id == key {
                proof {
                    let after = before.push(registry@[i as int]);
                    assert(in_category(registry@.subrange(0, i + 1), category@) == after);
                    assert(dispatch(after, x@) == Some(e.class_name@));
                    lemma_dispatch_prefix(registry@, i + 1, category@, x@);
                }
                return Some(e.class_name.clone());
            }
        }
        i += 1;
    }
    assert(registry@.subrange(0, i as int) =~= registry@);
    None
}

/// Once a prefix of the registry answers an identifier, the whole registry answers it
/// the same way.
proof fn lemma_dispatch_prefix(registry: Seq<PluginEntry>, k: int, category: Seq<char>, id: Seq<char>)
    requires
        0 <= k <= registry.len(),
        dispatch(in_category(registry.subrange(0, k), category), id) is Some,
    ensures
        dispatch(in_category(registry, category), id) == dispatch(
            in_category(registry.subrange(0, k), category),
            id,
        ),
    decreases registry.len() - k,
{
    if k < registry.len() {
        let next = registry.subrange(0, k + 1);
        assert(next.drop_last() =~= registry.subrange(0, k));
        let before = in_category(registry.subrange(0, k), category);
        if next.last().category@ == category {
            assert(before.push(next.last()).drop_last() =~= before);
        }
        lemma_dispatch_prefix(registry, k + 1, category, id);
    } else {
        assert(registry.subrange(0, k) =~= registry);
    }
}

/// Checks that no two plugins of one category share an identifier; otherwise names the
/// first such pair found.
pub fn validate_registry(registry: &Vec<PluginEntry>) -> (r: Result<(), RegistryError>)
    ensures
        r is Ok <==> ids_unique(registry@),
        r matches Err(RegistryError::DuplicateId { category, id }) ==> exists|i: int, j: int|
            0 <= i < j < registry.len() && (#[trigger] registry@[i]).category@ == category@
                && (#[trigger] registry@[j]).category@ == category@ && registry@[i].id@ == id@
                && registry@[j].id@ == id@,
{
    let n = registry.len();
    let mut j: usize = 0;
    while j < n
        invariant
            n == registry.len(),
            j <= n,
            forall|a: int, b: int|
                0 <= a < b < j && (#[trigger] registry@[a]).category@ == (#[trigger] registry@[b]).category@
                    ==> registry@[a].id@ != registry@[b].id@,
        decreases n - j,
    {
        let mut i: usize = 0;
        while i < j
            invariant
                n == registry.len(),
                i <= j < n,
                forall|a: int, b: int|
                    0 <= a < b < j && (#[trigger] registry@[a]).category@ == (#[trigger] registry@[b]).category@
                        ==> registry@[a].id@ != registry@[b].id@,
                forall|a: int|
                    0 <= a < i && (#[trigger] registry@[a]).category@ == registry@[j as int].category@
                        ==> registry@[a].id@ != registry@[j as int].id@,
            decreases j - i,
        {
            if registry[i].category == registry[j].category && registry[i].id == registry[j].id {
                return Err(
                    RegistryError::DuplicateId {
                        category: registry[j].category.clone(),
                        id: registry[j].id.clone(),
                    },
                );
            }
            i += 1;
        }
        j += 1;
    }
    Ok(())
}

} // verus!
