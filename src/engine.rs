//! The rule engine: which files are rewritten, and with which rules.
use vstd::prelude::*;
use crate::rules::{PatchError, Rule, RuleFailure, RuleView, apply_rules, apply_rules_spec, rules_view};

verus! {

/// Extra rules for the files of one name.
#[derive(Clone, Debug, PartialEq, Eq)]
pub struct TargetedPatch {
    pub file_name: String,
    pub rules: Vec<Rule>,
}

/// A targeted patch as values.
pub struct PatchView {
    pub file_name: Seq<char>,
    pub rules: Seq<RuleView>,
}

impl View for TargetedPatch {
    type V = PatchView;

    open spec fn view(&self) -> PatchView {
        PatchView { file_name: self.file_name@, rules: rules_view(self.rules@) }
    }
}

/// A table of targeted patches as values.
pub open spec fn table_view(table: Seq<TargetedPatch>) -> Seq<PatchView> {
    table.map_values(|p: TargetedPatch| p@)
}

/// Whether `s` ends with `suffix`.
pub open spec fn has_suffix(s: Seq<char>, suffix: Seq<char>) -> bool {
    suffix.len() <= s.len() && s.subrange(s.len() - suffix.len(), s.len() as int) == suffix
}

/// Whether a file name has the extension `ext`: it ends with a dot and `ext`, and
/// something stands before that dot.
pub open spec fn has_extension(name: Seq<char>, ext: Seq<char>) -> bool {
    has_suffix(name, seq!['.'] + ext) && name.len() > ext.len() + 1
}

/// Whether the rules apply to a file of this name: C++ sources and headers only.
pub open spec fn is_eligible(name: Seq<char>) -> bool {
    has_extension(name, "cpp"@) || has_extension(name, "h"@)
}

/// The targeted patches of `table` whose file name is `name`, applied to `text` in the
/// table's order; where `require_match` is set, each of their rules must match.
pub open spec fn apply_table_spec(
    table: Seq<PatchView>,
    name: Seq<char>,
    text: Seq<char>,
    require_match: bool,
) -> Result<Seq<char>, RuleFailure>
    decreases table.len(),
{
    if table.len() == 0 {
        Ok(text)
    } else {
        match apply_table_spec(table.drop_last(), name, text, require_match) {
            Ok(t) => if table.last().file_name == name {
                apply_rules_spec(table.last().rules, t, require_match)
            } else {
                Ok(t)
            },
            Err(f) => Err(f),
        }
    }
}

/// Whether some patch of `table` is for files named `name`.
pub open spec fn has_targeted(table: Seq<PatchView>, name: Seq<char>) -> bool {
    exists|i: int| 0 <= i < table.len() && (#[trigger] table[i]).file_name == name
}

/// What a file of name `name` and contents `content` becomes: untouched unless eligible;
/// otherwise the global rules in order, which need not match, then the rules of the
/// targeted patches for that name in table order, which must match where
/// `require_match` is set.
pub open spec fn patch_file_spec(
    name: Seq<char>,
    content: Seq<char>,
    global: Seq<RuleView>,
    table: Seq<PatchView>,
    require_match: bool,
) -> Result<Seq<char>, RuleFailure> {
    if is_eligible(name) {
        match apply_rules_spec(global, content, false) {
            Ok(t) => apply_table_spec(table, name, t, require_match),
            Err(f) => Err(f),
        }
    } else {
        Ok(content)
    }
}

/// Whether `s` ends with `suffix`.
pub fn ends_with(s: &str, suffix: &str) -> (r: bool)
    ensures
        r == has_suffix(s@, suffix@),
{
    let n = s.unicode_len();
    let m = suffix.unicode_len();
    if m > n {
        return false;
    }
    let start = n - m;
    let mut i: usize = 0;
    while i < m
        invariant
            n == s@.len(),
            m == suffix@.len(),
            start == n - m,
            i <= m,
            forall|j: int| 0 <= j < i ==> s@[start + j] == suffix@[j],
        decreases m - i,
    {
        if s.get_char(start + i) != suffix.get_char(i) {
            assert(s@.subrange(start as int, n as int)[i as int] != suffix@[i as int]);
            return false;
        }
        i += 1;
    }
    assert(s@.subrange(start as int, n as int) =~= suffix@);
    true
}

/// Whether the rules apply to a file named `file_name`.
pub fn is_eligible_name(file_name: &str) -> (r: bool)
    ensures
        r == is_eligible(file_name@),
{
    proof {
        reveal_strlit(".cpp");
        reveal_strlit("cpp");
        reveal_strlit(".h");
        reveal_strlit("h");
        assert(seq!['.'] + "cpp"@ =~= ".cpp"@);
        assert(seq!['.'] + "h"@ =~= ".h"@);
    }
    let n = file_name.unicode_len();
    (ends_with(file_name, ".cpp") && n > 4) || (ends_with(file_name, ".h") && n > 2)
}

/// Applies, in table order, the rules of each targeted patch for `file_name`; where
/// `require_match` is set, each of those rules must match.
pub fn apply_table(
    table: &Vec<TargetedPatch>,
    file_name: &str,
    text: String,
    require_match: bool,
) -> (r: Result<String, PatchError>)
    ensures
        match r {
            Ok(s) => apply_table_spec(table_view(table@), file_name@, text@, require_match) == Ok::<
                Seq<char>,
                RuleFailure,
            >(s@),
            Err(e) => apply_table_spec(table_view(table@), file_name@, text@, require_match) == Err::<
                Seq<char>,
                RuleFailure,
            >(e@),
        },
{
    let name = String::from_str(file_name);
    let mut current = text;
    let mut i: usize = 0;
    while i < table.len()
        invariant
            i <= table.len(),
            name@ == file_name@,
            apply_table_spec(table_view(table@.subrange(0, i as int)), file_name@, text@, require_match)
                == Ok::<Seq<char>, RuleFailure>(current@),
        decreases table.len() - i,
    {
        let patch = &table[i];
        assert(table_view(table@.subrange(0, i + 1)).drop_last() =~= table_view(table@.subrange(0, i as int)));
        assert(table_view(table@.subrange(0, i + 1)).last() == table@[i as int]@);
        if patch.file_name == name {
            match apply_rules(&patch.rules, current.as_str(), require_match) {
                Ok(s) => {
                    current = s;
                },
                Err(e) => {
                    proof {
                        assert(table_view(table@).subrange(0, i + 1) =~= table_view(table@.subrange(0, i + 1)));
                        lemma_table_failure_persists(table_view(table@), i + 1, file_name@, text@, require_match, e@);
                    }
                    return Err(e);
                },
            }
        }
        i += 1;
    }
    assert(table@.subrange(0, i as int) =~= table@);
    Ok(current)
}

proof fn lemma_table_failure_persists(
    table: Seq<PatchView>,
    k: int,
    name: Seq<char>,
    text: Seq<char>,
    require_match: bool,
    f: RuleFailure,
)
    requires
        0 <= k <= table.len(),
        apply_table_spec(table.subrange(0, k), name, text, require_match) == Err::<Seq<char>, RuleFailure>(f),
    ensures
        apply_table_spec(table, name, text, require_match) == Err::<Seq<char>, RuleFailure>(f),
    decreases table.len() - k,
{
    if k < table.len() {
        assert(table.subrange(0, k + 1).drop_last() =~= table.subrange(0, k));
        lemma_table_failure_persists(table, k + 1, name, text, require_match, f);
    } else {
        assert(table.subrange(0, k) =~= table);
    }
}

/// Rewrites one file: an eligible file gets the global rules, in order, and then the
/// rules that `table` holds for its name, which must match where `require_match` is set;
/// any other file comes back as it was.
pub fn patch_file(
    file_name: &str,
    content: &str,
    global: &Vec<Rule>,
    table: &Vec<TargetedPatch>,
    require_match: bool,
) -> (r: Result<String, PatchError>)
    ensures
        match r {
            Ok(s) => patch_file_spec(file_name@, content@, rules_view(global@), table_view(table@), require_match)
                == Ok::<Seq<char>, RuleFailure>(s@),
            Err(e) => patch_file_spec(file_name@, content@, rules_view(global@), table_view(table@), require_match)
                == Err::<Seq<char>, RuleFailure>(e@),
        },
{
    if !is_eligible_name(file_name) {
        return Ok(String::from_str(content));
    }
    match apply_rules(global, content, false) {
        Ok(t) => apply_table(table, file_name, t, require_match),
        Err(e) => Err(e),
    }
}

/// A table with no patch for a name leaves files of that name as the global rules made
/// them.
pub proof fn lemma_untargeted_unchanged(
    table: Seq<PatchView>,
    name: Seq<char>,
    text: Seq<char>,
    require_match: bool,
)
    requires
        !has_targeted(table, name),
    ensures
        apply_table_spec(table, name, text, require_match) == Ok::<Seq<char>, RuleFailure>(text),
    decreases table.len(),
{
    if table.len() > 0 {
        assert(!has_targeted(table.drop_last(), name)) by {
            if has_targeted(table.drop_last(), name) {
                let i = choose|i: int|
                    0 <= i < table.drop_last().len() && (#[trigger] table.drop_last()[i]).file_name
                        == name;
                assert(table[i] == table.drop_last()[i]);
            }
        }
        lemma_untargeted_unchanged(table.drop_last(), name, text, require_match);
        assert(table.last() == table[table.len() - 1]);
    }
}

/// Files that are neither sources nor headers pass through untouched, and a source or
/// header for which the table holds no patch receives the global rules and nothing else.
pub proof fn lemma_untouched_files(
    name: Seq<char>,
    content: Seq<char>,
    global: Seq<RuleView>,
    table: Seq<PatchView>,
    require_match: bool,
)
    ensures
        !is_eligible(name) ==> patch_file_spec(name, content, global, table, require_match)
            == Ok::<Seq<char>, RuleFailure>(content),
        is_eligible(name) && !has_targeted(table, name) ==> patch_file_spec(
            name,
            content,
            global,
            table,
            require_match,
        ) == apply_rules_spec(global, content, false),
{
    if is_eligible(name) && !has_targeted(table, name) {
        if let Ok(t) = apply_rules_spec(global, content, false) {
            lemma_untargeted_unchanged(table, name, t, require_match);
        }
    }
}

} // verus!
