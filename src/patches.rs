//! The rules this library applies to the upstream tree: the global set, the file-specific
//! table, and the routers and factories derived from the plugin registry.
use vstd::prelude::*;
use crate::engine::{PatchView, TargetedPatch, table_view};
use crate::registry::{
    PluginEntry, instance_rule_view, plugin_instance_rule, router_rule, router_rule_view,
};
use crate::rules::{
    Rule, RuleView, add_header_file, commented_capture, disable_function, disabled_body,
    function_pattern, include_pattern, remove_function, remove_header_file, rules_view,
};

verus! {

/// Where the router of a category is written: into the files of this name.
#[derive(Clone, Debug, PartialEq, Eq)]
pub struct RouterTarget {
    pub category: String,
    pub file_name: String,
}

/// A rule that keeps what `pattern` captures as `c`, commented out.
pub open spec fn comment_out(pattern: Seq<char>) -> RuleView {
    RuleView { pattern, replacement: commented_capture() }
}

/// The rules applied to every source and header, in order: the plugin header include,
/// the plugin registration macros, the plugin base class, the MIME map accessor, and the
/// typedef and declaration of the dynamic format iteration are commented out.
pub open spec fn global_rules_spec() -> Seq<RuleView> {
    seq![
        RuleView { pattern: include_pattern("<openbabel/plugin.h>"@), replacement: "/** $h **/"@ },
        comment_out("(?P<c>MAKE_PLUGIN\\(.+\\);*)"@),
        comment_out("(?P<c>: public OBPlugin)"@),
        comment_out(function_pattern("static PluginMapType &FormatsMIMEMap"@, 4, false)),
        comment_out("(?P<c>typedef OBPlugin::PluginIterator Formatpos;)"@),
        comment_out("(?P<c>static bool\\s+GetNextFormat\\(.*\\);)"@),
    ]
}

/// A rule that disables a function: commented out, with a new body after its signature.
pub open spec fn disable(name: Seq<char>, lines: nat, body: Seq<char>) -> RuleView {
    RuleView { pattern: function_pattern(name, lines, true), replacement: disabled_body(body) }
}

/// A rule that comments out a function and the given number of lines after its first.
pub open spec fn remove(name: Seq<char>, lines: nat) -> RuleView {
    comment_out(function_pattern(name, lines, false))
}

/// The file-specific patches, in order: each plugin base class gains a static
/// `FindType` declaration, functions that served the dynamic plugin system are removed
/// or disabled, and the format unit gains an include.
pub open spec fn file_specific_spec() -> Seq<PatchView> {
    seq![
        PatchView {
            file_name: "descriptor.h"@,
            rules: seq![
                RuleView {
                    pattern: "(?P<c>const char\\* TypeID\\(\\)\\{.*\\};)"@,
                    replacement: "static OBDescriptor* FindType(const char* ID);\n$c"@,
                },
            ],
        },
        PatchView {
            file_name: "descriptor.cpp"@,
            rules: seq![
                disable("bool OBDescriptor::Display"@, 13, "return false;"@),
                remove("double OBDescriptor::PredictAndSave"@, 19),
                remove("void OBDescriptor::AddProperties"@, 12),
            ],
        },
        PatchView {
            file_name: "fingerprint.h"@,
            rules: seq![
                RuleView {
                    pattern: "(?P<c>virtual ~OBFingerprint\\(\\)\\{\\})"@,
                    replacement: "static OBFingerprint* FindType(const char* ID);\n$c"@,
                },
            ],
        },
        PatchView {
            file_name: "fingerprint.cpp"@,
            rules: seq![
                RuleView {
                    pattern: "(?P<c>_pFP->GetID\\(\\))\\);"@,
                    replacement: "/** $c **/ \"FP2\");"@,
                },
            ],
        },
        PatchView {
            file_name: "format.h"@,
            rules: seq![
                RuleView {
                    pattern: "(?P<c>class OBCONV OBFormat.*\\{.|\\n*public:)"@,
                    replacement: "$c\nstatic OBFormat* FindType(const char* ID);"@,
                },
            ],
        },
        PatchView {
            file_name: "format.cpp"@,
            rules: seq![
                RuleView {
                    pattern: include_pattern("<openbabel/babelconfig.h>"@),
                    replacement: "$h\n#include "@ + "<iostream>"@,
                },
                disable("int OBFormat::RegisterFormat"@, 12, "return 0;"@),
                disable("OBFormat\\* OBFormat::FormatFromMIME"@, 6, "return nullptr;"@),
                disable("bool OBFormat::Display"@, 54, "return false;"@),
            ],
        },
        PatchView {
            file_name: "forcefield.h"@,
            rules: seq![
                RuleView {
                    pattern: "(?P<c>virtual OBForceField\\* MakeNewInstance\\(\\)=0;)"@,
                    replacement: "$c\nstatic OBForceField* FindType(const char* ID);"@,
                },
            ],
        },
        PatchView {
            file_name: "op.h"@,
            rules: seq![
                remove("static std::string OpOptions"@, 21),
                RuleView {
                    pattern: "(?P<c>typedef const std::map<std::string, std::string> OpMap)"@,
                    replacement: "static OBOp* FindType(const char* ID);\n$c"@,
                },
            ],
        },
        PatchView {
            file_name: "obconversion.cpp"@,
            rules: seq![
                remove("std::vector<std::string> OBConversion::GetSupportedInputFormat"@, 5),
                remove("std::vector<std::string> OBConversion::GetSupportedOutputFormat"@, 5),
                remove("bool OBConversion::GetNextFormat"@, 28),
            ],
        },
        PatchView {
            file_name: "transform.cpp"@,
            rules: seq![
                disable("const char\\* OBMol::ClassDescription"@, 32, "return \"\";"@),
                disable("OBBase\\* OBMol::DoTransformations"@, 210, "return nullptr;"@),
            ],
        },
    ]
}

/// One patch per router target: the category's router, for the target's files.
pub open spec fn router_patches_spec(registry: Seq<PluginEntry>, targets: Seq<RouterTarget>) -> Seq<
    PatchView,
> {
    targets.map_values(
        |t: RouterTarget|
            PatchView {
                file_name: t.file_name@,
                rules: seq![router_rule_view(t.category@, registry)],
            },
    )
}

/// One patch per plugin: its factory, for the file that defines it.
pub open spec fn instance_patches_spec(registry: Seq<PluginEntry>) -> Seq<PatchView> {
    registry.map_values(
        |e: PluginEntry| PatchView { file_name: e.source_file@, rules: seq![instance_rule_view(e)] },
    )
}

/// The whole targeted table: the file-specific patches, then the routers, then the
/// plugin factories.
pub open spec fn patch_table_spec(registry: Seq<PluginEntry>, targets: Seq<RouterTarget>) -> Seq<
    PatchView,
> {
    file_specific_spec() + router_patches_spec(registry, targets) + instance_patches_spec(
        registry,
    )
}

fn comment_rule(pattern: &str) -> (r: Rule)
    ensures
        r@ == comment_out(pattern@),
{
    Rule::new(pattern, "/** $c **/")
}

fn patch_of(file_name: &str, rules: Vec<Rule>) -> (r: TargetedPatch)
    ensures
        r.file_name@ == file_name@,
        r.rules@ == rules@,
{
    TargetedPatch { file_name: String::from_str(file_name), rules }
}

/// The rules for every source and header.
pub fn global_rules() -> (r: Vec<Rule>)
    ensures
        rules_view(r@) == global_rules_spec(),
{
    let mut r: Vec<Rule> = Vec::new();
    r.push(remove_header_file("<openbabel/plugin.h>"));
    r.push(comment_rule("(?P<c>MAKE_PLUGIN\\(.+\\);*)"));
    r.push(comment_rule("(?P<c>: public OBPlugin)"));
    r.push(remove_function("static PluginMapType &FormatsMIMEMap", 4));
    r.push(comment_rule("(?P<c>typedef OBPlugin::PluginIterator Formatpos;)"));
    r.push(comment_rule("(?P<c>static bool\\s+GetNextFormat\\(.*\\);)"));
    assert(rules_view(r@) =~= global_rules_spec());
    r
}

fn rule_list1(a: Rule) -> (r: Vec<Rule>)
    ensures
        r@ == seq![a],
{
    let mut r: Vec<Rule> = Vec::new();
    r.push(a);
    assert(r@ =~= seq![a]);
    r
}

fn rule_list2(a: Rule, b: Rule) -> (r: Vec<Rule>)
    ensures
        r@ == seq![a, b],
{
    let mut r = rule_list1(a);
    r.push(b);
    assert(r@ =~= seq![a, b]);
    r
}

fn rule_list3(a: Rule, b: Rule, c: Rule) -> (r: Vec<Rule>)
    ensures
        r@ == seq![a, b, c],
{
    let mut r = rule_list2(a, b);
    r.push(c);
    assert(r@ =~= seq![a, b, c]);
    r
}

fn rule_list4(a: Rule, b: Rule, c: Rule, d: Rule) -> (r: Vec<Rule>)
    ensures
        r@ == seq![a, b, c, d],
{
    let mut r = rule_list3(a, b, c);
    r.push(d);
    assert(r@ =~= seq![a, b, c, d]);
    r
}

/// The file-specific patches.
pub fn file_specific_patches() -> (r: Vec<TargetedPatch>)
    ensures
        table_view(r@) == file_specific_spec(),
{
    let mut t: Vec<TargetedPatch> = Vec::new();
    t.push(
        patch_of(
            "descriptor.h",
            rule_list1(
                Rule::new(
                    "(?P<c>const char\\* TypeID\\(\\)\\{.*\\};)",
                    "static OBDescriptor* FindType(const char* ID);\n$c",
                ),
            ),
        ),
    );
    t.push(
        patch_of(
            "descriptor.cpp",
            rule_list3(
                disable_function("bool OBDescriptor::Display", 13, "return false;"),
                remove_function("double OBDescriptor::PredictAndSave", 19),
                remove_function("void OBDescriptor::AddProperties", 12),
            ),
        ),
    );
    t.push(
        patch_of(
            "fingerprint.h",
            rule_list1(
                Rule::new(
                    "(?P<c>virtual ~OBFingerprint\\(\\)\\{\\})",
                    "static OBFingerprint* FindType(const char* ID);\n$c",
                ),
            ),
        ),
    );
    t.push(
        patch_of(
            "fingerprint.cpp",
            rule_list1(Rule::new("(?P<c>_pFP->GetID\\(\\))\\);", "/** $c **/ \"FP2\");")),
        ),
    );
    t.push(
        patch_of(
            "format.h",
            rule_list1(
                Rule::new(
                    "(?P<c>class OBCONV OBFormat.*\\{.|\\n*public:)",
                    "$c\nstatic OBFormat* FindType(const char* ID);",
                ),
            ),
        ),
    );
    t.push(
        patch_of(
            "format.cpp",
            rule_list4(
                add_header_file("<openbabel/babelconfig.h>", "<iostream>"),
                disable_function("int OBFormat::RegisterFormat", 12, "return 0;"),
                disable_function("OBFormat\\* OBFormat::FormatFromMIME", 6, "return nullptr;"),
                disable_function("bool OBFormat::Display", 54, "return false;"),
            ),
        ),
    );
    t.push(
        patch_of(
            "forcefield.h",
            rule_list1(
                Rule::new(
                    "(?P<c>virtual OBForceField\\* MakeNewInstance\\(\\)=0;)",
                    "$c\nstatic OBForceField* FindType(const char* ID);",
                ),
            ),
        ),
    );
    t.push(
        patch_of(
            "op.h",
            rule_list2(
                remove_function("static std::string OpOptions", 21),
                Rule::new(
                    "(?P<c>typedef const std::map<std::string, std::string> OpMap)",
                    "static OBOp* FindType(const char* ID);\n$c",
                ),
            ),
        ),
    );
    t.push(
        patch_of(
            "obconversion.cpp",
            rule_list3(
                remove_function("std::vector<std::string> OBConversion::GetSupportedInputFormat", 5),
                remove_function("std::vector<std::string> OBConversion::GetSupportedOutputFormat", 5),
                remove_function("bool OBConversion::GetNextFormat", 28),
            ),
        ),
    );
    t.push(
        patch_of(
            "transform.cpp",
            rule_list2(
                disable_function("const char\\* OBMol::ClassDescription", 32, "return \"\";"),
                disable_function("OBBase\\* OBMol::DoTransformations", 210, "return nullptr;"),
            ),
        ),
    );
    proof {
        let s = file_specific_spec();
        assert forall|k: int| 0 <= k < t@.len() implies #[trigger] t@[k]@ == s[k] by {
            assert(t@[k]@.rules =~= s[k].rules);
        }
    }
    assert(table_view(t@) =~= file_specific_spec());
    t
}

/// The complete targeted table for a registry: the file-specific patches, then one
/// router patch per target, then one factory patch per plugin.
pub fn patch_table(registry: &Vec<PluginEntry>, targets: &Vec<RouterTarget>) -> (r: Vec<
    TargetedPatch,
>)
    ensures
        table_view(r@) == patch_table_spec(registry@, targets@),
{
    let mut t = file_specific_patches();
    let ghost fixed = file_specific_spec();
    let mut i: usize = 0;
    while i < targets.len()
        invariant
            i <= targets.len(),
            table_view(t@) =~= fixed + router_patches_spec(registry@, targets@.subrange(0, i as int)),
        decreases targets.len() - i,
    {
        let target = &targets[i];
        let rule = router_rule(target.category.as_str(), registry);
        let p = patch_of(target.file_name.as_str(), rule_list1(rule));
        let ghost before = t@;
        t.push(p);
        assert(table_view(t@) =~= table_view(before).push(p@));
        assert(p@.rules =~= seq![router_rule_view(targets@[i as int].category@, registry@)]);
        assert(router_patches_spec(registry@, targets@.subrange(0, i + 1)) =~= router_patches_spec(
            registry@,
            targets@.subrange(0, i as int),
        ).push(p@));
        i += 1;
    }
    assert(targets@.subrange(0, i as int) =~= targets@);
    let ghost routed = fixed + router_patches_spec(registry@, targets@);
    let mut j: usize = 0;
    while j < registry.len()
        invariant
            j <= registry.len(),
            routed == fixed + router_patches_spec(registry@, targets@),
            table_view(t@) =~= routed + instance_patches_spec(registry@.subrange(0, j as int)),
        decreases registry.len() - j,
    {
        let entry = &registry[j];
        let rule = plugin_instance_rule(entry);
        let p = patch_of(entry.source_file.as_str(), rule_list1(rule));
        let ghost before = t@;
        t.push(p);
        assert(table_view(t@) =~= table_view(before).push(p@));
        assert(p@.rules =~= seq![instance_rule_view(registry@[j as int])]);
        assert(instance_patches_spec(registry@.subrange(0, j + 1)) =~= instance_patches_spec(
            registry@.subrange(0, j as int),
        ).push(p@));
        j += 1;
    }
    assert(registry@.subrange(0, j as int) =~= registry@);
    t
}

} // verus!
