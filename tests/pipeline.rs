use openbabel::manifest::{SourceFile, SourceManifestEntry};
use openbabel::patches::{RouterTarget, file_specific_patches, global_rules, patch_table};
use openbabel::pipeline::{PipelineError, compile_units, patch_tree, run};
use openbabel::registry::PluginEntry;
use openbabel::rules::{PatchError, Rule};

use openbabel::engine::TargetedPatch;

fn module(subdirectory: &str, basename: &str, has_impl: bool) -> SourceManifestEntry {
    SourceManifestEntry {
        subdirectory: subdirectory.to_string(),
        basename: basename.to_string(),
        has_impl,
    }
}

fn file(directory: &str, file_name: &str, content: &str) -> SourceFile {
    SourceFile {
        directory: directory.to_string(),
        file_name: file_name.to_string(),
        content: content.to_string(),
    }
}

fn entry(category: &str, source_file: &str, class_name: &str, id: &str) -> PluginEntry {
    PluginEntry {
        category: category.to_string(),
        source_file: source_file.to_string(),
        class_name: class_name.to_string(),
        id: id.to_string(),
    }
}

const FORMAT_CPP: &str = "#include <openbabel/babelconfig.h>\n#include <openbabel/format.h>\n\nnamespace OpenBabel\n{\n  SMIFormat theSMIFormat;\n  CANSMIFormat theCANSMIFormat;\n} // namespace\n";

fn format_upstream() -> Vec<SourceFile> {
    vec![
        file("include/openbabel", "format.h", "#include <openbabel/plugin.h>\nint x;\n"),
        file("src", "format.cpp", FORMAT_CPP),
        file("src", "README.txt", "not a source"),
    ]
}

fn format_registry() -> Vec<PluginEntry> {
    vec![
        entry("Format", "format.cpp", "SMIFormat", "smi"),
        entry("Format", "format.cpp", "CANSMIFormat", "can"),
    ]
}

fn format_targets() -> Vec<RouterTarget> {
    vec![RouterTarget { category: String::from("Format"), file_name: String::from("format.cpp") }]
}

#[test]
fn format_scenario_routes_statically() {
    let out = run(&vec![module("", "format", true)], &format_registry(), &format_targets(), &format_upstream(), false)
        .unwrap();
    assert_eq!(
        out,
        vec![
            file("include/openbabel", "format.h", "/** #include <openbabel/plugin.h> **/\nint x;\n"),
            file(
                "src",
                "format.cpp",
                "#include <openbabel/babelconfig.h>\n#include <iostream>\n#include <openbabel/format.h>\n\nnamespace OpenBabel\n{\nOBFormat* new_SMIFormat();\nOBFormat* new_CANSMIFormat();\nOBFormat* OBFormat::FindType(const char* ID) {\n        if (!ID) { return nullptr; }\n        else if (!strcmp(ID, \"smi\")) { return new_SMIFormat(); }\nelse if (!strcmp(ID, \"can\")) { return new_CANSMIFormat(); }\n        else { return nullptr; }\n    }\n  OBFormat* new_SMIFormat() { return static_cast<OBFormat*>(new SMIFormat()); };\n  OBFormat* new_CANSMIFormat() { return static_cast<OBFormat*>(new CANSMIFormat()); };\n} // namespace\n",
            ),
        ]
    );
}

#[test]
fn rerunning_from_clean_state_gives_the_same_tree() {
    let manifest = vec![module("", "format", true)];
    let first = run(&manifest, &format_registry(), &format_targets(), &format_upstream(), false).unwrap();
    let second = run(&manifest, &format_registry(), &format_targets(), &format_upstream(), false).unwrap();
    assert_eq!(first, second);
}

#[test]
fn run_rejects_an_ambiguous_registry() {
    let mut registry = format_registry();
    registry.push(entry("Format", "format.cpp", "Other", "can"));
    assert_eq!(
        run(&vec![module("", "format", true)], &registry, &format_targets(), &format_upstream(), false),
        Err(PipelineError::AmbiguousRegistry { category: String::from("Format"), id: String::from("can") })
    );
}

#[test]
fn run_reports_a_missing_source() {
    assert_eq!(
        run(&vec![module("", "format", true), module("stereo", "facade", true)], &format_registry(), &format_targets(), &format_upstream(), false),
        Err(PipelineError::MissingImplementation {
            directory: String::from("src/stereo"),
            file_name: String::from("facade.cpp"),
        })
    );
}

#[test]
fn patch_tree_reports_a_bad_pattern() {
    let table = vec![TargetedPatch { file_name: String::from("format.h"), rules: vec![Rule::new("(", "x")] }];
    assert_eq!(
        patch_tree(format_upstream(), &global_rules(), &table, false),
        Err(PatchError::InvalidPattern { pattern: String::from("(") })
    );
}

#[test]
fn untargeted_and_ineligible_files_keep_their_text() {
    let upstream = format_upstream();
    let out = patch_tree(upstream.clone(), &global_rules(), &Vec::new(), true).unwrap();
    assert_eq!(out[0].content, "/** #include <openbabel/plugin.h> **/\nint x;\n");
    assert_eq!(out[1].content, FORMAT_CPP);
    assert_eq!(out[2], upstream[2]);
}

#[test]
fn table_holds_fixed_patches_then_routers_then_factories() {
    let fixed = file_specific_patches();
    assert_eq!(fixed.len(), 10);
    assert_eq!(fixed[5].file_name, "format.cpp");
    assert_eq!(fixed[5].rules.len(), 4);
    let table = patch_table(&format_registry(), &format_targets());
    assert_eq!(table.len(), 13);
    assert_eq!(table[10].file_name, "format.cpp");
    assert_eq!(table[10].rules[0].pattern, "(?P<c>namespace OpenBabel[^{]*\\{)");
    assert_eq!(table[11].rules[0].pattern, "SMIFormat theSMIFormat");
    assert_eq!(table[12].rules[0].pattern, "CANSMIFormat theCANSMIFormat");
    assert_eq!(global_rules().len(), 6);
}

#[test]
fn compile_units_are_the_sources() {
    let tree = vec![
        file("include/openbabel", "atom.h", ""),
        file("src", "atom.cpp", ""),
        file("src/math", "vector3.cpp", ""),
        file("src", ".cpp", ""),
    ];
    let units = compile_units(&tree);
    assert_eq!(units.len(), 2);
    assert_eq!((units[0].directory.as_str(), units[0].file_name.as_str()), ("src", "atom.cpp"));
    assert_eq!((units[1].directory.as_str(), units[1].file_name.as_str()), ("src/math", "vector3.cpp"));
}

#[test]
fn strict_run_stops_at_the_first_missing_anchor() {
    // The header comes first in the tree, and its class anchor is absent.
    assert_eq!(
        run(&vec![module("", "format", true)], &format_registry(), &format_targets(), &format_upstream(), true),
        Err(PipelineError::Rewrite(PatchError::NoMatch {
            pattern: String::from("(?P<c>class OBCONV OBFormat.*\\{.|\\n*public:)"),
        }))
    );
}

#[test]
fn strict_run_reports_a_missing_source_anchor() {
    let upstream = vec![
        file("include/openbabel", "format.h", "class OBCONV OBFormat\n{\npublic:\n};\n"),
        file("src", "format.cpp", FORMAT_CPP),
    ];
    assert_eq!(
        run(&vec![module("", "format", true)], &format_registry(), &format_targets(), &upstream, true),
        Err(PipelineError::Rewrite(PatchError::NoMatch {
            pattern: String::from("(?P<c>(?P<n>int OBFormat::RegisterFormat\\(.*\\n)(.*\\n){12})"),
        }))
    );
}
