use openbabel::engine::{TargetedPatch, is_eligible_name, patch_file};
use openbabel::patches::global_rules;
use openbabel::rules::{
    PatchError, Rule, add_header_file, apply_rules, disable_function, remove_function,
    remove_header_file,
};
use openbabel::babelconfig::babel_config;
use openbabel::text::{decimal_text, replace_text};

#[test]
fn decimal_text_writes_digits() {
    assert_eq!(decimal_text(0), "0");
    assert_eq!(decimal_text(7), "7");
    assert_eq!(decimal_text(10), "10");
    assert_eq!(decimal_text(210), "210");
    assert_eq!(decimal_text(4096), "4096");
}

#[test]
fn rule_builders_write_their_patterns() {
    let r = remove_header_file("<openbabel/plugin.h>");
    assert_eq!(r.pattern, "(?P<h>#include <openbabel/plugin.h>)");
    assert_eq!(r.replacement, "/** $h **/");
    let r = add_header_file("<openbabel/babelconfig.h>", "<iostream>");
    assert_eq!(r.pattern, "(?P<h>#include <openbabel/babelconfig.h>)");
    assert_eq!(r.replacement, "$h\n#include <iostream>");
    let r = remove_function("static PluginMapType &FormatsMIMEMap", 4);
    assert_eq!(r.pattern, "(?P<c>static PluginMapType &FormatsMIMEMap\\(.*\\n(.*\\n){4})");
    assert_eq!(r.replacement, "/** $c **/");
    let r = disable_function("bool OBFormat::Display", 54, "return false;");
    assert_eq!(r.pattern, "(?P<c>(?P<n>bool OBFormat::Display\\(.*\\n)(.*\\n){54})");
    assert_eq!(r.replacement, "/** $c **/ $n { return false; }");
}

#[test]
fn header_include_is_commented_out() {
    let r = remove_header_file("<openbabel/plugin.h>");
    let out = r.apply("#include <openbabel/plugin.h>\nint x;\n", false).unwrap();
    assert_eq!(out, "/** #include <openbabel/plugin.h> **/\nint x;\n");
}

#[test]
fn removed_function_takes_its_body_lines() {
    let r = remove_function("static PluginMapType &FormatsMIMEMap", 4);
    let text = "  static PluginMapType &FormatsMIMEMap()\n  {\n    static PluginMapType map;\n    return map;\n  }\n  int after;\n";
    assert_eq!(
        r.apply(text, false).unwrap(),
        "  /** static PluginMapType &FormatsMIMEMap()\n  {\n    static PluginMapType map;\n    return map;\n  }\n **/  int after;\n"
    );
}

#[test]
fn disabled_function_keeps_signature_with_new_body() {
    let r = disable_function("int OBFormat::RegisterFormat", 2, "return 0;");
    let text = "int OBFormat::RegisterFormat(const char* ID)\n{\n  return 1;\n}\n";
    assert_eq!(
        r.apply(text, false).unwrap(),
        "/** int OBFormat::RegisterFormat(const char* ID)\n{\n  return 1;\n **/ int OBFormat::RegisterFormat(const char* ID)\n { return 0; }}\n"
    );
}

#[test]
fn unmatched_rule_leaves_text_alone() {
    let r = remove_header_file("<openbabel/plugin.h>");
    assert_eq!(r.apply("int y;\n", false).unwrap(), "int y;\n");
}

#[test]
fn invalid_pattern_is_reported() {
    let r = Rule::new("(unclosed", "x");
    assert_eq!(
        r.apply("text", false),
        Err(PatchError::InvalidPattern { pattern: String::from("(unclosed") })
    );
    let rules = vec![Rule::new("a", "b"), Rule::new("[z", "y"), Rule::new("(", "w")];
    assert_eq!(
        apply_rules(&rules, "a", false),
        Err(PatchError::InvalidPattern { pattern: String::from("[z") })
    );
}

#[test]
fn rules_apply_in_declared_order() {
    let forward = vec![Rule::new("a", "b"), Rule::new("b", "c")];
    let backward = vec![Rule::new("b", "c"), Rule::new("a", "b")];
    assert_eq!(apply_rules(&forward, "ab", false).unwrap(), "cc");
    assert_eq!(apply_rules(&backward, "ab", false).unwrap(), "bc");
    assert_eq!(apply_rules(&Vec::new(), "ab", false).unwrap(), "ab");
}

#[test]
fn global_rules_remove_plugin_machinery() {
    let text = "#include <openbabel/plugin.h>\nclass OBDescriptor : public OBPlugin\n{\n  MAKE_PLUGIN(OBDescriptor);\n};\n";
    assert_eq!(
        apply_rules(&global_rules(), text, false).unwrap(),
        "/** #include <openbabel/plugin.h> **/\nclass OBDescriptor /** : public OBPlugin **/\n{\n  /** MAKE_PLUGIN(OBDescriptor); **/\n};\n"
    );
}

#[test]
fn eligible_names() {
    assert!(is_eligible_name("format.cpp"));
    assert!(is_eligible_name("format.h"));
    assert!(is_eligible_name("..h"));
    assert!(!is_eligible_name(".h"));
    assert!(!is_eligible_name(".cpp"));
    assert!(!is_eligible_name("notes.txt"));
    assert!(!is_eligible_name("vector.hpp"));
    assert!(!is_eligible_name(""));
}

#[test]
fn ineligible_file_is_untouched() {
    let text = "#include <openbabel/plugin.h>\n: public OBPlugin\n";
    let table = vec![TargetedPatch {
        file_name: String::from("notes.txt"),
        rules: vec![Rule::new("include", "X")],
    }];
    assert_eq!(patch_file("notes.txt", text, &global_rules(), &table, true).unwrap(), text);
}

#[test]
fn untargeted_file_gets_global_rules_only() {
    let text = "#include <openbabel/plugin.h>\nint x;\n";
    let table = vec![TargetedPatch {
        file_name: String::from("other.h"),
        rules: vec![Rule::new("int", "long")],
    }];
    assert_eq!(
        patch_file("atom.h", text, &global_rules(), &table, true).unwrap(),
        "/** #include <openbabel/plugin.h> **/\nint x;\n"
    );
}

#[test]
fn targeted_rules_follow_global_rules() {
    let text = "#include <openbabel/plugin.h>\nint x;\n";
    let table = vec![
        TargetedPatch { file_name: String::from("atom.h"), rules: vec![Rule::new("\\*\\*/", "*/")] },
        TargetedPatch { file_name: String::from("bond.h"), rules: vec![Rule::new("int", "bad")] },
        TargetedPatch { file_name: String::from("atom.h"), rules: vec![Rule::new("int", "long")] },
    ];
    assert_eq!(
        patch_file("atom.h", text, &global_rules(), &table, false).unwrap(),
        "/** #include <openbabel/plugin.h> */\nlong x;\n"
    );
}

#[test]
fn literal_replacement_is_left_to_right_without_overlap() {
    assert_eq!(replace_text("aaa", "aa", "b"), "ba");
    assert_eq!(replace_text("x@A@y@A@", "@A@", "1"), "x1y1");
    assert_eq!(replace_text("abc", "", "z"), "abc");
    assert_eq!(replace_text("", "a", "z"), "");
    assert_eq!(replace_text("ab", "abc", "z"), "ab");
    assert_eq!(replace_text("über café", "é", "e"), "über cafe");
}

#[test]
fn configuration_header_is_filled_in() {
    let template = "#define BABEL_DATADIR \"@BABEL_DATADIR@\"\n#define BABEL_VERSION \"@BABEL_VERSION@\"\n#define MODULE_EXTENSION \"@MODULE_EXTENSION@\"\n#cmakedefine HAVE_CONIO_H 1\n#cmakedefine HAVE_SYS_TIME_H 1\n#include <@OB_SHARED_PTR_HEADER@>\n#define obsharedptr @OB_SHARED_PTR_IMPLEMENTATION@\n";
    assert_eq!(
        babel_config(template, "/out/data/3.1.1", "3.1.1"),
        "#define BABEL_DATADIR \"/out/data/3.1.1\"\n#define BABEL_VERSION \"3.1.1\"\n#define MODULE_EXTENSION \"na\"\n\n#define HAVE_SYS_TIME_H 1\n#include <memory>\n#define obsharedptr std::shared_ptr\n"
    );
}

#[test]
fn required_match_reports_a_missing_anchor() {
    let r = Rule::new("virtual ~OBFingerprint", "x");
    assert_eq!(
        r.apply("int y;\n", true),
        Err(PatchError::NoMatch { pattern: String::from("virtual ~OBFingerprint") })
    );
    assert_eq!(r.apply("int y;\n", false).unwrap(), "int y;\n");
    let rules = vec![Rule::new("a", "b"), Rule::new("a", "c")];
    assert_eq!(
        apply_rules(&rules, "a", true),
        Err(PatchError::NoMatch { pattern: String::from("a") })
    );
    assert_eq!(apply_rules(&rules, "a", false).unwrap(), "b");
}

#[test]
fn required_match_applies_to_targeted_rules_only() {
    let text = "int x;\n";
    let table = vec![TargetedPatch { file_name: String::from("atom.h"), rules: vec![Rule::new("long", "int")] }];
    assert_eq!(
        patch_file("atom.h", text, &global_rules(), &table, true),
        Err(PatchError::NoMatch { pattern: String::from("long") })
    );
    assert_eq!(patch_file("atom.h", text, &global_rules(), &table, false).unwrap(), text);
    assert_eq!(patch_file("bond.h", text, &global_rules(), &table, true).unwrap(), text);
}
