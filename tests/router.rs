use openbabel::registry::{
    PluginEntry, RegistryError, find_type, generate_router, plugin_instance_rule, router_rule,
    validate_registry,
};

fn entry(category: &str, source_file: &str, class_name: &str, id: &str) -> PluginEntry {
    PluginEntry {
        category: category.to_string(),
        source_file: source_file.to_string(),
        class_name: class_name.to_string(),
        id: id.to_string(),
    }
}

fn format_registry() -> Vec<PluginEntry> {
    vec![
        entry("Format", "format.cpp", "SMIFormat", "smi"),
        entry("Format", "format.cpp", "CANSMIFormat", "can"),
    ]
}

#[test]
fn format_router_text() {
    let code = generate_router("Format", &format_registry());
    assert_eq!(code.forward_decls, "OBFormat* new_SMIFormat();\nOBFormat* new_CANSMIFormat();");
    assert_eq!(
        code.dispatch_fn,
        "OBFormat* OBFormat::FindType(const char* ID) {\n        if (!ID) { return nullptr; }\n        else if (!strcmp(ID, \"smi\")) { return new_SMIFormat(); }\nelse if (!strcmp(ID, \"can\")) { return new_CANSMIFormat(); }\n        else { return nullptr; }\n    }"
    );
}

#[test]
fn format_router_dispatch() {
    let registry = format_registry();
    assert_eq!(find_type(&registry, "Format", Some("smi")), Some(String::from("SMIFormat")));
    assert_eq!(find_type(&registry, "Format", Some("can")), Some(String::from("CANSMIFormat")));
    assert_eq!(find_type(&registry, "Format", Some("xyz")), None);
    assert_eq!(find_type(&registry, "Format", None), None);
    assert_eq!(find_type(&registry, "Op", Some("smi")), None);
}

#[test]
fn router_has_one_branch_per_id_and_a_fallback() {
    let registry = vec![
        entry("Format", "smilesformat.cpp", "CANSMIFormat", "can"),
        entry("Op", "op.cpp", "OpGen2D", "gen2D"),
        entry("Format", "smilesformat.cpp", "FIXFormat", "fix"),
        entry("Format", "smilesformat.cpp", "SMIFormat", "smi"),
    ];
    let code = generate_router("Format", &registry);
    assert_eq!(code.dispatch_fn.matches("else if (!strcmp(ID, ").count(), 3);
    for id in ["can", "fix", "smi"] {
        assert_eq!(code.dispatch_fn.matches(&format!("\"{}\"", id)).count(), 1);
    }
    assert!(!code.dispatch_fn.contains("gen2D"));
    assert!(code.dispatch_fn.ends_with("else { return nullptr; }\n    }"));
    let op = generate_router("Op", &registry);
    assert_eq!(op.forward_decls, "OBOp* new_OpGen2D();");
    assert_eq!(find_type(&registry, "Op", Some("gen2D")), Some(String::from("OpGen2D")));
    assert_eq!(find_type(&registry, "Format", Some("fix")), Some(String::from("FIXFormat")));
}

#[test]
fn empty_category_router_only_falls_through() {
    let code = generate_router("Descriptor", &format_registry());
    assert_eq!(code.forward_decls, "");
    assert_eq!(
        code.dispatch_fn,
        "OBDescriptor* OBDescriptor::FindType(const char* ID) {\n        if (!ID) { return nullptr; }\n        \n        else { return nullptr; }\n    }"
    );
}

#[test]
fn duplicate_id_in_a_category_is_rejected() {
    assert_eq!(validate_registry(&format_registry()), Ok(()));
    let mut registry = format_registry();
    registry.push(entry("Op", "op.cpp", "OpSmi", "smi"));
    assert_eq!(validate_registry(&registry), Ok(()));
    registry.push(entry("Format", "other.cpp", "OtherSMIFormat", "smi"));
    assert_eq!(
        validate_registry(&registry),
        Err(RegistryError::DuplicateId { category: String::from("Format"), id: String::from("smi") })
    );
}

#[test]
fn first_entry_wins_for_a_shared_id() {
    let registry = vec![
        entry("Format", "a.cpp", "First", "x"),
        entry("Format", "b.cpp", "Second", "x"),
    ];
    assert_eq!(find_type(&registry, "Format", Some("x")), Some(String::from("First")));
}

#[test]
fn instance_becomes_factory() {
    let rule = plugin_instance_rule(&entry("Format", "format.cpp", "SMIFormat", "smi"));
    assert_eq!(rule.pattern, "SMIFormat theSMIFormat");
    assert_eq!(
        rule.replacement,
        "OBFormat* new_SMIFormat() { return static_cast<OBFormat*>(new SMIFormat()); }"
    );
    assert_eq!(
        rule.apply("  SMIFormat theSMIFormat;\n", true).unwrap(),
        "  OBFormat* new_SMIFormat() { return static_cast<OBFormat*>(new SMIFormat()); };\n"
    );
}

#[test]
fn router_lands_after_namespace_opening() {
    let rule = router_rule("Format", &vec![entry("Format", "format.cpp", "SMIFormat", "smi")]);
    let out = rule.apply("namespace OpenBabel\n{\nint x;\n}\n", true).unwrap();
    assert_eq!(
        out,
        "namespace OpenBabel\n{\nOBFormat* new_SMIFormat();\nOBFormat* OBFormat::FindType(const char* ID) {\n        if (!ID) { return nullptr; }\n        else if (!strcmp(ID, \"smi\")) { return new_SMIFormat(); }\n        else { return nullptr; }\n    }\nint x;\n}\n"
    );
}
