use openbabel::manifest::{
    SelectError, SourceFile, SourceManifestEntry, find_file, header_location, impl_location,
    select,
};

fn module(subdirectory: &str, basename: &str, has_impl: bool) -> SourceManifestEntry {
    SourceManifestEntry {
        subdirectory: subdirectory.to_string(),
        basename: basename.to_string(),
        has_impl,
    }
}

fn file(directory: &str, file_name: &str, content: &str) -> SourceFile {
    SourceFile {
        directory: directory.to_string(),
        file_name: file_name.to_string(),
        content: content.to_string(),
    }
}

fn upstream() -> Vec<SourceFile> {
    vec![
        file("include/openbabel", "atom.h", "class OBAtom;"),
        file("src", "atom.cpp", "// atom"),
        file("include/openbabel/math", "vector3.h", "class vector3;"),
        file("src/math", "vector3.cpp", "// vector3"),
        file("include/openbabel", "lineend.h", "// line ends"),
        file("src", "rand.cpp", "// rand"),
        file("src", "unused.cpp", "// not selected"),
    ]
}

#[test]
fn locations_follow_the_upstream_layout() {
    let top = module("", "format", true);
    assert_eq!(header_location(&top).directory, "include/openbabel");
    assert_eq!(header_location(&top).file_name, "format.h");
    assert_eq!(impl_location(&top).directory, "src");
    assert_eq!(impl_location(&top).file_name, "format.cpp");
    let math = module("math", "vector3", true);
    assert_eq!(header_location(&math).directory, "include/openbabel/math");
    assert_eq!(impl_location(&math).directory, "src/math");
    assert_eq!(impl_location(&math).file_name, "vector3.cpp");
}

#[test]
fn lookup_finds_first_file_at_a_place() {
    let mut tree = upstream();
    tree.push(file("src", "atom.cpp", "// second copy"));
    let at = impl_location(&module("", "atom", true));
    assert_eq!(find_file(&tree, &at), Some(String::from("// atom")));
    let missing = impl_location(&module("", "bond", true));
    assert_eq!(find_file(&tree, &missing), None);
}

#[test]
fn selection_copies_headers_and_sources() {
    let manifest = vec![
        module("", "atom", true),
        module("math", "vector3", true),
        module("", "lineend", false),
        module("", "rand", true),
        module("", "nothing", false),
    ];
    let w = select(&manifest, &upstream()).unwrap();
    assert_eq!(
        w,
        vec![
            file("include/openbabel", "atom.h", "class OBAtom;"),
            file("src", "atom.cpp", "// atom"),
            file("include/openbabel/math", "vector3.h", "class vector3;"),
            file("src/math", "vector3.cpp", "// vector3"),
            file("include/openbabel", "lineend.h", "// line ends"),
            file("src", "rand.cpp", "// rand"),
        ]
    );
}

#[test]
fn missing_source_is_a_configuration_error() {
    let manifest = vec![module("", "atom", true), module("", "lineend", true), module("", "gone", true)];
    assert_eq!(
        select(&manifest, &upstream()),
        Err(SelectError::MissingImplementation {
            directory: String::from("src"),
            file_name: String::from("lineend.cpp"),
        })
    );
}

#[test]
fn header_only_module_without_header_selects_nothing() {
    assert_eq!(select(&vec![module("", "absent", false)], &upstream()), Ok(Vec::new()));
    assert_eq!(select(&Vec::new(), &upstream()), Ok(Vec::new()));
}

#[test]
fn selecting_twice_gives_the_same_tree() {
    let manifest = vec![module("", "atom", true), module("math", "vector3", true), module("", "rand", true)];
    let first = select(&manifest, &upstream()).unwrap();
    let second = select(&manifest, &upstream()).unwrap();
    assert_eq!(first, second);
    let again = select(&manifest, &first).unwrap();
    assert_eq!(again, first);
}
