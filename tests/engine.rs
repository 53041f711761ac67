use govld::manifest::{Manifest, ManifestImport, Patch, PatchType};
use govld::patterns::{try_run, PatchError};
use govld::try_patch;

fn op(pattern: &str, code: &str, patch_type: Option<PatchType>, imports: Option<Vec<ManifestImport>>) -> Patch {
    Patch { pattern: pattern.to_owned(), patch_type, imports, code: code.to_owned() }
}

fn manifest(file: &str, patch: Vec<Patch>) -> Manifest {
    Manifest { file: file.to_owned(), patch, optional: None, postprocess: None }
}

const SOURCE: &str = "package p\n\nfunc F() int { return 1 }\n";

#[test]
fn shadow_renames_in_place() {
    let m = manifest("a.go", vec![op("function_declaration", "func F() int { return 2 }", None, None)]);
    let r = try_patch(SOURCE.to_owned(), &m).unwrap();
    assert_eq!(r.module_name, "p");
    assert_eq!(r.code, "package p\n\nfunc F_replaced_by_function_decl() int { return 1 }\n");
    assert_eq!(r.patches, vec!["func F() int { return 2 }".to_owned()]);
    assert!(r.imports.is_empty());
    assert_eq!(r.safe_range, 8..9);
}

#[test]
fn clone_is_the_default() {
    let m = manifest(
        "a.go",
        vec![op("function_declaration", "func F() int { return 2 }", Some(PatchType::Clone), None)],
    );
    let r = try_patch(SOURCE.to_owned(), &m).unwrap();
    assert_eq!(r.code, "package p\n\nfunc F_replaced_by_function_decl() int { return 1 }\n");
}

#[test]
fn overwrite_deletes_the_span() {
    let m = manifest(
        "a.go",
        vec![op("function_declaration", "func F() int { return 2 }", Some(PatchType::Overwrite), None)],
    );
    let r = try_patch(SOURCE.to_owned(), &m).unwrap();
    assert_eq!(r.code, "package p\n\n\n");
    assert_eq!(r.patches, vec!["func F() int { return 2 }".to_owned()]);
}

#[test]
fn unmatched_patch_is_still_queued() {
    let m = manifest("a.go", vec![op("function_declaration", "func G() {}", None, None)]);
    let r = try_patch(SOURCE.to_owned(), &m).unwrap();
    assert_eq!(r.code, SOURCE);
    assert_eq!(r.patches, vec!["func G() {}".to_owned()]);
}

#[test]
fn imports_are_serialized() {
    let imports = vec![
        ManifestImport { alias: String::new(), path: "fmt".to_owned() },
        ManifestImport { alias: "log".to_owned(), path: "log".to_owned() },
    ];
    let m = manifest("a.go", vec![op("function_declaration", "func F() int { return 2 }", None, Some(imports))]);
    let r = try_patch(SOURCE.to_owned(), &m).unwrap();
    assert_eq!(r.imports, vec!["\"fmt\"".to_owned(), "log \"log\"".to_owned()]);
}

#[test]
fn disjoint_operations_commute() {
    let code = "package p\n\nfunc F() {}\n\nfunc G(x int) {}\n";
    let f = op("function_declaration", "func F() { println() }", None, None);
    let g = op("function_declaration", "func G(x int) { println(x) }", Some(PatchType::Overwrite), None);
    let forward = try_patch(code.to_owned(), &manifest("a.go", vec![f.clone(), g.clone()])).unwrap();
    let backward = try_patch(code.to_owned(), &manifest("a.go", vec![g, f])).unwrap();
    assert_eq!(forward.code, backward.code);
    assert_eq!(forward.code, "package p\n\nfunc F_replaced_by_function_decl() {}\n\n\n");
}

#[test]
fn method_shadow_keeps_signature_and_body() {
    let code = "package p\n\nfunc (s *S) M(x int) error { return nil }\n";
    let m = manifest("a.go", vec![op("method_declaration", "func (r *S) M() {}", None, None)]);
    let r = try_patch(code.to_owned(), &m).unwrap();
    assert_eq!(r.code, "package p\n\nfunc (s *S) M_replaced_by_method_decl(x int) error { return nil }\n");
}

#[test]
fn method_with_other_receiver_is_not_touched() {
    let code = "package p\n\nfunc (s *T) M() {}\n";
    let m = manifest("a.go", vec![op("method_declaration", "func (s *S) M() {}", None, None)]);
    let r = try_patch(code.to_owned(), &m).unwrap();
    assert_eq!(r.code, code);
}

#[test]
fn struct_interface_var_const_shadow() {
    let code = "package p\n\ntype S struct {\n\tA int\n}\n\ntype I interface {\n\tM()\n}\n\nvar V = 1\n\nconst C int = 2\n";
    let ops = vec![
        op("struct_declaration", "type S struct {\n\tB int\n}", None, None),
        op("interface_declaration", "type I interface {\n\tN()\n}", None, None),
        op("variable_declaration", "var V = 3", None, None),
        op("const_declaration", "const C int = 4", None, None),
    ];
    let r = try_patch(code.to_owned(), &manifest("a.go", ops)).unwrap();
    assert_eq!(
        r.code,
        "package p\n\ntype S_replaced_by_struct_decl struct {\n\tA int\n}\n\ntype I_replaced_by_interface_decl interface {\n\tM()\n}\n\nvar V_replaced_by_var_decl = 1\n\nconst C_replaced_by_const_decl int = 2\n"
    );
}

#[test]
fn import_overwrite_removes_the_spec() {
    let code = "package p\n\nimport (\n\t\"fmt\"\n\t\"os\"\n)\n";
    let m = manifest(
        "a.go",
        vec![op("import_declaration", "import (\n\t\"os\"\n)", Some(PatchType::Overwrite), None)],
    );
    let r = try_patch(code.to_owned(), &m).unwrap();
    assert_eq!(r.code, "package p\n\nimport (\n\t\"fmt\"\n\t\n)\n");
}

#[test]
fn import_shadow_aliases_the_spec() {
    let code = "package p\n\nimport (\n\tf \"fmt\"\n\t\"os\"\n)\n";
    let ops = vec![
        op("import_declaration", "import (\n\t\"fmt\"\n)", None, None),
        op("import_declaration", "import (\n\t\"os\"\n)", None, None),
    ];
    let r = try_patch(code.to_owned(), &manifest("a.go", ops)).unwrap();
    assert_eq!(
        r.code,
        "package p\n\nimport (\n\tf_replaced_by_import_decl \"fmt\"\n\t_replaced_by_import_decl\"os\"\n)\n"
    );
}

#[test]
fn unknown_pattern_is_an_error() {
    let m = manifest("a.go", vec![op("module_declaration", "package q", None, None)]);
    assert_eq!(try_patch(SOURCE.to_owned(), &m).unwrap_err(), PatchError::UnknownPattern);
}

#[test]
fn fragment_without_declaration_is_an_error() {
    let m = manifest("a.go", vec![op("function_declaration", "var x = 1", None, None)]);
    assert_eq!(try_patch(SOURCE.to_owned(), &m).unwrap_err(), PatchError::NoDeclaration);
}

#[test]
fn source_without_package_is_an_error() {
    let m = manifest("a.go", vec![]);
    assert_eq!(try_patch("func F() {}\n".to_owned(), &m).unwrap_err(), PatchError::NoPackageClause);
}

#[test]
fn try_run_dispatches_by_tag() {
    let r = try_run("function_declaration", SOURCE.to_owned(), "func F() {}".to_owned(), None).unwrap();
    assert_eq!(r, Some("package p\n\nfunc F_replaced_by_function_decl() int { return 1 }\n".to_owned()));
    assert_eq!(
        try_run("nothing", SOURCE.to_owned(), "func F() {}".to_owned(), None).unwrap_err(),
        PatchError::UnknownPattern
    );
}

#[test]
fn patch_type_names_in_any_case() {
    assert_eq!(PatchType::parse("Overwrite"), Some(PatchType::Overwrite));
    assert_eq!(PatchType::parse("CLONE"), Some(PatchType::Clone));
    assert_eq!(PatchType::parse("shadow"), None);
    assert_eq!(PatchType::from_lowered_str("OVERWRITE"), None);
}
