use govld::fs_buffer::FsBuffer;
use govld::manifest::{Manifest, ManifestImport, Patch, PatchType};
use govld::run::{commit, merge_edits, run_manifests, FileEdits, RunFailure};
use govld::try_patch;

fn op(pattern: &str, code: &str, patch_type: Option<PatchType>, imports: Option<Vec<ManifestImport>>) -> Patch {
    Patch { pattern: pattern.to_owned(), patch_type, imports, code: code.to_owned() }
}

fn manifest(file: &str, patch: Vec<Patch>) -> Manifest {
    Manifest { file: file.to_owned(), patch, optional: None, postprocess: None }
}

fn content(fsb: &FsBuffer, path: &str) -> String {
    fsb.get(path).unwrap()
}

const SOURCE: &str = "package p\n\nfunc F() int { return 1 }\n";

#[test]
fn scenario_shadow_and_append() {
    let mut fsb = FsBuffer::new("vendor".to_owned());
    fsb.update("a.go", SOURCE);
    let ms = vec![manifest("a.go", vec![op("function_declaration", "func F() int { return 2 }", None, None)])];
    let skipped = run_manifests(&mut fsb, &ms).unwrap();
    assert!(skipped.is_empty());
    assert_eq!(
        content(&fsb, "a.go"),
        "package p\n\nfunc F_replaced_by_function_decl() int { return 1 }\n\n// Patched by govld. DO NOT EDIT\nfunc F() int { return 2 }"
    );
}

#[test]
fn scenario_overwrite_and_append() {
    let mut fsb = FsBuffer::new("vendor".to_owned());
    fsb.update("a.go", SOURCE);
    let ms = vec![manifest(
        "a.go",
        vec![op("function_declaration", "func F() int { return 2 }", Some(PatchType::Overwrite), None)],
    )];
    run_manifests(&mut fsb, &ms).unwrap();
    assert_eq!(
        content(&fsb, "a.go"),
        "package p\n\n\n\n// Patched by govld. DO NOT EDIT\nfunc F() int { return 2 }"
    );
}

#[test]
fn scenario_optional_missing_file_is_skipped() {
    let mut fsb = FsBuffer::new("vendor".to_owned());
    let mut m = manifest("missing.go", vec![op("function_declaration", "func F() {}", None, None)]);
    m.optional = Some(true);
    let skipped = run_manifests(&mut fsb, &vec![m]).unwrap();
    assert_eq!(skipped, vec!["missing.go".to_owned()]);
    assert!(fsb.entries().is_empty());
}

#[test]
fn required_missing_file_is_an_error() {
    let mut fsb = FsBuffer::new("vendor".to_owned());
    let m = manifest("missing.go", vec![op("function_declaration", "func F() {}", None, None)]);
    let err = run_manifests(&mut fsb, &vec![m]).unwrap_err();
    assert_eq!(err.failure, RunFailure::MissingFile);
    assert_eq!(err.file, "missing.go");
}

#[test]
fn patch_failure_names_the_file() {
    let mut fsb = FsBuffer::new("vendor".to_owned());
    fsb.update("a.go", "func F() {}\n");
    let m = manifest("a.go", vec![op("function_declaration", "func F() {}", None, None)]);
    let err = run_manifests(&mut fsb, &vec![m]).unwrap_err();
    assert_eq!(err.failure, RunFailure::Patch(govld::patterns::PatchError::NoPackageClause));
    assert_eq!(err.file, "a.go");
}

#[test]
fn scenario_imports_of_two_manifests_merge() {
    let mut fsb = FsBuffer::new("vendor".to_owned());
    fsb.update("a.go", "package p\n\nfunc F() {}\nfunc G() {}\n");
    let first = manifest(
        "a.go",
        vec![op(
            "function_declaration",
            "func F() { fmt.Println() }",
            None,
            Some(vec![ManifestImport { alias: String::new(), path: "fmt".to_owned() }]),
        )],
    );
    let second = manifest(
        "a.go",
        vec![op(
            "function_declaration",
            "func G() { log.Println() }",
            None,
            Some(vec![ManifestImport { alias: "log".to_owned(), path: "log".to_owned() }]),
        )],
    );
    run_manifests(&mut fsb, &vec![first, second]).unwrap();
    let text = content(&fsb, "a.go");
    assert_eq!(
        text,
        "package p\n\n// Patched by govld. DO NOT EDIT\nimport (\n\t\"fmt\"\n\tlog \"log\"\n)\n\n\n\nfunc F_replaced_by_function_decl() {}\nfunc G_replaced_by_function_decl() {}\n\n// Patched by govld. DO NOT EDIT\nfunc F() { fmt.Println() }\n// Patched by govld. DO NOT EDIT\nfunc G() { log.Println() }"
    );
    assert_eq!(text.matches("import (").count(), 1);
}

#[test]
fn postprocess_runs_after_its_entry() {
    let mut fsb = FsBuffer::new("vendor".to_owned());
    fsb.update("a.go", SOURCE);
    fsb.update("b.go", "package q\n\nvar V = 1\n");
    let mut missing = manifest("c.go", vec![]);
    missing.optional = Some(true);
    let mut m = manifest("a.go", vec![op("function_declaration", "func F() int { return 2 }", None, None)]);
    m.postprocess = Some(vec![
        manifest("b.go", vec![op("variable_declaration", "var V = 2", None, None)]),
        missing,
    ]);
    let skipped = run_manifests(&mut fsb, &vec![m]).unwrap();
    assert_eq!(skipped, vec!["c.go".to_owned()]);
    assert_eq!(
        content(&fsb, "b.go"),
        "package q\n\nvar V_replaced_by_var_decl = 1\n\n// Patched by govld. DO NOT EDIT\nvar V = 2"
    );
}

#[test]
fn merge_keeps_the_first_safe_range() {
    let mut pending: Vec<FileEdits> = Vec::new();
    let m = manifest(
        "a.go",
        vec![op(
            "function_declaration",
            "func F() int { return 2 }",
            None,
            Some(vec![ManifestImport { alias: String::new(), path: "fmt".to_owned() }]),
        )],
    );
    let first = try_patch(SOURCE.to_owned(), &m).unwrap();
    merge_edits(&mut pending, "a.go", first);
    let second = try_patch("// doc\npackage p\n".to_owned(), &manifest("a.go", vec![])).unwrap();
    assert_eq!(second.safe_range, 15..16);
    merge_edits(&mut pending, "a.go", second);
    let third = try_patch(SOURCE.to_owned(), &m).unwrap();
    merge_edits(&mut pending, "b.go", third);
    assert_eq!(pending.len(), 2);
    assert_eq!(pending[0].safe_range, 8..9);
    assert_eq!(pending[0].imports, vec!["\"fmt\"".to_owned()]);
    assert_eq!(pending[0].patches.len(), 1);
    assert_eq!(pending[1].path, "b.go");
}

#[test]
fn import_block_off_a_char_boundary_is_an_error() {
    let mut fsb = FsBuffer::new("vendor".to_owned());
    fsb.update("a.go", "é");
    let pending = vec![FileEdits {
        path: "a.go".to_owned(),
        imports: vec!["\"fmt\"".to_owned()],
        patches: vec![],
        safe_range: 1..1,
    }];
    let err = commit(&mut fsb, &pending).unwrap_err();
    assert_eq!(err.failure, RunFailure::BadSafeRange);
    assert_eq!(err.file, "a.go");
}
