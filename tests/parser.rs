use govld::patch::parser::Parser;
use govld::patterns::func_decl::FunctionDeclPattern;
use govld::patterns::method_decl::MethodDeclPattern;
use govld::patterns::module_decl::ModuleDeclPattern;
use govld::patterns::Pattern;

const TEST_PARSER_GO: &str =
    "package main\n\nfunc internal() {\n\tprintln(\"Hello, Foo!\")\n}\nfunc internal2() {\n\tprintln(\"Hello, Foo!\")\n}\n";

#[test]
fn test_parser() {
    let source = TEST_PARSER_GO;
    let parser = Parser::<FunctionDeclPattern>::new(source).unwrap();
    let next = parser.find_first_match();

    assert_eq!(
        next,
        Some(FunctionDeclPattern {
            name: "internal".to_owned(),
            param_t: "()".to_owned(),
            return_t: String::new(),
            fn_itself: "func internal() {\n\tprintln(\"Hello, Foo!\")\n}".to_owned(),
        })
    );
}

#[test]
fn test_find_and_replace() {
    let source = TEST_PARSER_GO;

    let patch: &str = r#"
func internal() {
println("Hello, World!")
}
        "#;

    let patch_parser = Parser::<FunctionDeclPattern>::new(patch).unwrap();
    let patch_target = patch_parser.find_first_match().unwrap();

    assert_eq!(
        patch_target,
        FunctionDeclPattern {
            name: "internal".to_owned(),
            param_t: "()".to_owned(),
            return_t: String::new(),
            fn_itself: "func internal() {\nprintln(\"Hello, World!\")\n}".to_owned(),
        }
    );

    let source_parser = Parser::<FunctionDeclPattern>::new(source).unwrap();
    let result = source_parser.find_and_patch(&patch_target);

    let expected = "package main\n\nfunc internal_replaced_by_function_decl() {\n\tprintln(\"Hello, Foo!\")\n}\nfunc internal2() {\n\tprintln(\"Hello, Foo!\")\n}\n";
    assert_eq!(result, Some(expected.to_owned()))
}

#[test]
fn test_find_and_delete() {
    let source = TEST_PARSER_GO;

    let patch: &str = r#"func internal() {}"#;

    let patch_parser = Parser::<FunctionDeclPattern>::new(patch).unwrap();
    let patch_target = patch_parser.find_first_match().unwrap();

    assert_eq!(
        patch_target,
        FunctionDeclPattern {
            name: "internal".to_owned(),
            param_t: "()".to_owned(),
            return_t: String::new(),
            fn_itself: "func internal() {}".to_owned(),
        }
    );

    let source_parser = Parser::<FunctionDeclPattern>::new(source).unwrap();
    let result = source_parser.find_and_delete(&patch_target);

    let expected = "package main\n\n\nfunc internal2() {\n\tprintln(\"Hello, Foo!\")\n}\n";
    assert_eq!(result, Some(expected.to_owned()))
}

#[test]
fn second_function_is_found_and_shadowed() {
    let target = Parser::<FunctionDeclPattern>::new("func internal2() {}")
        .unwrap()
        .find_first_match()
        .unwrap();
    let result = Parser::<FunctionDeclPattern>::new(TEST_PARSER_GO).unwrap().find_and_patch(&target);
    let expected = "package main\n\nfunc internal() {\n\tprintln(\"Hello, Foo!\")\n}\nfunc internal2_replaced_by_function_decl() {\n\tprintln(\"Hello, Foo!\")\n}\n";
    assert_eq!(result, Some(expected.to_owned()));
}

#[test]
fn missing_target_gives_none() {
    let target = Parser::<FunctionDeclPattern>::new("func other() {}")
        .unwrap()
        .find_first_match()
        .unwrap();
    let parser = Parser::<FunctionDeclPattern>::new(TEST_PARSER_GO).unwrap();
    assert_eq!(parser.find_and_patch(&target), None);
    assert_eq!(parser.find_and_delete(&target), None);
}

#[test]
fn fragment_without_declaration_has_no_first_match() {
    let parser = Parser::<FunctionDeclPattern>::new("var x = 1").unwrap();
    assert_eq!(parser.find_first_match(), None);
}

#[test]
fn result_type_is_captured() {
    let parser = Parser::<FunctionDeclPattern>::new("func F(x int) error { return nil }").unwrap();
    let f = parser.find_first_match().unwrap();
    assert_eq!(f.name, "F");
    assert_eq!(f.param_t, "(x int)");
    assert_eq!(f.return_t, "error");
}

#[test]
fn package_name_and_safe_range() {
    let parser = Parser::<ModuleDeclPattern>::new("package main\n\nfunc F() {}\n").unwrap();
    assert_eq!(parser.find_first_match().unwrap().name, "main");
    assert_eq!(parser.find_next_line(), Some(8..12));
}

#[test]
fn safe_range_lies_between_clause_and_first_declaration() {
    let code = "// Package p does things.\npackage p\n\n// F is a function.\nfunc F() {}\n";
    let parser = Parser::<ModuleDeclPattern>::new(code).unwrap();
    let range = parser.find_next_line().unwrap();
    assert_eq!(&code[range.clone()], "p");
    let clause_end = code.find("package p").unwrap() + "package p".len();
    let first_decl = code.find("// F is").unwrap();
    assert!(range.end >= clause_end);
    assert!(range.end < first_decl);
    assert!(code[range.end..first_decl].trim().is_empty());
}

#[test]
fn method_identity_ignores_receiver_name_and_signature() {
    let a = Parser::<MethodDeclPattern>::new("func (s *Server) Run(x int) error { return nil }")
        .unwrap()
        .find_first_match()
        .unwrap();
    let b = Parser::<MethodDeclPattern>::new("func (*Server) Run() {}")
        .unwrap()
        .find_first_match()
        .unwrap();
    let c = Parser::<MethodDeclPattern>::new("func (s Server) Run() {}")
        .unwrap()
        .find_first_match()
        .unwrap();
    assert_eq!(a.receiver, "*Server");
    assert!(a.is_match(&a));
    assert!(a.is_match(&b));
    assert!(b.is_match(&a));
    assert!(!a.is_match(&c));
}

#[test]
fn function_identity_is_the_name() {
    let a = Parser::<FunctionDeclPattern>::new("func Foo(x int) error { return nil }")
        .unwrap()
        .find_first_match()
        .unwrap();
    let b = Parser::<FunctionDeclPattern>::new("func Foo() {}")
        .unwrap()
        .find_first_match()
        .unwrap();
    assert!(a.is_match(&b));
    assert!(b.is_match(&a));
    assert!(a.is_match(&a));
    assert_eq!(a.ident(), "Foo");
}
