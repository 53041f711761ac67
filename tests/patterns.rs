use govld::patch::parser::Parser;
use govld::patterns::const_decl::ConstDeclPattern;
use govld::patterns::import_decl::ImportDeclPattern;
use govld::patterns::interface_decl::InterfaceDeclPattern;
use govld::patterns::method_decl_without_receiver_name::MethodDeclPatternWithoutReceiverName;
use govld::patterns::struct_decl::StructDeclPattern;
use govld::patterns::variable_decl::VariableDeclPattern;
use govld::patterns::Pattern;

#[test]
fn receiver_without_name() {
    let p = Parser::<MethodDeclPatternWithoutReceiverName>::new("package p\n\nfunc (*S) M(x int) error { return nil }\n")
        .unwrap()
        .find_first_match()
        .unwrap();
    assert_eq!(
        p,
        MethodDeclPatternWithoutReceiverName {
            receiver_name: "*S".to_owned(),
            name: "M".to_owned(),
            param_t: "(x int)".to_owned(),
            return_t: "error".to_owned(),
        }
    );
    let named = Parser::<MethodDeclPatternWithoutReceiverName>::new("package p\n\nfunc (s *S) M() {}\n").unwrap();
    assert_eq!(named.find_first_match(), None);
}

#[test]
fn struct_members_and_identity() {
    let code = "package p\n\ntype S struct {\n\tA int\n}\n";
    let s = Parser::<StructDeclPattern>::new(code).unwrap().find_first_match().unwrap();
    assert_eq!(s.name, "S");
    assert_eq!(s.fields, vec!["A".to_owned()]);
    assert_eq!(s.struct_itself, "type S struct {\n\tA int\n}");
    let other = Parser::<StructDeclPattern>::new("type S struct {}").unwrap().find_first_match().unwrap();
    assert!(s.is_match(&other));
}

#[test]
fn interface_members() {
    let code = "package p\n\ntype I interface {\n\tM()\n}\n";
    let i = Parser::<InterfaceDeclPattern>::new(code).unwrap().find_first_match().unwrap();
    assert_eq!(i.name, "I");
    assert_eq!(i.fields, vec!["M".to_owned()]);
}

#[test]
fn const_type_may_be_absent() {
    let typed = Parser::<ConstDeclPattern>::new("package p\n\nconst C int = 1\n")
        .unwrap()
        .find_first_match()
        .unwrap();
    assert_eq!(typed.const_name, "C");
    assert_eq!(typed.const_type, "int");
    let untyped = Parser::<ConstDeclPattern>::new("package p\n\nconst C = 1\n")
        .unwrap()
        .find_first_match()
        .unwrap();
    assert_eq!(untyped.const_type, "");
    assert!(typed.is_match(&untyped));
}

#[test]
fn variable_identity_and_delete() {
    let code = "package p\n\nvar V = 1\nvar W = 2\n";
    let target = Parser::<VariableDeclPattern>::new("var W = 3").unwrap().find_first_match().unwrap();
    assert_eq!(target.ident(), "W");
    let out = Parser::<VariableDeclPattern>::new(code).unwrap().find_and_delete(&target);
    assert_eq!(out, Some("package p\n\nvar V = 1\n\n".to_owned()));
}

#[test]
fn import_alias_is_optional() {
    let code = "package p\n\nimport (\n\tf \"fmt\"\n)\n";
    let i = Parser::<ImportDeclPattern>::new(code).unwrap().find_first_match().unwrap();
    assert_eq!(i.import_name, "f");
    assert_eq!(i.import_path, "\"fmt\"");
    assert_eq!(i.import_spec, "f \"fmt\"");
    let plain = Parser::<ImportDeclPattern>::new("import (\n\t\"fmt\"\n)").unwrap().find_first_match().unwrap();
    assert_eq!(plain.import_name, "");
    assert!(i.is_match(&plain));
    assert_eq!(plain.ident(), "\"fmt\"");
}
