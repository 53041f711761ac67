use govld::cli::PatchType;

#[test]
fn vendor_mode_from_argument() {
    assert_eq!(PatchType::from_arg("", false), Ok(PatchType::NoVendor));
    assert_eq!(PatchType::from_arg("vendor", false), Ok(PatchType::CreateVendor));
    assert_eq!(PatchType::from_arg("./third_party", true), Ok(PatchType::CustomDir("./third_party".to_owned())));
    assert_eq!(
        PatchType::from_arg("./nowhere", false),
        Err("./nowhere is not a directory".to_owned())
    );
}

#[test]
fn vendor_mode_as_argument() {
    assert_eq!(PatchType::NoVendor.as_arg(), "");
    assert_eq!(PatchType::CreateVendor.as_arg(), "vendor");
    assert_eq!(PatchType::CustomDir("d".to_owned()).as_arg(), "d");
}
