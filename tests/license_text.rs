use file_header::license::spdx::{
    decimal_string, LicenseText, MitTokens, NoTokens, SpdxLicense, YearCopyrightOwnerValue,
};

#[test]
fn catalog_knows_spdx_ids() {
    let mit = LicenseText::from_spdx_id("MIT").unwrap();
    assert!(mit.header.is_none());
    assert!(mit.text.starts_with("MIT License"));
    assert_eq!(mit.text, mit.base());
    let apache = LicenseText::from_spdx_id("Apache-2.0").unwrap();
    assert!(apache.header.is_some());
    assert!(apache.base().starts_with("Copyright [yyyy]"));
    assert!(LicenseText::from_spdx_id("not-a-license").is_none());
}

#[test]
fn years_are_written_in_decimal() {
    assert_eq!("0", decimal_string(0));
    assert_eq!("7", decimal_string(7));
    assert_eq!("2023", decimal_string(2023));
    assert_eq!("4294967295", decimal_string(u32::MAX));
}

#[test]
fn license_without_tokens_keeps_its_text() {
    let text = LicenseText { text: "full <year>".to_string(), header: None };
    let header = SpdxLicense::<NoTokens>::new(text, "full".to_string(), 3).build_header(());
    assert_eq!("full <year>", header.text());
    assert!(header.header_present(b"x\nfull\n").unwrap());
    assert!(!header.header_present(b"a\nb\nc\nfull\n").unwrap());
}

#[test]
fn only_the_first_token_is_replaced() {
    let text = LicenseText { text: "<year> <year> <copyright holders>".to_string(), header: None };
    let header = SpdxLicense::<MitTokens>::new(text, "x".to_string(), 1)
        .build_header(YearCopyrightOwnerValue::new(1999, "Me".to_string()));
    assert_eq!("1999 <year> Me", header.text());
}
