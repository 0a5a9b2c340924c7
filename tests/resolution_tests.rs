use image_fetch::{parse_count, resolve_resolution, setup_resolutions, trim_answer, validate_resolution_choice, InputError};

#[test]
fn every_listed_name_resolves_in_any_case() {
    let cases: Vec<(&str, u32, u32)> = vec![
        ("FHD", 1920, 1080),
        ("qhd", 2560, 1440),
        ("4k", 3840, 2160),
        ("fhd vertical", 1080, 1920),
        ("QHD VERTICAL", 1440, 2560),
        ("4K Vertical", 2160, 3840),
    ];
    for (name, w, h) in cases {
        let r = resolve_resolution(name).ok().expect("listed name");
        assert_eq!((r.width, r.height), (w, h), "{}", name);
    }
}

#[test]
fn unknown_resolution_names_the_input() {
    for name in ["8K", "", "fhd ", "FHDVertical", "Vertical"] {
        match resolve_resolution(name) {
            Err(InputError::InvalidResolution { input }) => assert_eq!(input, name),
            _ => panic!("{} should be rejected", name),
        }
    }
}

#[test]
fn table_holds_six_entries_with_labels() {
    let table = setup_resolutions();
    assert_eq!(table.len(), 6);
    assert_eq!(table[0].0, "FHD");
    assert_eq!(table[0].1.description, "Full HD (16:9 aspect ratio)");
    assert_eq!(table[5].0, "4K Vertical");
    assert_eq!((table[5].1.width, table[5].1.height), (2160, 3840));
    assert_eq!(table[5].1.description, "4K Ultra HD Vertical (9:16 aspect ratio)");
}

#[test]
fn lookup_returns_the_table_entry() {
    let table = setup_resolutions();
    let r = validate_resolution_choice(&table, "Qhd").ok().expect("known");
    assert_eq!(r.description, "Quad HD (16:9 aspect ratio)");
    assert!(validate_resolution_choice(&table, "UHD").is_err());
}

#[test]
fn counts_parse_as_decimal() {
    assert!(matches!(parse_count("0"), Ok(0)));
    assert!(matches!(parse_count("12"), Ok(12)));
    assert!(matches!(parse_count("+7"), Ok(7)));
    assert!(matches!(parse_count("007"), Ok(7)));
    let max = usize::MAX.to_string();
    assert!(matches!(parse_count(&max), Ok(n) if n == usize::MAX));
}

#[test]
fn bad_counts_are_rejected_with_the_input() {
    let too_big = format!("{}0", usize::MAX);
    for text in ["", "+", "-1", "abc", "1.5", "3 ", "++3", too_big.as_str()] {
        match parse_count(text) {
            Err(InputError::InvalidCount { input }) => assert_eq!(input, text),
            _ => panic!("{:?} should be rejected", text),
        }
    }
}

#[test]
fn answers_lose_surrounding_whitespace() {
    assert_eq!(trim_answer("  fhd vertical \n"), "fhd vertical");
    assert_eq!(trim_answer("3\r\n"), "3");
    assert_eq!(trim_answer("\t\u{A0} y \u{3000}"), "y");
    assert_eq!(trim_answer(" \n\t "), "");
    assert_eq!(trim_answer(""), "");
    assert_eq!(trim_answer("a b"), "a b");
    assert!(matches!(parse_count(&trim_answer("12\n")), Ok(12)));
    assert!(resolve_resolution(&trim_answer(" 4k\n")).is_ok());
}
