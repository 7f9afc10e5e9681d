use cs2_webradar_extreme::signatures::{extract_offsets, parse_pattern, scan_pattern};

#[test]
fn extracts_signature_offsets_from_binary() {
    let signature = [0x48, 0x8B, 0x0D, 0xAA, 0xBB, 0xCC, 0xDD, 0x48, 0x85, 0xC9];
    let mut binary = vec![0x90; 200];
    binary[50..60].copy_from_slice(&signature);

    let offsets = extract_offsets(Some(binary.as_slice()));
    assert_eq!(offsets.get("dwGameEntitySystem"), Some(&50));
}

#[test]
fn unmatched_signatures_are_left_out() {
    let signature = [0x48, 0x8B, 0x0D, 0xAA, 0xBB, 0xCC, 0xDD, 0x48, 0x85, 0xC9];
    let mut binary = vec![0x90; 200];
    binary[50..60].copy_from_slice(&signature);

    let offsets = extract_offsets(Some(binary.as_slice()));
    assert_eq!(offsets.len(), 1);
    assert_eq!(offsets.get("dwViewMatrix"), None);
}

#[test]
fn first_of_two_matches_is_recorded() {
    let signature = [0x48, 0x89, 0x05, 0x01, 0x02, 0x03, 0x04, 0x48, 0x8D, 0x85];
    let mut binary = vec![0x00; 64];
    binary[40..50].copy_from_slice(&signature);
    binary[7..17].copy_from_slice(&signature);

    let offsets = extract_offsets(Some(binary.as_slice()));
    assert_eq!(offsets.get("dwLocalPlayerPawn"), Some(&7));
}

#[test]
fn offsets_without_binary_are_zero() {
    let offsets = extract_offsets(None);
    assert_eq!(offsets.len(), 4);
    for name in ["dwGameEntitySystem", "dwViewMatrix", "dwLocalPlayerPawn", "dwPlantedC4"] {
        assert_eq!(offsets.get(name), Some(&0));
    }
}

#[test]
fn parse_pattern_reads_tokens_and_wildcards() {
    let parsed = parse_pattern("  48 8b\t??  zz +7f 100 ff\u{3000}0A ");
    assert_eq!(
        parsed,
        vec![Some(0x48), Some(0x8b), None, None, Some(0x7f), None, Some(0xff), Some(0x0a)]
    );
    assert_eq!(parse_pattern(""), Vec::<Option<u8>>::new());
    assert_eq!(parse_pattern("+"), vec![None]);
}

#[test]
fn scan_pattern_finds_first_window() {
    let binary = [1u8, 2, 3, 1, 2, 3];
    assert_eq!(scan_pattern(&binary, &[Some(2), None]), Some(1));
    assert_eq!(scan_pattern(&binary, &[Some(3), Some(1), Some(2), Some(3)]), Some(2));
    assert_eq!(scan_pattern(&binary, &[]), None);
    assert_eq!(scan_pattern(&binary[..2], &[Some(1), Some(2), Some(3)]), None);
    assert_eq!(scan_pattern(&binary, &[Some(9)]), None);
    assert_eq!(scan_pattern(&binary, &[None, None, None, None, None, None]), Some(0));
}

#[test]
fn pattern_tokens_read_as_from_str_radix_does() {
    let tokens = ["48", "8b", "??", "+ff", "100", "zz", "-1", "0FF", "+", "000000a", "Ab", "٣"];
    let parsed = parse_pattern(&tokens.join(" "));
    let expected: Vec<Option<u8>> = tokens
        .iter()
        .map(|t| if *t == "??" { None } else { u8::from_str_radix(t, 16).ok() })
        .collect();
    assert_eq!(parsed, expected);
    assert_eq!(
        parsed,
        vec![Some(0x48), Some(0x8b), None, Some(0xff), None, None, None, Some(0xff), None, Some(0x0a), Some(0xab), None]
    );
}
