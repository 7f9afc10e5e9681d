use cs2_webradar_extreme::engine::{trims_to_empty, weapon_factor_tenths};
use cs2_webradar_extreme::text::{eq_ascii_lowercase, option_u32_debug, split_pieces, Separator};

#[test]
fn blank_map_names_trim_to_empty() {
    assert!(trims_to_empty(""));
    assert!(trims_to_empty(" \t\r\n"));
    assert!(trims_to_empty("\u{3000}\u{a0}\u{2028}"));
    assert!(!trims_to_empty(" de_dust2 "));
    assert!(!trims_to_empty("\u{200b}"));
}

#[test]
fn weapon_factor_ignores_ascii_case() {
    assert_eq!(weapon_factor_tenths(Some("WEAPON_AWP")), 20);
    assert_eq!(weapon_factor_tenths(Some("weapon_ssg08")), 17);
    assert_eq!(weapon_factor_tenths(Some("Weapon_M4A1_Silencer")), 15);
    assert_eq!(weapon_factor_tenths(Some("weapon_revolver")), 13);
    assert_eq!(weapon_factor_tenths(Some("weapon_usp_silencer")), 11);
    assert_eq!(weapon_factor_tenths(Some("weapon_knife")), 10);
    assert_eq!(weapon_factor_tenths(None), 10);
}

#[test]
fn option_debug_matches_std() {
    assert_eq!(option_u32_debug(None), format!("{:?}", None::<u32>));
    assert_eq!(option_u32_debug(Some(15000)), format!("{:?}", Some(15000u32)));
    assert_eq!(option_u32_debug(Some(0)), "Some(0)");
}

#[test]
fn split_pieces_keeps_empty_pieces() {
    let parts = split_pieces("a//b/", Separator::Char('/'));
    assert_eq!(parts, vec!["a", "", "b", ""]);
    assert_eq!(split_pieces("", Separator::Char('/')), vec![""]);
}

#[test]
fn whitespace_separator_agrees_with_char_is_whitespace() {
    for code in 0u32..0x3100 {
        if let Some(c) = char::from_u32(code) {
            assert_eq!(Separator::Whitespace.is_cut(c), c.is_whitespace(), "{:#x}", code);
        }
    }
}

#[test]
fn ascii_lowering_agrees_with_to_ascii_lowercase() {
    for code in 0u32..0x250 {
        if let Some(c) = char::from_u32(code) {
            let s = c.to_string();
            let lowered = c.to_ascii_lowercase().to_string();
            assert!(eq_ascii_lowercase(&s, &lowered), "{:#x}", code);
        }
    }
    assert!(eq_ascii_lowercase("WEAPON_AWP", "weapon_awp"));
    assert!(!eq_ascii_lowercase("WEAPON_ÀWP", "weapon_àwp"));
}

#[test]
fn decimal_text_agrees_with_to_string() {
    for n in [0u32, 7, 10, 99, 100, 4173, 65535, u32::MAX] {
        assert_eq!(option_u32_debug(Some(n)), format!("{:?}", Some(n)));
    }
    assert_eq!(option_u32_debug(None), "None");
}
