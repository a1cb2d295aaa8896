use motd::legacy::decode_legacy;
use motd::style::{color_of_code, color_of_name, Rgb};

fn rgb(r: u8, g: u8, b: u8) -> Rgb {
    Rgb { r, g, b }
}

#[test]
fn empty_input_yields_no_segments() {
    assert_eq!(decode_legacy("").len(), 0);
}

#[test]
fn plain_text_is_one_unstyled_segment() {
    let segs = decode_legacy("hello world");
    assert_eq!(segs.len(), 1);
    assert_eq!(segs[0].text, "hello world");
    assert_eq!(segs[0].color, None);
    assert!(!segs[0].styles.bold);
    assert!(!segs[0].styles.italic);
}

#[test]
fn color_code_styles_following_text() {
    let segs = decode_legacy("§aHello");
    assert_eq!(segs.len(), 1);
    assert_eq!(segs[0].text, "Hello");
    assert_eq!(segs[0].color, Some(rgb(85, 255, 85)));
}

#[test]
fn color_change_flushes_and_keeps_styles() {
    let segs = decode_legacy("§lBold§cStillBold");
    assert_eq!(segs.len(), 2);
    assert_eq!(segs[0].text, "Bold");
    assert_eq!(segs[0].color, None);
    assert!(segs[0].styles.bold);
    assert_eq!(segs[1].text, "StillBold");
    assert_eq!(segs[1].color, Some(rgb(255, 85, 85)));
    assert!(segs[1].styles.bold, "a color change must not clear styles");
}

#[test]
fn reset_clears_color_and_styles() {
    let segs = decode_legacy("§c§lred§rplain");
    assert_eq!(segs.len(), 2);
    assert_eq!(segs[0].text, "red");
    assert_eq!(segs[0].color, Some(rgb(255, 85, 85)));
    assert!(segs[0].styles.bold);
    assert_eq!(segs[1].text, "plain");
    assert_eq!(segs[1].color, None);
    assert!(!segs[1].styles.bold);
}

#[test]
fn unrecognized_code_stays_literal_text() {
    let segs = decode_legacy("§zkeep");
    assert_eq!(segs.len(), 1);
    assert_eq!(segs[0].text, "§zkeep");
    assert_eq!(segs[0].color, None);
}

#[test]
fn trailing_marker_stays_literal_text() {
    let segs = decode_legacy("abc§");
    assert_eq!(segs.len(), 1);
    assert_eq!(segs[0].text, "abc§");
}

#[test]
fn color_table_wins_over_style_table_on_shared_letters() {
    // The letters for strikethrough and underline double as extended colors.
    let segs = decode_legacy("§mredstone");
    assert_eq!(segs.len(), 1);
    assert_eq!(segs[0].color, Some(rgb(151, 22, 7)));
    assert!(!segs[0].styles.strikethrough);
    let segs = decode_legacy("§ncopper");
    assert_eq!(segs[0].color, Some(rgb(180, 104, 77)));
    assert!(!segs[0].styles.underline);
}

#[test]
fn decoding_preserves_text_without_control_pairs() {
    // Concatenating the decoded texts gives the input minus recognized codes.
    let segs = decode_legacy("§aHi§l there§r friend");
    let joined: String = segs.iter().map(|s| s.text.clone()).collect();
    assert_eq!(joined, "Hi there friend");
}

#[test]
fn obfuscated_italic_and_bold_toggles() {
    let segs = decode_legacy("§k§o§lx");
    assert_eq!(segs.len(), 1);
    assert!(segs[0].styles.obfuscated);
    assert!(segs[0].styles.italic);
    assert!(segs[0].styles.bold);
}

#[test]
fn full_standard_palette() {
    let expected = [
        ('0', (0, 0, 0)),
        ('1', (0, 0, 170)),
        ('2', (0, 170, 0)),
        ('3', (0, 170, 170)),
        ('4', (170, 0, 0)),
        ('5', (170, 0, 170)),
        ('6', (255, 170, 0)),
        ('7', (170, 170, 170)),
        ('8', (85, 85, 85)),
        ('9', (85, 85, 255)),
        ('a', (85, 255, 85)),
        ('b', (85, 255, 255)),
        ('c', (255, 85, 85)),
        ('d', (255, 85, 255)),
        ('e', (255, 255, 85)),
        ('f', (255, 255, 255)),
        ('g', (221, 214, 5)),
        ('h', (227, 212, 209)),
        ('i', (206, 202, 202)),
        ('j', (68, 58, 59)),
        ('m', (151, 22, 7)),
        ('n', (180, 104, 77)),
        ('p', (222, 177, 45)),
        ('q', (17, 160, 54)),
        ('s', (44, 186, 168)),
        ('t', (33, 73, 123)),
        ('u', (154, 92, 198)),
    ];
    for (c, (r, g, b)) in expected {
        assert_eq!(color_of_code(c), Some(rgb(r, g, b)), "code {c}");
    }
    assert_eq!(color_of_code('z'), None);
    assert_eq!(color_of_code('k'), None);
}

#[test]
fn name_palette_matches_code_palette() {
    assert_eq!(color_of_name("red"), color_of_code('c'));
    assert_eq!(color_of_name("minecoin_gold"), color_of_code('g'));
    assert_eq!(color_of_name("material_amethyst"), color_of_code('u'));
    assert_eq!(color_of_name("black"), Some(rgb(0, 0, 0)));
    assert_eq!(color_of_name("chartreuse"), None);
    assert_eq!(color_of_name(""), None);
}
