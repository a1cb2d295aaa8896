use motd::format::{
    bedrock_motd_lines, game_mode_label, java_motd_lines, output_field_format, split_segments,
    trim_version, FieldKind,
};
use motd::numfmt::{i64_to_dec, u64_to_dec};
use motd::status::{BedrockStatus, GameMode, JavaStatus};
use motd::strutil::split_on;
use motd::style::{Rgb, StyleSet, StyledSegment};

fn rgb(r: u8, g: u8, b: u8) -> Rgb {
    Rgb { r, g, b }
}

fn no_styles() -> StyleSet {
    StyleSet {
        obfuscated: false,
        bold: false,
        strikethrough: false,
        underline: false,
        italic: false,
    }
}

fn seg(text: &str) -> StyledSegment {
    StyledSegment { text: text.to_string(), color: None, styles: no_styles() }
}

#[test]
fn labels_pad_to_ten_columns() {
    assert_eq!(output_field_format("Motd"), "      Motd");
    assert_eq!(output_field_format(""), "          ");
    // Four wide characters fill eight columns.
    assert_eq!(output_field_format("在线玩家"), "  在线玩家");
    // A label at ten columns or more is kept whole.
    assert_eq!(output_field_format("abcdefghij"), "abcdefghij");
    assert_eq!(output_field_format("abcdefghijk"), "abcdefghijk");
}

#[test]
fn short_versions_are_kept_and_long_ones_cut() {
    assert_eq!(trim_version("1.20.4"), "1.20.4");
    let long = "abcdefghijklmnopqrstuvwxyz0123456789";
    assert_eq!(trim_version(long), "abcdefghijklmnopqrstuvwxyz0123...");
}

#[test]
fn numbers_render_in_decimal() {
    assert_eq!(u64_to_dec(0), "0");
    assert_eq!(u64_to_dec(1234567890), "1234567890");
    assert_eq!(i64_to_dec(-42), "-42");
    assert_eq!(i64_to_dec(7), "7");
    assert_eq!(i64_to_dec(i64::MIN), "-9223372036854775808");
}

#[test]
fn splitting_on_a_separator_keeps_empty_pieces() {
    assert_eq!(split_on("a\nb", '\n'), vec!["a", "b"]);
    assert_eq!(split_on("a\n", '\n'), vec!["a", ""]);
    assert_eq!(split_on("", '\n'), vec![""]);
    assert_eq!(split_on("x", '\n'), vec!["x"]);
}

#[test]
fn segments_split_into_lines_and_keep_their_style() {
    let styled = StyledSegment {
        text: "one\ntwo".to_string(),
        color: Some(rgb(1, 2, 3)),
        styles: no_styles(),
    };
    let lines = split_segments(&vec![seg("head "), styled]);
    assert_eq!(lines.len(), 2);
    assert_eq!(lines[0].len(), 2);
    assert_eq!(lines[0][0].text, "head ");
    assert_eq!(lines[0][1].text, "one");
    assert_eq!(lines[0][1].color, Some(rgb(1, 2, 3)));
    assert_eq!(lines[1].len(), 1);
    assert_eq!(lines[1][0].text, "two");
    assert_eq!(lines[1][0].color, Some(rgb(1, 2, 3)));
}

#[test]
fn game_modes_have_their_labels() {
    assert_eq!(game_mode_label(GameMode::Survival), "生存");
    assert_eq!(game_mode_label(GameMode::Creative), "创造");
    assert_eq!(game_mode_label(GameMode::Hardcore), "硬核");
    assert_eq!(game_mode_label(GameMode::Spectator), "旁观");
    assert_eq!(game_mode_label(GameMode::Adventure), "冒险");
}

#[test]
fn java_report_lays_out_every_field_in_order() {
    let status = JavaStatus {
        game_version: "1.20.4".to_string(),
        protocol_version: 765,
        players_online: 5,
        players_maximum: 20,
        players: Some(vec!["alice".to_string(), "§abob".to_string()]),
        description: "{\"text\":\"hi\\nthere\"}".to_string(),
        map: Some("world".to_string()),
        game_mode: Some("Survival".to_string()),
        favicon: None,
    };
    let lines = java_motd_lines(&status);
    assert_eq!(lines.len(), 8);

    assert_eq!(lines[0].kind, FieldKind::Version);
    assert_eq!(lines[0].label, "    Java版");
    assert_eq!(lines[0].body.len(), 2);
    assert_eq!(lines[0].body[0].text, "1.20.4");
    assert_eq!(lines[0].body[1].text, "(765)");

    assert_eq!(lines[1].kind, FieldKind::Motd);
    assert_eq!(lines[1].label, "      Motd");
    assert_eq!(lines[1].body.len(), 1);
    assert_eq!(lines[1].body[0].text, "hi");
    assert_eq!(lines[2].kind, FieldKind::Motd);
    assert_eq!(lines[2].label, "          ");
    assert_eq!(lines[2].body[0].text, "there");

    assert_eq!(lines[3].kind, FieldKind::Players);
    assert_eq!(lines[3].body[0].text, "5 / 20");

    assert_eq!(lines[4].kind, FieldKind::MapName);
    assert_eq!(lines[4].body[0].text, "world");

    assert_eq!(lines[5].kind, FieldKind::GameMode);
    assert_eq!(lines[5].body[0].text, "Survival");

    assert_eq!(lines[6].kind, FieldKind::PlayerList);
    assert_eq!(lines[6].label, "  玩家列表");
    assert_eq!(lines[6].body[0].text, "alice");
    assert_eq!(lines[7].kind, FieldKind::PlayerList);
    assert_eq!(lines[7].label, "          ");
    assert_eq!(lines[7].body[0].text, "bob");
    assert_eq!(lines[7].body[0].color, Some(rgb(85, 255, 85)));
}

#[test]
fn java_report_with_a_bad_description_shows_the_placeholder_line() {
    let status = JavaStatus {
        game_version: "1.8".to_string(),
        protocol_version: 47,
        players_online: 0,
        players_maximum: 10,
        players: None,
        description: "oops".to_string(),
        map: None,
        game_mode: None,
        favicon: None,
    };
    let lines = java_motd_lines(&status);
    assert_eq!(lines.len(), 3);
    assert_eq!(lines[1].kind, FieldKind::Motd);
    assert_eq!(lines[1].body[0].text, "显示失败");
}

#[test]
fn bedrock_report_decodes_all_but_the_first_player_name() {
    let status = BedrockStatus {
        version_name: "1.20.40".to_string(),
        protocol_version: "622".to_string(),
        name: "§bBlue server".to_string(),
        players_online: 2,
        players_maximum: 10,
        map: Some("§eYellow map".to_string()),
        game_mode: Some(GameMode::Creative),
        players: Some(vec!["§afirst".to_string(), "§asecond".to_string()]),
    };
    let lines = bedrock_motd_lines(&status);
    assert_eq!(lines.len(), 7);
    assert_eq!(lines[0].kind, FieldKind::Version);
    assert_eq!(lines[0].label, "    基岩版");
    assert_eq!(lines[0].body[0].text, "1.20.40");
    assert_eq!(lines[0].body[1].text, "(622)");
    assert_eq!(lines[1].kind, FieldKind::Motd);
    assert_eq!(lines[1].body[0].text, "Blue server");
    assert_eq!(lines[1].body[0].color, Some(rgb(85, 255, 255)));
    assert_eq!(lines[2].body[0].text, "2 / 10");
    assert_eq!(lines[3].kind, FieldKind::MapName);
    assert_eq!(lines[3].body[0].text, "Yellow map");
    assert_eq!(lines[3].body[0].color, Some(rgb(255, 255, 85)));
    assert_eq!(lines[4].body[0].text, "创造");
    // The first listed name is shown verbatim; later ones are decoded.
    assert_eq!(lines[5].body[0].text, "§afirst");
    assert_eq!(lines[5].body[0].color, None);
    assert_eq!(lines[6].body[0].text, "second");
    assert_eq!(lines[6].body[0].color, Some(rgb(85, 255, 85)));
}
