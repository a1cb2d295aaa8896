use motd::style::Rgb;
use motd::tree::{decode_java_description, placeholder};

fn rgb(r: u8, g: u8, b: u8) -> Rgb {
    Rgb { r, g, b }
}

#[test]
fn malformed_json_yields_the_placeholder() {
    let segs = decode_java_description("this is not json");
    assert_eq!(segs.len(), 1);
    let p = placeholder();
    assert_eq!(segs[0].text, p.text);
    assert_eq!(segs[0].color, p.color);
    assert_eq!(segs[0].styles, p.styles);
    assert_eq!(p.text, "显示失败");
    assert!(p.styles.bold);
}

#[test]
fn top_level_string_payload_yields_the_placeholder() {
    let segs = decode_java_description("\"just a string\"");
    assert_eq!(segs.len(), 1);
    assert_eq!(segs[0].text, "显示失败");
}

#[test]
fn missing_text_field_yields_the_placeholder() {
    let segs = decode_java_description("{\"color\":\"red\"}");
    assert_eq!(segs.len(), 1);
    assert_eq!(segs[0].text, "显示失败");
}

#[test]
fn plain_object_decodes_its_text_through_the_legacy_path() {
    let segs = decode_java_description("{\"text\":\"§bhello\"}");
    assert_eq!(segs.len(), 1);
    assert_eq!(segs[0].text, "hello");
    assert_eq!(segs[0].color, Some(rgb(85, 255, 255)));
}

#[test]
fn extra_children_come_before_the_top_level_text() {
    let segs = decode_java_description(
        "{\"text\":\"tail\",\"extra\":[{\"text\":\"head\",\"color\":\"red\",\"bold\":true}]}",
    );
    assert_eq!(segs.len(), 2);
    assert_eq!(segs[0].text, "head");
    assert_eq!(segs[0].color, Some(rgb(255, 85, 85)));
    assert!(segs[0].styles.bold);
    assert!(!segs[0].styles.italic);
    assert_eq!(segs[1].text, "tail");
    assert_eq!(segs[1].color, None);
}

#[test]
fn string_entries_normalize_like_text_objects() {
    let with_strings = decode_java_description("{\"text\":\"\",\"extra\":[\"a\",\"b\"]}");
    let with_objects =
        decode_java_description("{\"text\":\"\",\"extra\":[{\"text\":\"a\"},{\"text\":\"b\"}]}");
    assert_eq!(with_strings.len(), with_objects.len());
    for (s, o) in with_strings.iter().zip(with_objects.iter()) {
        assert_eq!(s.text, o.text);
        assert_eq!(s.color, o.color);
        assert_eq!(s.styles, o.styles);
    }
    assert_eq!(with_strings.len(), 2);
    assert_eq!(with_strings[0].text, "a");
    assert_eq!(with_strings[1].text, "b");
}

#[test]
fn no_attribute_leaks_from_parent_to_child() {
    let segs = decode_java_description(
        "{\"text\":\"\",\"extra\":[{\"text\":\"p\",\"color\":\"red\",\"bold\":true,\"extra\":[{\"text\":\"c\"}]}]}",
    );
    assert_eq!(segs.len(), 2);
    assert_eq!(segs[0].text, "p");
    assert_eq!(segs[0].color, Some(rgb(255, 85, 85)));
    assert!(segs[0].styles.bold);
    assert_eq!(segs[1].text, "c");
    assert_eq!(segs[1].color, None, "a child must not inherit its parent's color");
    assert!(!segs[1].styles.bold, "a child must not inherit its parent's bold");
}

#[test]
fn nested_string_entries_are_promoted_too() {
    let segs =
        decode_java_description("{\"text\":\"t\",\"extra\":[{\"text\":\"a\",\"extra\":[\"b\"]}]}");
    assert_eq!(segs.len(), 3);
    assert_eq!(segs[0].text, "a");
    assert_eq!(segs[1].text, "b");
    assert_eq!(segs[2].text, "t");
}

#[test]
fn unrecognized_color_name_stays_unset() {
    let segs =
        decode_java_description("{\"text\":\"\",\"extra\":[{\"text\":\"x\",\"color\":\"mauve\"}]}");
    assert_eq!(segs.len(), 1);
    assert_eq!(segs[0].color, None);
}

#[test]
fn null_optional_fields_read_as_absent() {
    let segs = decode_java_description(
        "{\"text\":\"\",\"extra\":[{\"text\":\"x\",\"color\":null,\"bold\":null,\"italic\":null,\"extra\":null}]}",
    );
    assert_eq!(segs.len(), 1);
    assert_eq!(segs[0].text, "x");
    assert_eq!(segs[0].color, None);
    assert!(!segs[0].styles.bold);
}

#[test]
fn wrongly_typed_fields_fail_the_whole_payload() {
    // A numeric entry in `extra` types as no node.
    let segs = decode_java_description("{\"text\":\"\",\"extra\":[7]}");
    assert_eq!(segs.len(), 1);
    assert_eq!(segs[0].text, "显示失败");
    // A non-array `extra` fails too.
    let segs = decode_java_description("{\"text\":\"\",\"extra\":\"nope\"}");
    assert_eq!(segs.len(), 1);
    assert_eq!(segs[0].text, "显示失败");
    // A boolean color fails.
    let segs = decode_java_description("{\"text\":\"\",\"color\":true}");
    assert_eq!(segs.len(), 1);
    assert_eq!(segs[0].text, "显示失败");
}

#[test]
fn bold_false_sets_no_flag() {
    let segs = decode_java_description(
        "{\"text\":\"\",\"extra\":[{\"text\":\"x\",\"bold\":false,\"italic\":true}]}",
    );
    assert_eq!(segs.len(), 1);
    assert!(!segs[0].styles.bold);
    assert!(segs[0].styles.italic);
}

#[test]
fn unknown_fields_are_ignored() {
    let segs = decode_java_description("{\"text\":\"ok\",\"clickEvent\":{\"action\":\"x\"}}");
    assert_eq!(segs.len(), 1);
    assert_eq!(segs[0].text, "ok");
}
