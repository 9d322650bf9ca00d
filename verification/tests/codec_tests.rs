use neko::items::{item_of_json, item_to_json, Item, Role};
use neko::json::{parse_json_text, write_json_text};

fn roundtrip(item: &Item) -> Item {
    let j = item_to_json(item);
    let text = write_json_text(&j);
    let parsed = parse_json_text(&text).expect("line parses");
    item_of_json(&parsed).expect("item decodes")
}

#[test]
fn message_roundtrips_through_text() {
    let item = Item::Message { role: Role::User, content: "say \"hi\"\nplease".to_string() };
    match roundtrip(&item) {
        Item::Message { role, content } => {
            assert_eq!(role, Role::User);
            assert_eq!(content, "say \"hi\"\nplease");
        },
        _ => panic!("wrong variant"),
    }
}

#[test]
fn function_call_roundtrips_through_text() {
    let item = Item::FunctionCall {
        id: "fc_1".to_string(),
        call_id: "call_1".to_string(),
        name: "echo".to_string(),
        arguments: "{\"x\":\"hi\"}".to_string(),
    };
    match roundtrip(&item) {
        Item::FunctionCall { id, call_id, name, arguments } => {
            assert_eq!(id, "fc_1");
            assert_eq!(call_id, "call_1");
            assert_eq!(name, "echo");
            assert_eq!(arguments, "{\"x\":\"hi\"}");
        },
        _ => panic!("wrong variant"),
    }
}

#[test]
fn function_call_output_roundtrips_through_text() {
    let item = Item::FunctionCallOutput {
        call_id: "call_1".to_string(),
        output: "[ERROR] boom".to_string(),
    };
    match roundtrip(&item) {
        Item::FunctionCallOutput { call_id, output } => {
            assert_eq!(call_id, "call_1");
            assert_eq!(output, "[ERROR] boom");
        },
        _ => panic!("wrong variant"),
    }
}

#[test]
fn unknown_item_type_is_preserved_verbatim() {
    let line = "{\"type\":\"web_search_call\",\"query\":\"cats\",\"n\":3}";
    let parsed = parse_json_text(line).unwrap();
    let item = item_of_json(&parsed).unwrap();
    match &item {
        Item::Other(_) => {},
        _ => panic!("expected an opaque item"),
    }
    let rewritten = write_json_text(&item_to_json(&item));
    assert_eq!(rewritten, line);
}

#[test]
fn reasoning_item_is_preserved_verbatim() {
    let line = "{\"type\":\"reasoning\",\"id\":\"rs_1\",\"summary\":[]}";
    let parsed = parse_json_text(line).unwrap();
    let item = item_of_json(&parsed).unwrap();
    match &item {
        Item::Reasoning(_) => {},
        _ => panic!("expected a reasoning item"),
    }
    let rewritten = write_json_text(&item_to_json(&item));
    assert_eq!(rewritten, line);
}

#[test]
fn message_with_unknown_role_fails_to_decode() {
    let parsed = parse_json_text("{\"type\":\"message\",\"role\":\"robot\",\"content\":\"x\"}")
        .unwrap();
    assert!(item_of_json(&parsed).is_none());
}

#[test]
fn parser_handles_escapes_and_numbers() {
    let line = "{\"a\":\"tab\\tnew\\nline\",\"b\":[1,2.5,-3e2],\"c\":{\"d\":null,\"e\":true}}";
    let parsed = parse_json_text(line).unwrap();
    let rewritten = write_json_text(&parsed);
    // Number tokens are kept verbatim; escapes are re-encoded canonically.
    assert_eq!(rewritten, "{\"a\":\"tab\\tnew\\nline\",\"b\":[1,2.5,-3e2],\"c\":{\"d\":null,\"e\":true}}");
}

#[test]
fn parser_rejects_trailing_garbage() {
    assert!(parse_json_text("{\"a\":1} extra").is_none());
    assert!(parse_json_text("").is_none());
    assert!(parse_json_text("{\"a\":}").is_none());
}

#[test]
fn parser_decodes_unicode_escapes() {
    let parsed = parse_json_text("{\"s\":\"\\u0041\\ud83d\\ude00\"}").unwrap();
    let rewritten = write_json_text(&parsed);
    assert_eq!(rewritten, "{\"s\":\"A\u{1F600}\"}");
}
