use rdoc::extract::extract_json_string;
use rdoc::item_type::ItemType;
use rdoc::search_index::{parse_search_index, IndexError};
use rdoc::search_items::decode_index;
use rdoc::text::{normalize_name, split_comma_list, strip_underscores};

#[test]
fn test_extract_json_string_unescapes_quotes() {
    let content =
        r#"var searchIndex = new Map(JSON.parse('[["test",{"desc":"It\'s a test"}]]'));"#;

    let json_string = extract_json_string(&content).unwrap();

    assert!(
        !json_string.contains(r"\'"),
        "Should not contain escaped quotes"
    );
    assert!(
        json_string.contains("It's"),
        "Should contain unescaped quote"
    );
}

#[test]
fn test_malformed_p_field_errors() {
    let malformed_json =
        r#"[["test", {"t":"A", "n":["foo"], "p":[[{"wrong": "type"}, "name"]]}]]"#;
    let result = parse_search_index(malformed_json);
    assert!(result.is_err(), "Should error on malformed ty field");

    let malformed_json2 = r#"[["test", {"t":"A", "n":["foo"], "p":[[5, "name", "wrong"]]}]]"#;
    let result2 = parse_search_index(malformed_json2);
    assert!(
        result2.is_err(),
        "Should error on malformed path_index field"
    );

    let valid_json = r#"[["test", {"t":"A", "n":["foo"], "p":[[5, "name", 10, 20]]}]]"#;
    let result3 = parse_search_index(valid_json);
    assert!(result3.is_ok(), "Should succeed with valid data");
}

#[test]
fn extract_exact_payload() {
    let content = "x = JSON.parse('[1]') and JSON.parse('[2]')";
    assert_eq!(extract_json_string(content).unwrap(), "[1]");
}

#[test]
fn extract_missing_open_delimiter() {
    assert_eq!(
        extract_json_string("var searchIndex = [];"),
        Err(IndexError::MissingDelimiter)
    );
}

#[test]
fn extract_missing_close_delimiter() {
    assert_eq!(
        extract_json_string("JSON.parse('[[\"a\"]]"),
        Err(IndexError::MissingDelimiter)
    );
}

#[test]
fn parse_rejects_text_that_is_not_json() {
    assert_eq!(parse_search_index("[[\"a\","), Err(IndexError::InvalidJson));
}

#[test]
fn parse_rejects_document_that_is_not_an_array() {
    assert_eq!(
        parse_search_index("{}"),
        Err(IndexError::Schema { crate_name: String::new() })
    );
}

#[test]
fn parse_reports_crate_of_schema_error() {
    let r = parse_search_index(r#"[["ok", {"t":"A","n":["a"]}], ["bad", {"t":"A","n":["a"],"q":[["x","p"]]}]]"#);
    assert_eq!(r, Err(IndexError::Schema { crate_name: "bad".to_string() }));
}

#[test]
fn parse_rejects_missing_names() {
    let r = parse_search_index(r#"[["c", {"t":"A"}]]"#);
    assert_eq!(r, Err(IndexError::Schema { crate_name: "c".to_string() }));
}

#[test]
fn parse_rejects_length_mismatch() {
    let r = parse_search_index(r#"[["c", {"t":"AB","n":["a"]}]]"#);
    assert_eq!(r, Err(IndexError::LengthMismatch { crate_name: "c".to_string() }));
}

#[test]
fn parse_rejects_unknown_parent_kind_and_long_tuple() {
    let r = parse_search_index(r#"[["c", {"t":"A","n":["a"],"p":[[28,"x"]]}]]"#);
    assert!(r.is_err());
    let r = parse_search_index(r#"[["c", {"t":"A","n":["a"],"p":[[1,"x",null,null,0,9]]}]]"#);
    assert!(r.is_err());
}

#[test]
fn parse_reads_all_members() {
    let text = r#"[["c", {"t":"AB","n":["a",""],"q":[[0,"c::m"]],"p":[[5,"S",0,null]],
        "r":[[1,0]],"i":"ab","f":"fx","D":"dd","P":[[1,"T,U"],[0,""]],"b":[[1,"impl-X"]],
        "c":"cc","e":"ee","a":{"alias":[1,0]},"zz":[1]}]]"#;
    let entries = parse_search_index(text).unwrap();
    assert_eq!(entries.len(), 1);
    let d = &entries[0].data;
    assert_eq!(entries[0].name, "c");
    assert_eq!(d.types, "AB");
    assert_eq!(d.names, vec!["a", ""]);
    assert_eq!(d.paths[0].index, 0);
    assert_eq!(d.paths[0].path, "c::m");
    assert_eq!(d.parent_items[0].ty, ItemType::Struct);
    assert_eq!(d.parent_items[0].name, "S");
    assert_eq!(d.parent_items[0].path_index, Some(0));
    assert_eq!(d.parent_items[0].exact_path_index, None);
    assert_eq!(d.parent_items[0].unbox_flag, None);
    assert_eq!(d.reexports[0].item_index, 1);
    assert_eq!(d.reexports[0].path_index, 0);
    assert_eq!(d.i, "ab");
    assert_eq!(d.f, "fx");
    assert_eq!(d.desc, "dd");
    assert_eq!(d.param_types[0].types, vec!["T", "U"]);
    assert_eq!(d.param_types[1].types, Vec::<String>::new());
    assert_eq!(d.impl_disambiguators[0].disambiguator, "impl-X");
    assert_eq!(d.c, "cc");
    assert_eq!(d.e, "ee");
    assert_eq!(
        d.aliases,
        Some(vec![("alias".to_string(), vec![1usize, 0usize])])
    );
}

#[test]
fn parse_null_aliases_is_none() {
    let entries = parse_search_index(r#"[["c", {"t":"A","n":["a"],"a":null}]]"#).unwrap();
    assert_eq!(entries[0].data.aliases, None);
}

#[test]
fn decode_index_single_item_scenario() {
    let content = r#"var searchIndex = new Map(JSON.parse('[["test",{"t":"A","n":["foo"]}]]'));"#;
    let items = decode_index(content).unwrap();
    assert_eq!(items.len(), 1);
    let item = &items[0];
    assert_eq!(item.item_type, ItemType::MutRef);
    assert_eq!(item.crate_name, "test");
    assert_eq!(item.name, "foo");
    assert_eq!(item.normalized_name, "foo");
    assert_eq!(item.path, "");
    assert_eq!(item.exact_path, "");
    assert_eq!(item.parent_index, None);
    assert_eq!(item.impl_disambiguator, None);
    assert!(item.param_types.is_empty());
    assert_eq!(item.bit_index, 1);
    assert_eq!(item.id, 0);
}

#[test]
fn decode_index_keeps_crate_order() {
    let content = r#"JSON.parse('[["b",{"t":"AA","n":["x","y"]}],["a",{"t":"C","n":["z"],"q":[[0,"a"]]}]]')"#;
    let items = decode_index(content).unwrap();
    assert_eq!(items.len(), 3);
    assert_eq!(items[0].crate_name, "b");
    assert_eq!(items[1].name, "y");
    assert_eq!(items[2].crate_name, "a");
    assert_eq!(items[2].item_type, ItemType::Module);
    assert_eq!(items[2].path, "a");
    assert_eq!(items[2].id, 0);
}

#[test]
fn decode_index_errors() {
    assert_eq!(decode_index("no index here"), Err(IndexError::MissingDelimiter));
    assert_eq!(decode_index("JSON.parse('[[')"), Err(IndexError::InvalidJson));
}

#[test]
fn normalize_lowercases_and_strips() {
    assert_eq!(normalize_name("Hash_Map_ÄB"), "hashmapäb");
    assert_eq!(strip_underscores("__a_b__"), "ab");
}

#[test]
fn split_comma_list_pieces() {
    assert_eq!(split_comma_list(""), Vec::<String>::new());
    assert_eq!(split_comma_list("T"), vec!["T"]);
    assert_eq!(split_comma_list("T,,U,"), vec!["T", "", "U", ""]);
}
