use rdoc::item_type::ItemType;
use rdoc::search_index::{CrateData, ImplDisambiguator, ParamTypes, PathItem, QualifiedPath, Reexport};
use rdoc::search_items::decode_crate;

fn empty_data(types: &str, names: &[&str]) -> CrateData {
    CrateData {
        types: types.to_string(),
        names: names.iter().map(|n| n.to_string()).collect(),
        paths: vec![],
        parent_items: vec![],
        reexports: vec![],
        i: String::new(),
        f: String::new(),
        desc: String::new(),
        param_types: vec![],
        impl_disambiguators: vec![],
        c: String::new(),
        e: String::new(),
        aliases: None,
    }
}

#[test]
fn test_decode_basic_fields() {
    let crate_data = CrateData {
        types: "AB".to_string(),
        names: vec!["foo".to_string(), "bar".to_string()],
        paths: vec![],
        parent_items: vec![],
        reexports: vec![],
        i: String::new(),
        f: String::new(),
        desc: String::new(),
        param_types: vec![],
        impl_disambiguators: vec![],
        c: String::new(),
        e: String::new(),
        aliases: None,
    };

    let items = decode_crate("test_crate", &crate_data);

    assert_eq!(items.len(), 2);

    assert_eq!(items[0].crate_name, "test_crate");
    assert_eq!(items[0].id, 0);
    assert_eq!(items[0].bit_index, 1);

    assert_eq!(items[1].crate_name, "test_crate");
    assert_eq!(items[1].id, 1);
    assert_eq!(items[1].bit_index, 2);
}

#[test]
fn test_decode_name_with_compression() {
    let crate_data = CrateData {
        types: "ABCD".to_string(),
        names: vec![
            "foo".to_string(),
            "".to_string(),
            "bar".to_string(),
            "".to_string(),
        ],
        paths: vec![],
        parent_items: vec![],
        reexports: vec![],
        i: String::new(),
        f: String::new(),
        desc: String::new(),
        param_types: vec![],
        impl_disambiguators: vec![],
        c: String::new(),
        e: String::new(),
        aliases: None,
    };

    let items = decode_crate("test_crate", &crate_data);

    assert_eq!(items[0].name, "foo");
    assert_eq!(items[1].name, "foo");
    assert_eq!(items[2].name, "bar");
    assert_eq!(items[3].name, "bar");
}

#[test]
fn test_decode_comprehensive() {
    let crate_data = CrateData {
        types: "CFK".to_string(),
        names: vec![
            "foo".to_string(),
            "Bar".to_string(),
            "Baz_Trait".to_string(),
        ],
        paths: vec![
            QualifiedPath {
                index: 0,
                path: "mylib".to_string(),
            },
            QualifiedPath {
                index: 1,
                path: "mylib::structs".to_string(),
            },
        ],
        parent_items: vec![],
        reexports: vec![Reexport {
            item_index: 1,
            path_index: 0,
        }],
        i: String::new(),
        f: String::new(),
        desc: String::new(),
        param_types: vec![ParamTypes {
            item_index: 2,
            types: vec!["T".to_string(), "U".to_string()],
        }],
        impl_disambiguators: vec![ImplDisambiguator {
            item_index: 1,
            disambiguator: "impl-Debug-for-Bar".to_string(),
        }],
        c: String::new(),
        e: String::new(),
        aliases: None,
    };

    let items = decode_crate("mylib", &crate_data);

    assert_eq!(items[0].item_type, ItemType::Module);
    assert_eq!(items[1].item_type, ItemType::Struct);
    assert_eq!(items[2].item_type, ItemType::Trait);

    assert_eq!(items[0].normalized_name, "foo");
    assert_eq!(items[1].normalized_name, "bar");
    assert_eq!(items[2].normalized_name, "baztrait");

    assert_eq!(items[0].path, "mylib");
    assert_eq!(items[1].path, "mylib::structs");
    assert_eq!(items[2].path, "mylib::structs");

    assert_eq!(items[0].exact_path, "mylib");
    assert_eq!(items[1].exact_path, "mylib");
    assert_eq!(items[2].exact_path, "mylib::structs");

    assert_eq!(items[0].param_types, Vec::<String>::new());
    assert_eq!(items[1].param_types, Vec::<String>::new());
    assert_eq!(items[2].param_types, vec!["T", "U"]);

    assert_eq!(items[0].impl_disambiguator, None);
    assert_eq!(
        items[1].impl_disambiguator,
        Some("impl-Debug-for-Bar".to_string())
    );
    assert_eq!(items[2].impl_disambiguator, None);
}

#[test]
fn test_decode_parent_info() {
    let crate_data = CrateData {
        types: "ABC".to_string(),
        names: vec![
            "top".to_string(),
            "child1".to_string(),
            "child2".to_string(),
        ],
        paths: vec![
            QualifiedPath {
                index: 0,
                path: "mylib".to_string(),
            },
            QualifiedPath {
                index: 1,
                path: "mylib::structs".to_string(),
            },
        ],
        parent_items: vec![
            PathItem {
                ty: ItemType::Module,
                name: "foo".to_string(),
                path_index: Some(0),
                exact_path_index: None,
                unbox_flag: None,
            },
            PathItem {
                ty: ItemType::Struct,
                name: "Bar".to_string(),
                path_index: Some(1),
                exact_path_index: None,
                unbox_flag: None,
            },
        ],
        reexports: vec![],
        i: "abd".to_string(),
        f: String::new(),
        desc: String::new(),
        param_types: vec![],
        impl_disambiguators: vec![],
        c: String::new(),
        e: String::new(),
        aliases: None,
    };

    let items = decode_crate("mylib", &crate_data);

    assert_eq!(items[0].parent_index, None);
    assert_eq!(items[1].parent_index, Some(0));
    assert_eq!(items[2].parent_index, Some(1));
}

#[test]
fn decode_empty_crate() {
    let items = decode_crate("none", &empty_data("", &[]));
    assert!(items.is_empty());
}

#[test]
fn decode_empty_first_name_reuses_empty_string() {
    let items = decode_crate("c", &empty_data("AA", &["", "x"]));
    assert_eq!(items[0].name, "");
    assert_eq!(items[0].normalized_name, "");
    assert_eq!(items[1].name, "x");
}

#[test]
fn decode_unknown_type_codes_fall_back() {
    // '|' is 'A' + 59, past the last kind; '0' is below 'A'.
    let items = decode_crate("c", &empty_data("|0\\B", &["a", "b", "c", "d"]));
    assert_eq!(items[0].item_type, ItemType::Module);
    assert_eq!(items[1].item_type, ItemType::Module);
    assert_eq!(items[2].item_type, ItemType::TraitAlias);
    assert_eq!(items[3].item_type, ItemType::PrimitiveOrBuiltin);
}

#[test]
fn decode_later_overlay_entry_wins() {
    let mut data = empty_data("AA", &["a", "b"]);
    data.paths = vec![
        QualifiedPath { index: 0, path: "first".to_string() },
        QualifiedPath { index: 0, path: "second".to_string() },
    ];
    let items = decode_crate("c", &data);
    assert_eq!(items[0].path, "second");
    assert_eq!(items[1].path, "second");
}

#[test]
fn decode_reexport_to_missing_path_keeps_own_path() {
    let mut data = empty_data("AA", &["a", "b"]);
    data.paths = vec![QualifiedPath { index: 0, path: "root".to_string() }];
    data.reexports = vec![Reexport { item_index: 1, path_index: 7 }];
    let items = decode_crate("c", &data);
    assert_eq!(items[1].path, "root");
    assert_eq!(items[1].exact_path, "root");
}

#[test]
fn decode_reexport_changes_exact_path_only() {
    let mut data = empty_data("AAA", &["a", "b", "c"]);
    data.paths = vec![
        QualifiedPath { index: 0, path: "lib".to_string() },
        QualifiedPath { index: 1, path: "lib::inner".to_string() },
    ];
    data.reexports = vec![Reexport { item_index: 2, path_index: 0 }];
    let items = decode_crate("c", &data);
    assert_eq!(items[1].exact_path, items[1].path);
    assert_eq!(items[2].path, "lib::inner");
    assert_eq!(items[2].exact_path, "lib");
    assert_ne!(items[2].exact_path, items[2].path);
}

#[test]
fn decode_parent_stream_shorter_than_items() {
    let mut data = empty_data("AAA", &["a", "b", "c"]);
    data.i = "d".to_string();
    let items = decode_crate("c", &data);
    assert_eq!(items[0].parent_index, Some(1));
    assert_eq!(items[1].parent_index, None);
    assert_eq!(items[2].parent_index, None);
}

#[test]
fn decode_negative_parent_is_no_parent() {
    let mut data = empty_data("A", &["a"]);
    data.i = "c".to_string();
    let items = decode_crate("c", &data);
    assert_eq!(items[0].parent_index, None);
}

#[test]
fn search_matches_names_ignoring_case() {
    let items = decode_crate("c", &empty_data("AAA", &["HashMap", "vec", "BTreeMap"]));
    assert_eq!(rdoc::search_items::matching_positions(&items, "map"), vec![0, 2]);
    assert_eq!(rdoc::search_items::matching_positions(&items, "VEC"), vec![1]);
    assert_eq!(rdoc::search_items::matching_positions(&items, "zzz"), Vec::<usize>::new());
    assert_eq!(rdoc::search_items::matching_positions(&items, ""), vec![0, 1, 2]);
    assert!(rdoc::search_items::name_matches("Result", "SULT"));
    assert!(!rdoc::search_items::name_matches("Res", "Result"));
}
