use mdb_api::derives::{
    dcmd_arg_types, doc_string, nul_terminated, trim_doc, walker_names, AttrInfo, DcmdArgType,
    DeriveError, FieldType, ItemShape,
};

fn attr(path: &[&str], value: Option<&str>) -> AttrInfo {
    AttrInfo {
        path: path.iter().map(|p| String::from(*p)).collect(),
        value: value.map(String::from),
    }
}

fn path(p: &[&str]) -> FieldType {
    FieldType::Path(p.iter().map(|s| String::from(*s)).collect())
}

#[test]
fn walker_names_for_task_walker() {
    let attrs = vec![
        attr(&["derive"], None),
        attr(&["doc"], Some("\" Walk Tokio tasks\"")),
        attr(&["doc"], Some("\" second line\"")),
    ];
    let n = walker_names("TokioTaskWalker", &attrs);
    assert_eq!(n.init_fn, "tokio_task_walker_init");
    assert_eq!(n.walk_name, b"tokio_task_walker\0".to_vec());
    assert_eq!(n.walk_descr, b"Walk Tokio tasks\0".to_vec());
}

#[test]
fn walker_without_docs_has_empty_description() {
    let n = walker_names("Plain", &vec![attr(&["allow"], Some("x"))]);
    assert_eq!(n.init_fn, "plain_init");
    assert_eq!(n.walk_name, b"plain\0".to_vec());
    assert_eq!(n.walk_descr, b"\0".to_vec());
}

#[test]
fn doc_attribute_selection() {
    let attrs = vec![
        attr(&["doc"], None),
        attr(&["x", "doc"], Some("\"no\"")),
        attr(&["doc"], Some("\"yes\"")),
    ];
    assert_eq!(doc_string(&attrs), "\"yes\"");
    assert_eq!(doc_string(&vec![]), "");
}

#[test]
fn trimming_quotes_and_whitespace() {
    assert_eq!(trim_doc("\" hi there \""), "hi there");
    assert_eq!(trim_doc("  \"\"  "), "");
    assert_eq!(trim_doc("\u{a0}x\u{3000}"), "x");
    assert_eq!(trim_doc("a\"b"), "a\"b");
    assert_eq!(trim_doc(""), "");
}

#[test]
fn c_strings() {
    assert_eq!(nul_terminated("ab"), vec![b'a', b'b', 0]);
    assert_eq!(nul_terminated(""), vec![0]);
    assert_eq!(nul_terminated("é"), vec![0xc3, 0xa9, 0]);
}

#[test]
fn dcmd_field_kinds() {
    let item = ItemShape::NamedStruct(vec![path(&["u64"]), path(&["String"]), path(&["char"])]);
    assert_eq!(
        dcmd_arg_types(&item),
        Ok(vec![DcmdArgType::U64, DcmdArgType::String, DcmdArgType::Char])
    );
    assert_eq!(dcmd_arg_types(&ItemShape::NamedStruct(vec![])), Ok(vec![]));
}

#[test]
fn dcmd_derive_errors() {
    assert_eq!(dcmd_arg_types(&ItemShape::NotStruct), Err(DeriveError::NotStruct));
    assert_eq!(dcmd_arg_types(&ItemShape::UnnamedStruct), Err(DeriveError::UnnamedFields));
    let item = ItemShape::NamedStruct(vec![
        path(&["u64"]),
        path(&["std", "string", "String"]),
        FieldType::Other,
    ]);
    assert_eq!(dcmd_arg_types(&item), Err(DeriveError::UnsupportedField(1)));
    let item = ItemShape::NamedStruct(vec![path(&["bool"])]);
    assert_eq!(dcmd_arg_types(&item), Err(DeriveError::UnsupportedField(0)));
    let item = ItemShape::NamedStruct(vec![path(&["char"]), FieldType::Other]);
    assert_eq!(dcmd_arg_types(&item), Err(DeriveError::UnsupportedField(1)));
}

#[test]
fn dcmd_derive_messages() {
    assert_eq!(DeriveError::NotStruct.message(), "Dcmd can only be derived for structs");
    assert_eq!(
        DeriveError::UnnamedFields.message(),
        "Dcmd can only be derived for structs with named fields"
    );
    assert_eq!(
        DeriveError::UnsupportedField(3).message(),
        "Unsupported walker type, must be a u64, char, or string"
    );
}
