use parquet_key_management::error::Error;
use parquet_key_management::json::ObjectWriter;
use parquet_key_management::key_material::KeyMaterial;
use parquet_key_management::key_material::KeyMaterialBuilder;

#[test]
fn footer_key_material_has_an_exact_text() {
    let material = KeyMaterialBuilder::for_footer_key("id".to_owned(), "https://a/\"b\"".to_owned())
        .with_double_wrapped_key(
            "kf".to_owned(),
            "kek id".to_owned(),
            "wrapped kek".to_owned(),
            "wrapped dek".to_owned(),
        )
        .build()
        .unwrap();
    assert_eq!(
        material.serialize().unwrap(),
        r#"{"keyMaterialType":"PKMT1","internalStorage":true,"isFooterKey":true,"kmsInstanceID":"id","kmsInstanceURL":"https://a/\"b\"","masterKeyID":"kf","wrappedDEK":"wrapped dek","doubleWrapping":true,"keyEncryptionKeyID":"kek id","wrappedKEK":"wrapped kek"}"#
    );
}

#[test]
fn column_key_material_has_an_exact_text() {
    let material = KeyMaterialBuilder::for_column_key()
        .with_single_wrapped_key("kc1".to_owned(), "abc=".to_owned())
        .build()
        .unwrap();
    assert_eq!(
        material.serialize().unwrap(),
        r#"{"keyMaterialType":"PKMT1","internalStorage":true,"isFooterKey":false,"masterKeyID":"kc1","wrappedDEK":"abc=","doubleWrapping":false}"#
    );
}

#[test]
fn key_material_reads_back() {
    let odd = "\u{0}\u{1f}\u{7f}\u{8}\t\n\u{c}\r\"\\/\u{e9}\u{1f511} end";
    let material = KeyMaterialBuilder::for_footer_key(odd.to_owned(), "".to_owned())
        .with_double_wrapped_key(
            odd.to_owned(),
            "1".to_owned(),
            "2".to_owned(),
            odd.to_owned(),
        )
        .build()
        .unwrap();
    let text = material.serialize().unwrap();
    let read = KeyMaterial::deserialize(&text).unwrap();
    assert!(read.internal_storage);
    assert!(read.is_footer_key);
    assert_eq!(read.kms_instance_id.as_deref(), Some(odd));
    assert_eq!(read.kms_instance_url.as_deref(), Some(""));
    assert_eq!(read.master_key_id, odd);
    assert_eq!(read.wrapped_dek, odd);
    assert!(read.double_wrapping);
    assert_eq!(read.key_encryption_key_id.as_deref(), Some("1"));
    assert_eq!(read.wrapped_kek.as_deref(), Some("2"));
    assert_eq!(read.serialize().unwrap(), text);
}

#[test]
fn control_characters_are_escaped_as_json() {
    let text = ObjectWriter::new()
        .text_member("a\u{1}", "\u{8}\t\n\u{c}\r\u{1f}\\")
        .flag_member("b", false)
        .finish();
    assert_eq!(text, "{\"a\\u0001\":\"\\b\\t\\n\\f\\r\\u001f\\\\\",\"b\":false}");
    let value: serde_json::Value = serde_json::from_str(&text).unwrap();
    assert_eq!(value["a\u{1}"], "\u{8}\t\n\u{c}\r\u{1f}\\");
    assert_eq!(value.to_string(), text);
    assert_eq!(ObjectWriter::new().finish(), "{}");
}

#[test]
fn optional_members_may_be_null_and_unknown_members_are_ignored() {
    let read = KeyMaterial::deserialize(
        r#" { "unknown" : [1, {}], "keyMaterialType": "PKMT1", "internalStorage": true,
            "isFooterKey": false, "kmsInstanceID": null, "masterKeyID": "first",
            "masterKeyID": "second", "wrappedDEK": "w", "doubleWrapping": false } "#,
    )
    .unwrap();
    assert_eq!(read.kms_instance_id, None);
    assert_eq!(read.kms_instance_url, None);
    assert_eq!(read.master_key_id, "second");
}

fn problem(text: &str) -> String {
    match KeyMaterial::deserialize(text) {
        Ok(_) => panic!("Expected an error"),
        Err(Error::General(message)) => message,
        Err(_) => panic!("Expected a general error"),
    }
}

#[test]
fn unusable_key_material_is_explained() {
    let hint = ". Perhaps this file was encrypted without using a KMS";
    let expected = |cause: &str| format!("Error deserializing key material: {cause}{hint}");
    assert_eq!(
        problem("kf"),
        expected("expected value at line 1 column 1")
    );
    assert_eq!(problem("{}"), expected("missing field keyMaterialType"));
    assert_eq!(
        problem(r#"{"keyMaterialType":1}"#),
        expected("expected a string for field keyMaterialType")
    );
    assert_eq!(
        problem(r#"{"keyMaterialType":"PKMT2"}"#),
        expected("unexpected key material type PKMT2")
    );
    assert_eq!(
        problem(r#"{"keyMaterialType":"PKMT1"}"#),
        expected("missing field internalStorage")
    );
    assert_eq!(
        problem(r#"{"keyMaterialType":"PKMT1","internalStorage":"true"}"#),
        expected("expected a boolean for field internalStorage")
    );
    assert_eq!(
        problem(r#"{"keyMaterialType":"PKMT1","internalStorage":true,"isFooterKey":true,"kmsInstanceID":false}"#),
        expected("expected a string for field kmsInstanceID")
    );
    assert!(problem("[]").ends_with(hint));
    assert!(problem("").contains("EOF"));
}

#[test]
fn key_material_needs_a_wrapped_key() {
    let error = KeyMaterialBuilder::for_column_key().build().unwrap_err();
    assert_eq!(
        error,
        Error::General("Key material requires a wrapped key".to_owned())
    );
}
