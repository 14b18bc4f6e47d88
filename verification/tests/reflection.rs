use wallet_adapter::{HostField, HostValue, Reflection, WalletError};

fn text(value: &str) -> HostValue {
    HostValue::Text(value.to_string())
}

fn object(fields: Vec<(&str, HostValue)>) -> HostValue {
    HostValue::Object(
        fields
            .into_iter()
            .map(|(key, value)| HostField { key: key.to_string(), value, listed: true })
            .collect(),
    )
}

fn array(items: Vec<HostValue>) -> HostValue {
    HostValue::Array(items)
}

fn mismatch(expected: &str, got: &str) -> WalletError {
    WalletError::TypeMismatch(expected.to_string(), got.to_string())
}

fn sample() -> HostValue {
    object(vec![
        ("name", text("Alpha")),
        ("key", HostValue::Bytes((0u8..32).collect())),
        ("short", HostValue::Bytes(vec![1, 2, 3])),
        ("chains", array(vec![text("solana:mainnet"), text("solana:devnet")])),
        ("mixed", array(vec![text("solana:mainnet"), text("ethereum:1"), text("solana:devnet")])),
        ("odd", array(vec![text("solana:mainnet"), HostValue::Boolean(true)])),
        ("connect", HostValue::Function(11)),
        ("nothing", HostValue::Null),
        ("features", object(vec![("a:b", object(vec![])), ("c:d", object(vec![]))])),
        ("count", HostValue::Number("3".to_string())),
    ])
}

#[test]
fn absent_values_are_not_taken() {
    assert_eq!(Reflection::new(HostValue::Undefined).unwrap_err(), WalletError::ValueNotFound);
    assert_eq!(Reflection::new(HostValue::Null).unwrap_err(), WalletError::ValueNotFound);
    assert_eq!(Reflection::new(text("x")).unwrap().take(), text("x"));
    assert_eq!(Reflection::check_is_undefined(&HostValue::Undefined), Err(WalletError::ValueNotFound));
    assert_eq!(Reflection::check_is_undefined(&HostValue::Null), Err(WalletError::ValueNotFound));
    assert_eq!(Reflection::check_is_undefined(&HostValue::Boolean(false)), Ok(()));
}

#[test]
fn properties_are_read_by_key() {
    let value = sample();
    assert_eq!(Reflection::new_from_str(&value, "name").unwrap().take(), text("Alpha"));
    assert_eq!(
        Reflection::new_from_str(&value, "missing").unwrap_err(),
        WalletError::ValueNotFound
    );
    assert_eq!(
        Reflection::new_from_str(&value, "nothing").unwrap_err(),
        WalletError::ValueNotFound
    );
    assert_eq!(
        Reflection::new_from_str(&HostValue::Null, "name").unwrap_err(),
        WalletError::ValueNotFound
    );
    assert_eq!(
        Reflection::new_from_str(&text("plain"), "name").unwrap_err(),
        mismatch("object", "string")
    );
    assert_eq!(
        Reflection::new_from_str(&HostValue::Boolean(true), "name").unwrap_err(),
        mismatch("object", "boolean")
    );
    assert_eq!(
        Reflection::new_from_str(&array(vec![]), "name").unwrap_err(),
        WalletError::ValueNotFound
    );
    let reflection = Reflection::new(value).unwrap();
    assert_eq!(reflection.reflect_inner("connect"), Ok(HostValue::Function(11)));
    assert_eq!(reflection.reflect_inner("nothing"), Err(WalletError::ValueNotFound));
    assert_eq!(reflection.reflect_inner("missing"), Err(WalletError::ValueNotFound));
    assert_eq!(reflection.get_inner(), &sample());
}

#[test]
fn the_first_of_two_equal_keys_counts() {
    let value = object(vec![("a", text("first")), ("a", text("second"))]);
    let reflection = Reflection::new(value).unwrap();
    assert_eq!(reflection.string("a"), Ok("first".to_string()));
}

#[test]
fn strings_are_read_as_strings() {
    let reflection = Reflection::new(sample()).unwrap();
    assert_eq!(reflection.string("name"), Ok("Alpha".to_string()));
    assert_eq!(reflection.string("missing"), Err(WalletError::ValueNotFound));
    assert_eq!(reflection.string("nothing"), Err(WalletError::ValueNotFound));
    assert_eq!(reflection.string("key"), Err(mismatch("string", "object")));
    assert_eq!(reflection.string("connect"), Err(mismatch("string", "function")));
    assert_eq!(reflection.string("count"), Err(mismatch("string", "number")));
    assert_eq!(Reflection::get_string(&text("x")), Ok("x".to_string()));
    assert_eq!(Reflection::get_string(&HostValue::Undefined), Err(WalletError::ValueNotFound));
    assert_eq!(
        Reflection::get_string(&HostValue::Boolean(true)),
        Err(mismatch("string", "boolean"))
    );
}

#[test]
fn bytes_are_read_as_bytes() {
    let reflection = Reflection::new(sample()).unwrap();
    assert_eq!(reflection.reflect_bytes("short"), Ok(vec![1, 2, 3]));
    assert_eq!(reflection.reflect_bytes("name"), Err(mismatch("Uint8Array", "string")));
    assert_eq!(reflection.reflect_bytes("missing"), Err(WalletError::ValueNotFound));
    assert_eq!(
        Reflection::new(HostValue::Bytes(vec![9, 8])).unwrap().into_bytes(),
        Ok(vec![9, 8])
    );
    assert_eq!(
        Reflection::new(array(vec![])).unwrap().into_bytes(),
        Err(mismatch("Uint8Array", "object"))
    );
    assert_eq!(Reflection::default().into_bytes(), Err(WalletError::ValueNotFound));
}

#[test]
fn fixed_width_is_exact() {
    let reflection = Reflection::new(sample()).unwrap();
    let expected: Vec<u8> = (0u8..32).collect();
    assert_eq!(reflection.byte32array("key").unwrap().to_vec(), expected);
    assert_eq!(reflection.byte32array("short"), Err(WalletError::Expected32ByteLength));
    assert_eq!(reflection.byte32array("name"), Err(mismatch("Uint8Array", "string")));
    assert_eq!(reflection.byte32array("missing"), Err(WalletError::ValueNotFound));
    let long = object(vec![("key", HostValue::Bytes(vec![0u8; 33]))]);
    assert_eq!(
        Reflection::new(long).unwrap().byte32array("key"),
        Err(WalletError::Expected32ByteLength)
    );
    let wide = object(vec![("key", HostValue::Bytes(vec![0u8; 64]))]);
    assert_eq!(
        Reflection::new(wide).unwrap().byte32array("key"),
        Err(WalletError::Expected32ByteLength)
    );
}

#[test]
fn arrays_are_read_as_arrays() {
    let reflection = Reflection::new(sample()).unwrap();
    assert_eq!(
        reflection.reflect_js_array("chains"),
        Ok(vec![text("solana:mainnet"), text("solana:devnet")])
    );
    assert_eq!(reflection.reflect_js_array("name"), Err(mismatch("Array", "string")));
    assert_eq!(reflection.reflect_js_array("missing"), Err(WalletError::ValueNotFound));
    assert_eq!(reflection.get_array(), Err(mismatch("Array", "object")));
    let items = Reflection::new(array(vec![text("a"), HostValue::Null])).unwrap();
    assert_eq!(items.get_array(), Ok(vec![text("a"), HostValue::Null]));
    assert_eq!(items.clone().into_array(), Ok(vec![text("a"), HostValue::Null]));
    assert_eq!(
        Reflection::new(HostValue::Function(1)).unwrap().into_array(),
        Err(mismatch("Array", "function"))
    );
}

#[test]
fn arrays_of_strings_are_all_or_nothing() {
    let reflection = Reflection::new(sample()).unwrap();
    assert_eq!(
        reflection.vec_string("chains"),
        Ok(vec!["solana:mainnet".to_string(), "solana:devnet".to_string()])
    );
    assert_eq!(
        reflection.vec_string("mixed"),
        Ok(vec![
            "solana:mainnet".to_string(),
            "ethereum:1".to_string(),
            "solana:devnet".to_string()
        ])
    );
    assert_eq!(reflection.vec_string("odd"), Err(mismatch("string", "boolean")));
    assert_eq!(reflection.vec_string("name"), Err(mismatch("Array", "string")));
    assert_eq!(reflection.vec_string("missing"), Err(WalletError::ValueNotFound));
}

#[test]
fn chains_outside_the_family_fail_the_read() {
    let reflection = Reflection::new(sample()).unwrap();
    assert_eq!(
        reflection.vec_string_and_filter("chains", "solana:"),
        Ok(vec!["solana:mainnet".to_string(), "solana:devnet".to_string()])
    );
    assert_eq!(
        reflection.vec_string_and_filter("mixed", "solana:"),
        Err(WalletError::UnsupportedChain("ethereum:1".to_string()))
    );
    assert_eq!(
        reflection.vec_string_and_filter("chains", "ethereum:"),
        Err(WalletError::UnsupportedChain("solana:mainnet".to_string()))
    );
    assert_eq!(
        reflection.vec_string_and_filter("odd", "solana:"),
        Err(mismatch("string", "boolean"))
    );
    assert_eq!(
        reflection.vec_string_and_filter("odd", "ethereum:"),
        Err(WalletError::UnsupportedChain("solana:mainnet".to_string()))
    );
    assert_eq!(
        reflection.vec_string_and_filter("missing", "solana:"),
        Err(WalletError::ValueNotFound)
    );
    let empty = Reflection::new(object(vec![("chains", array(vec![]))])).unwrap();
    assert_eq!(empty.vec_string_and_filter("chains", "solana:"), Ok(Vec::new()));
}

#[test]
fn keys_of_an_object_come_once_each() {
    let reflection = Reflection::new(sample()).unwrap();
    assert_eq!(
        reflection.object_to_vec_string("features"),
        Ok(vec!["a:b".to_string(), "c:d".to_string()])
    );
    assert_eq!(reflection.object_to_vec_string("name"), Err(mismatch("Object", "string")));
    assert_eq!(reflection.object_to_vec_string("chains"), Err(mismatch("Object", "object")));
    assert_eq!(reflection.object_to_vec_string("missing"), Err(WalletError::ValueNotFound));
    let twice = object(vec![(
        "features",
        object(vec![("x", text("1")), ("y", text("2")), ("x", text("3"))]),
    )]);
    assert_eq!(
        Reflection::new(twice).unwrap().object_to_vec_string("features"),
        Ok(vec!["x".to_string(), "y".to_string()])
    );
}

#[test]
fn properties_that_are_not_listed_are_read_all_the_same() {
    let value = HostValue::Object(vec![
        HostField { key: "own".to_string(), value: text("1"), listed: true },
        HostField { key: "name".to_string(), value: text("Alpha"), listed: false },
        HostField { key: "own".to_string(), value: text("shadowed"), listed: false },
    ]);
    let holder = object(vec![("features", value.duplicate())]);
    let reflection = Reflection::new(value).unwrap();
    assert_eq!(reflection.string("name"), Ok("Alpha".to_string()));
    assert_eq!(reflection.string("own"), Ok("1".to_string()));
    assert_eq!(
        Reflection::new(holder).unwrap().object_to_vec_string("features"),
        Ok(vec!["own".to_string()])
    );
    let mut built = reflection.clone();
    assert!(built.set_object_str("name", "Beta").is_ok());
    assert_eq!(
        built.get_inner(),
        &HostValue::Object(vec![
            HostField { key: "own".to_string(), value: text("1"), listed: true },
            HostField { key: "name".to_string(), value: text("Beta"), listed: true },
            HostField { key: "own".to_string(), value: text("shadowed"), listed: false },
        ])
    );
}

#[test]
fn callables_are_read_by_handle() {
    let reflection = Reflection::new(sample()).unwrap();
    assert_eq!(reflection.get_function("connect"), Ok(11));
    assert_eq!(reflection.get_function("name"), Err(mismatch("function", "string")));
    assert_eq!(reflection.get_function("missing"), Err(WalletError::ValueNotFound));
    assert_eq!(Reflection::new(HostValue::Function(5)).unwrap().into_function(), Ok(5));
    assert_eq!(
        Reflection::new(text("f")).unwrap().into_function(),
        Err(mismatch("function", "string"))
    );
}

#[test]
fn bytes_are_gathered_from_every_item() {
    let rows = array(vec![
        object(vec![("signature", HostValue::Bytes(vec![1, 2]))]),
        object(vec![("signature", HostValue::Bytes(vec![3]))]),
    ]);
    assert_eq!(
        Reflection::new(rows).unwrap().get_bytes_from_vec("signature"),
        Ok(vec![vec![1, 2], vec![3]])
    );
    let holed = array(vec![
        object(vec![("signature", HostValue::Bytes(vec![1, 2]))]),
        HostValue::Null,
        object(vec![("signature", text("no"))]),
    ]);
    assert_eq!(
        Reflection::new(holed).unwrap().get_bytes_from_vec("signature"),
        Err(WalletError::ValueNotFound)
    );
    let wrong = array(vec![
        object(vec![("signature", text("no"))]),
        HostValue::Null,
    ]);
    assert_eq!(
        Reflection::new(wrong).unwrap().get_bytes_from_vec("signature"),
        Err(mismatch("Uint8Array", "string"))
    );
    assert_eq!(
        Reflection::new(text("x")).unwrap().get_bytes_from_vec("signature"),
        Err(mismatch("Array", "string"))
    );
    assert_eq!(
        Reflection::new(array(vec![])).unwrap().get_bytes_from_vec("signature"),
        Ok(Vec::new())
    );
}

#[test]
fn type_names_are_the_hosts() {
    assert_eq!(Reflection::js_typeof(&HostValue::Undefined), "undefined");
    assert_eq!(Reflection::js_typeof(&HostValue::Null), "object");
    assert_eq!(Reflection::js_typeof(&HostValue::Boolean(true)), "boolean");
    assert_eq!(Reflection::js_typeof(&text("")), "string");
    assert_eq!(Reflection::js_typeof(&HostValue::Number("7".to_string())), "number");
    assert_eq!(Reflection::js_typeof(&HostValue::Bytes(vec![])), "object");
    assert_eq!(Reflection::js_typeof(&array(vec![])), "object");
    assert_eq!(Reflection::js_typeof(&object(vec![])), "object");
    assert_eq!(Reflection::js_typeof(&HostValue::Function(0)), "function");
    assert_eq!(Reflection::js_typeof(&HostValue::Other("bigint".to_string())), "bigint");
}

#[test]
fn objects_are_built_key_by_key() {
    let mut built = Reflection::new_object();
    assert_eq!(built.get_inner(), &object(vec![]));
    assert!(built.set_object_str("a", "1").is_ok());
    assert!(built.set_object_str("b", "2").is_ok());
    assert!(built.set_object_string_optional("c", None).is_ok());
    let three = "3".to_string();
    assert!(built.set_object_string_optional("d", Some(&three)).is_ok());
    assert!(built.set_object(&text("f"), &HostValue::Function(4)).is_ok());
    assert_eq!(
        built.get_inner(),
        &object(vec![
            ("a", text("1")),
            ("b", text("2")),
            ("d", text("3")),
            ("f", HostValue::Function(4)),
        ])
    );
    assert!(built.set_object_str("b", "two").is_ok());
    assert_eq!(
        built.clone().take(),
        object(vec![
            ("a", text("1")),
            ("b", text("two")),
            ("d", text("3")),
            ("f", HostValue::Function(4)),
        ])
    );
}

#[test]
fn keys_that_are_no_strings_name_the_property_of_their_literal() {
    let mut built = Reflection::new_object();
    assert!(built.set_object(&HostValue::Boolean(true), &text("1")).is_ok());
    assert!(built.set_object(&HostValue::Boolean(false), &text("2")).is_ok());
    assert!(built.set_object(&HostValue::Null, &text("3")).is_ok());
    assert!(built.set_object(&HostValue::Undefined, &text("4")).is_ok());
    assert!(built.set_object(&text("true"), &text("one")).is_ok());
    assert!(built.set_object(&HostValue::Number("42".to_string()), &text("5")).is_ok());
    assert!(built.set_object(&HostValue::Number("1.5".to_string()), &text("6")).is_ok());
    assert!(built.set_object(&text("42"), &text("five")).is_ok());
    assert_eq!(
        built.get_inner(),
        &object(vec![
            ("true", text("one")),
            ("false", text("2")),
            ("null", text("3")),
            ("undefined", text("4")),
            ("42", text("five")),
            ("1.5", text("6")),
        ])
    );
    assert_eq!(built.string("true"), Ok("one".to_string()));
    assert_eq!(HostValue::Boolean(true).key_form(), Some("true".to_string()));
    assert_eq!(text("x").key_form(), Some("x".to_string()));
    assert_eq!(HostValue::Bytes(vec![1]).key_form(), None);
}

#[test]
fn a_set_hands_the_object_back() {
    let mut built = Reflection::new_object();
    let handed = built.set_object_str("a", "1").unwrap();
    assert_eq!(handed.get_inner(), &object(vec![("a", text("1"))]));
    let again = built.set_object_string_optional("b", None).unwrap();
    assert_eq!(again.get_inner(), &object(vec![("a", text("1"))]));
    let last = built.set_object(&text("c"), &HostValue::Null).unwrap().clone();
    assert_eq!(&last, &built);
}

#[test]
fn only_objects_take_properties() {
    let mut plain = Reflection::new(text("x")).unwrap();
    assert_eq!(plain.set_object_str("a", "1"), Err(mismatch("object", "string")));
    assert_eq!(plain.get_inner(), &text("x"));
    let mut nothing = Reflection::default();
    assert_eq!(nothing.get_inner(), &HostValue::Undefined);
    assert_eq!(nothing.set_object_str("a", "1"), Err(mismatch("object", "undefined")));
    let mut built = Reflection::new_object();
    assert_eq!(
        built.set_object(&HostValue::Function(3), &text("1")),
        Err(mismatch("string", "function"))
    );
    assert_eq!(
        built.set_object(&HostValue::Other("symbol".to_string()), &text("1")),
        Err(mismatch("string", "symbol"))
    );
    assert_eq!(
        built.set_object(&array(vec![]), &text("1")),
        Err(mismatch("string", "object"))
    );
    assert_eq!(built.get_inner(), &object(vec![]));
    let one = "1".to_string();
    assert_eq!(
        plain.set_object_string_optional("a", Some(&one)),
        Err(mismatch("object", "string"))
    );
    assert!(plain.set_object_string_optional("a", None).is_ok());
}

#[test]
fn copies_are_deep() {
    let value = sample();
    assert_eq!(value.duplicate(), value);
    assert!(value.duplicate() != object(vec![]));
}
