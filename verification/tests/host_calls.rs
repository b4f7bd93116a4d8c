use jni::signature::{JavaType, Primitive};
use script_runtime::dex::{
    plan_static_call, resolve_static_call, return_type, unwrap_js, CallError, ClassTable,
};
use script_runtime::ndk_graphics::AndroidBitmapInfo;
use script_runtime::v8_jni::{
    classify_answer, data_t, decode_arguments, value_t, Answer, Argument,
};

fn name(text: &str) -> String {
    String::from(text)
}

#[test]
fn class_is_registered_once() {
    let mut table: ClassTable<u64> = ClassTable::new();
    assert_eq!(table.len(), 0);
    assert!(!table.contains_key(&name("com/node/util/JNIHelper")));
    assert!(table.insert(name("com/node/util/JNIHelper"), 10));
    assert!(table.insert(name("java/util/Random"), 20));
    assert!(!table.insert(name("com/node/util/JNIHelper"), 30));
    assert_eq!(table.len(), 2);
    assert_eq!(table.get(&name("com/node/util/JNIHelper")), Some(&10));
    assert_eq!(table.get(&name("java/util/Random")), Some(&20));
    assert_eq!(table.get(&name("java/util/List")), None);
    assert_eq!(table.position(&name("java/util/Random")), Some(1));
    assert_eq!(*table.class_ref(0), 10);
    table.clear();
    assert_eq!(table.len(), 0);
    assert!(table.insert(name("com/node/util/JNIHelper"), 30));
    assert_eq!(table.get(&name("com/node/util/JNIHelper")), Some(&30));
}

#[test]
fn return_type_is_read_from_the_signature() {
    assert_eq!(
        return_type("(Ljava/lang/Object;Ljava/lang/String;)Z").unwrap(),
        JavaType::Primitive(Primitive::Boolean)
    );
    assert_eq!(
        return_type("()Ljava/lang/Object;").unwrap(),
        JavaType::Object(String::from("java/lang/Object"))
    );
    assert_eq!(return_type("(Ljava/lang/Object;)I").unwrap(), JavaType::Primitive(Primitive::Int));
    assert_eq!(return_type("(I)V").unwrap(), JavaType::Primitive(Primitive::Void));
    assert_eq!(
        return_type("()[J").unwrap(),
        JavaType::Array(Box::new(JavaType::Primitive(Primitive::Long)))
    );
}

#[test]
fn malformed_signature_is_refused() {
    assert_eq!(return_type("()Ljava/lang/List").unwrap_err(), CallError::BadSignature);
    assert_eq!(return_type("").unwrap_err(), CallError::BadSignature);
    assert_eq!(return_type("I").unwrap_err(), CallError::BadSignature);
    assert_eq!(return_type("(I").unwrap_err(), CallError::BadSignature);
}

#[test]
fn static_call_needs_signature_and_class() {
    let mut table: ClassTable<u64> = ClassTable::new();
    table.insert(name("java/util/Random"), 1);
    table.insert(name("com/node/util/JNIHelper"), 2);

    let call = plan_static_call(&table, &name("com/node/util/JNIHelper"), "(Ljava/lang/Object;)D")
        .unwrap();
    assert_eq!(call.slot, 1);
    assert_eq!(call.ret, JavaType::Primitive(Primitive::Double));
    assert_eq!(*table.class_ref(call.slot), 2);

    assert_eq!(
        plan_static_call(&table, &name("com/node/util/JNIHelper"), "(").unwrap_err(),
        CallError::BadSignature
    );
    assert_eq!(
        plan_static_call(&table, &name("java/util/List"), "()V").unwrap_err(),
        CallError::UnknownClass
    );
    // The signature is looked at first.
    assert_eq!(
        plan_static_call(&table, &name("java/util/List"), "(").unwrap_err(),
        CallError::BadSignature
    );
}

#[test]
fn parsed_signature_decides_the_plan() {
    let mut table: ClassTable<u64> = ClassTable::new();
    table.insert(name("java/util/Random"), 1);
    let ok = resolve_static_call(
        &table,
        &name("java/util/Random"),
        Ok(JavaType::Primitive(Primitive::Int)),
    )
    .unwrap();
    assert_eq!(ok.slot, 0);
    assert_eq!(ok.ret, JavaType::Primitive(Primitive::Int));
    let missing = resolve_static_call(
        &table,
        &name("java/util/Map"),
        Ok(JavaType::Primitive(Primitive::Int)),
    );
    assert_eq!(missing.unwrap_err(), CallError::UnknownClass);
    let bad = resolve_static_call(
        &table,
        &name("java/util/Random"),
        Err(jni::errors::Error::from("no signature")),
    );
    assert_eq!(bad.unwrap_err(), CallError::BadSignature);
}

#[test]
fn unwrap_js_drops_the_error() {
    let ok: Result<i32, String> = Ok(5);
    let err: Result<i32, String> = Err(String::from("thrown"));
    assert_eq!(unwrap_js(ok), Some(5));
    assert_eq!(unwrap_js(err), None);
}

#[test]
fn arguments_are_read_by_their_tag() {
    let args = vec![
        value_t { data: data_t { i: 42, s: 0 }, t: 0 },
        value_t { data: data_t { i: 0, s: 0x7f00_1234 }, t: 3 },
        value_t { data: data_t { i: 7, s: 9 }, t: 1 },
        value_t { data: data_t { i: -1, s: -1 }, t: 255 },
    ];
    assert_eq!(args[0].decode(), Argument::Integer(42));
    assert_eq!(args[1].decode(), Argument::Text(0x7f00_1234));
    assert_eq!(
        decode_arguments(&args),
        vec![Argument::Integer(42), Argument::Text(0x7f00_1234), Argument::Null, Argument::Null]
    );
    assert!(decode_arguments(&Vec::new()).is_empty());
}

#[test]
fn answers_are_classified() {
    assert_eq!(classify_answer(0, false), Answer::IntValue);
    assert_eq!(classify_answer(1, false), Answer::LongValue);
    assert_eq!(classify_answer(2, false), Answer::DoubleValue);
    assert_eq!(classify_answer(3, false), Answer::Null);
    assert_eq!(classify_answer(200, false), Answer::Null);
    assert_eq!(classify_answer(0, true), Answer::Throw);
    assert_eq!(classify_answer(9, true), Answer::Throw);
}

#[test]
fn bitmap_info_starts_empty() {
    let info = AndroidBitmapInfo::new();
    assert_eq!(
        (info.width, info.height, info.stride, info.format, info.flags),
        (0, 0, 0, 0, 0)
    );
}
