use idl2json::document::{Document, Number};
use idl2json::idl2json::{
    convert_all, convert_one, idl2json, idl2json_with_weak_names, idl_args2json_with_weak_names,
    BytesFormat, Idl2JsonOptions,
};
use idl2json::json2idl::json2idl_with_type;
use idl2json::types::{Declaration, Field, Label, Prim, Type, TypeEnv};
use idl2json::value::{FieldValue, TypedValue};

fn s(text: &str) -> String {
    text.to_string()
}

fn field(name: &str, ty: Type) -> Field {
    Field { label: Label::Named(s(name)), ty }
}

fn value_field(name: &str, value: TypedValue) -> FieldValue {
    FieldValue { id: Label::Named(s(name)), value }
}

fn num(n: i128) -> Document {
    Document::Number(Number::Integer(n))
}

fn text(t: &str) -> Document {
    Document::Text(s(t))
}

fn object(entries: Vec<(&str, Document)>) -> Document {
    Document::Object(entries.into_iter().map(|(key, doc)| (s(key), doc)).collect())
}

fn prim(p: Prim) -> Type {
    Type::Prim(p)
}

fn options(bytes_as: Option<BytesFormat>) -> Idl2JsonOptions {
    Idl2JsonOptions { prog: TypeEnv::new(), bytes_as, compact: false }
}

fn options_with(decls: Vec<(&str, Type)>) -> Idl2JsonOptions {
    Idl2JsonOptions {
        prog: TypeEnv {
            decls: decls.into_iter().map(|(name, ty)| Declaration { name: s(name), ty }).collect(),
            service: None,
        },
        bytes_as: None,
        compact: false,
    }
}

fn bytes(values: &[u8]) -> TypedValue {
    TypedValue::Vector(values.iter().map(|b| TypedValue::Nat8(*b)).collect())
}

fn round_trip(ty: &Type, value: TypedValue, options: &Idl2JsonOptions) {
    let doc = idl2json_with_weak_names(&value, ty, options);
    assert_eq!(json2idl_with_type(&options.prog, ty, &doc), Ok(value));
}

#[test]
fn untyped_vector_of_numbers() {
    let value = TypedValue::Vector(vec![
        TypedValue::Number(s("1")),
        TypedValue::Number(s("2")),
        TypedValue::Number(s("3")),
    ]);
    let expected = Document::List(vec![num(1), num(2), num(3)]);
    assert_eq!(idl2json(&value, &options(None)), expected);
    assert_eq!(idl2json(&value, &options(Some(BytesFormat::Hex))), expected);
    assert_eq!(idl2json(&value, &options(Some(BytesFormat::Numbers))), expected);
}

#[test]
fn default_options() {
    let options = Idl2JsonOptions::default();
    assert_eq!(options.prog, TypeEnv::new());
    assert_eq!(options.bytes_as, None);
    assert!(!options.compact);
    assert!(!options.shows_hex());
    assert!(Idl2JsonOptions { bytes_as: Some(BytesFormat::Hex), ..options }.shows_hex());
}

#[test]
fn untyped_numbers_within_and_beyond_safe_precision() {
    let o = options(None);
    assert_eq!(idl2json(&TypedValue::Nat(s("9007199254740991")), &o), num(9007199254740991));
    assert_eq!(idl2json(&TypedValue::Nat(s("9007199254740992")), &o), text("9007199254740992"));
    assert_eq!(idl2json(&TypedValue::Int(s("-9007199254740991")), &o), num(-9007199254740991));
    assert_eq!(idl2json(&TypedValue::Int(s("-9007199254740992")), &o), text("-9007199254740992"));
    assert_eq!(idl2json(&TypedValue::Nat64(9007199254740991), &o), num(9007199254740991));
    assert_eq!(idl2json(&TypedValue::Nat64(9007199254740992), &o), text("9007199254740992"));
    assert_eq!(idl2json(&TypedValue::Nat64(u64::MAX), &o), text("18446744073709551615"));
    assert_eq!(idl2json(&TypedValue::Int64(i64::MIN), &o), text("-9223372036854775808"));
    assert_eq!(idl2json(&TypedValue::Int64(-5), &o), num(-5));
    assert_eq!(idl2json(&TypedValue::Nat32(u32::MAX), &o), num(4294967295));
    assert_eq!(idl2json(&TypedValue::Int8(-128), &o), num(-128));
    assert_eq!(idl2json(&TypedValue::Nat16(7), &o), num(7));
    assert_eq!(idl2json(&TypedValue::Int16(-7), &o), num(-7));
    assert_eq!(idl2json(&TypedValue::Int32(-7), &o), num(-7));
    assert_eq!(idl2json(&TypedValue::Nat8(7), &o), num(7));
}

#[test]
fn untyped_digits_that_are_not_canonical_stay_text() {
    let o = options(None);
    assert_eq!(idl2json(&TypedValue::Number(s("007")), &o), text("007"));
    assert_eq!(idl2json(&TypedValue::Number(s("-0")), &o), text("-0"));
    assert_eq!(idl2json(&TypedValue::Number(s("1_000")), &o), text("1_000"));
    assert_eq!(idl2json(&TypedValue::Number(s("")), &o), text(""));
    assert_eq!(idl2json(&TypedValue::Number(s("0")), &o), num(0));
    assert_eq!(idl2json(&TypedValue::Number(s("-12")), &o), num(-12));
}

#[test]
fn untyped_plain_values() {
    let o = options(None);
    assert_eq!(idl2json(&TypedValue::Null, &o), Document::Null);
    assert_eq!(idl2json(&TypedValue::Reserved, &o), Document::Null);
    assert_eq!(idl2json(&TypedValue::Absent, &o), Document::Null);
    assert_eq!(idl2json(&TypedValue::Bool(true), &o), Document::Bool(true));
    assert_eq!(idl2json(&TypedValue::Text(s("hi")), &o), text("hi"));
    assert_eq!(idl2json(&TypedValue::Principal(s("aaaaa-aa")), &o), text("aaaaa-aa"));
    assert_eq!(idl2json(&TypedValue::Service(s("aaaaa-aa")), &o), text("aaaaa-aa"));
    assert_eq!(
        idl2json(&TypedValue::Func(s("aaaaa-aa"), s("greet")), &o),
        object(vec![("principal", text("aaaaa-aa")), ("method", text("greet"))])
    );
    let half = Number::Real(0x3fe0000000000000);
    assert_eq!(idl2json(&TypedValue::Float64(half), &o), Document::Number(half));
    assert_eq!(idl2json(&TypedValue::Float32(Number::Integer(2)), &o), num(2));
    assert_eq!(idl2json(&TypedValue::Opt(Box::new(TypedValue::Nat8(1))), &o), num(1));
}

#[test]
fn untyped_record_and_variant() {
    let o = options(None);
    let record = TypedValue::Record(vec![
        value_field("name", TypedValue::Text(s("Al"))),
        FieldValue { id: Label::Id(4846783), value: TypedValue::Nat8(30) },
    ]);
    assert_eq!(
        idl2json(&record, &o),
        object(vec![("name", text("Al")), ("4846783", num(30))])
    );
    let variant = TypedValue::Variant(Box::new(value_field("ok", TypedValue::Null)));
    assert_eq!(idl2json(&variant, &o), object(vec![("ok", Document::Null)]));
}

#[test]
fn untyped_bytes() {
    let value = bytes(&[0, 171, 255]);
    assert_eq!(
        idl2json(&value, &options(None)),
        Document::List(vec![num(0), num(171), num(255)])
    );
    assert_eq!(
        idl2json(&value, &options(Some(BytesFormat::Numbers))),
        Document::List(vec![num(0), num(171), num(255)])
    );
    assert_eq!(idl2json(&value, &options(Some(BytesFormat::Hex))), text("00abff"));
    assert_eq!(
        idl2json(&TypedValue::Vector(vec![]), &options(Some(BytesFormat::Hex))),
        Document::List(vec![])
    );
    let mixed = TypedValue::Vector(vec![TypedValue::Nat8(1), TypedValue::Nat16(2)]);
    assert_eq!(
        idl2json(&mixed, &options(Some(BytesFormat::Hex))),
        Document::List(vec![num(1), num(2)])
    );
}

#[test]
fn typed_record_takes_the_declared_names() {
    let ty = Type::Record(vec![field("name", prim(Prim::Text)), field("age", prim(Prim::Nat))]);
    let value = TypedValue::Record(vec![
        FieldValue { id: Label::Id(4846783), value: TypedValue::Nat(s("30")) },
        FieldValue { id: Label::Id(1224700491), value: TypedValue::Text(s("Al")) },
        FieldValue { id: Label::Id(5), value: TypedValue::Bool(true) },
    ]);
    assert_eq!(
        idl2json_with_weak_names(&value, &ty, &options(None)),
        object(vec![("age", num(30)), ("name", text("Al")), ("5", Document::Bool(true))])
    );
}

#[test]
fn typed_variant_takes_the_declared_name() {
    let ty = Type::Variant(vec![field("ok", prim(Prim::Nat64)), field("err", prim(Prim::Text))]);
    let value = TypedValue::Variant(Box::new(FieldValue {
        id: Label::Id(24860),
        value: TypedValue::Nat64(u64::MAX),
    }));
    assert_eq!(
        idl2json_with_weak_names(&value, &ty, &options(None)),
        object(vec![("ok", num(18446744073709551615))])
    );
}

#[test]
fn typed_sixty_four_bit_integers_are_numbers() {
    let o = options(None);
    assert_eq!(
        idl2json_with_weak_names(&TypedValue::Nat64(u64::MAX), &prim(Prim::Nat64), &o),
        num(18446744073709551615)
    );
    assert_eq!(
        idl2json_with_weak_names(&TypedValue::Int64(i64::MIN), &prim(Prim::Int64), &o),
        num(-9223372036854775808)
    );
    assert_eq!(
        idl2json_with_weak_names(&TypedValue::Nat64(u64::MAX), &prim(Prim::Text), &o),
        text("18446744073709551615")
    );
}

#[test]
fn typed_bytes() {
    let ty = Type::Vector(Box::new(prim(Prim::Nat8)));
    let hex = options(Some(BytesFormat::Hex));
    assert_eq!(idl2json_with_weak_names(&bytes(&[1, 2]), &ty, &hex), text("0102"));
    assert_eq!(idl2json_with_weak_names(&bytes(&[]), &ty, &hex), text(""));
    assert_eq!(
        idl2json_with_weak_names(&bytes(&[1, 2]), &ty, &options(None)),
        Document::List(vec![num(1), num(2)])
    );
    let wider = Type::Vector(Box::new(prim(Prim::Nat16)));
    assert_eq!(
        idl2json_with_weak_names(&bytes(&[1, 2]), &wider, &hex),
        Document::List(vec![num(1), num(2)])
    );
}

#[test]
fn typed_value_that_does_not_fit_is_shown_by_its_shape() {
    let ty = Type::Record(vec![field("name", prim(Prim::Text))]);
    let o = options(None);
    assert_eq!(idl2json_with_weak_names(&TypedValue::Nat8(1), &ty, &o), num(1));
    assert_eq!(
        idl2json_with_weak_names(&TypedValue::Bool(false), &Type::Named(s("Nowhere")), &o),
        Document::Bool(false)
    );
    let looped = options_with(vec![("T", Type::Named(s("T")))]);
    assert_eq!(
        idl2json_with_weak_names(&TypedValue::Nat64(u64::MAX), &Type::Named(s("T")), &looped),
        text("18446744073709551615")
    );
}

#[test]
fn typed_through_a_name() {
    let o = options_with(vec![("Big", prim(Prim::Nat64))]);
    assert_eq!(
        idl2json_with_weak_names(&TypedValue::Nat64(u64::MAX), &Type::Named(s("Big")), &o),
        num(18446744073709551615)
    );
}

#[test]
fn round_trip_of_primitives() {
    let o = options(None);
    round_trip(&prim(Prim::Nat), TypedValue::Nat(s("30")), &o);
    round_trip(&prim(Prim::Nat), TypedValue::Nat(s("9007199254740992")), &o);
    round_trip(&prim(Prim::Nat), TypedValue::Nat(s("340282366920938463463374607431768211456")), &o);
    round_trip(&prim(Prim::Int), TypedValue::Int(s("-9007199254740993")), &o);
    round_trip(&prim(Prim::Int), TypedValue::Int(s("-1")), &o);
    round_trip(&prim(Prim::Nat64), TypedValue::Nat64(u64::MAX), &o);
    round_trip(&prim(Prim::Int64), TypedValue::Int64(i64::MIN), &o);
    round_trip(&prim(Prim::Nat8), TypedValue::Nat8(255), &o);
    round_trip(&prim(Prim::Int32), TypedValue::Int32(-1), &o);
    round_trip(&prim(Prim::Float64), TypedValue::Float64(Number::Real(0x7ff8000000000000)), &o);
    round_trip(&prim(Prim::Text), TypedValue::Text(s("")), &o);
    round_trip(&prim(Prim::Bool), TypedValue::Bool(false), &o);
    round_trip(&prim(Prim::Null), TypedValue::Null, &o);
    round_trip(&prim(Prim::Reserved), TypedValue::Reserved, &o);
    round_trip(&Type::Principal, TypedValue::Principal(s("aaaaa-aa")), &o);
    round_trip(&Type::Service, TypedValue::Service(s("aaaaa-aa")), &o);
    round_trip(&Type::Func, TypedValue::Func(s("aaaaa-aa"), s("greet")), &o);
}

#[test]
fn round_trip_of_containers() {
    let person = Type::Record(vec![
        field("name", prim(Prim::Text)),
        field("age", Type::Opt(Box::new(prim(Prim::Nat)))),
        field("tags", Type::Vector(Box::new(Type::Named(s("Tag"))))),
        field("key", Type::Vector(Box::new(prim(Prim::Nat8)))),
    ]);
    let tag = || {
        Type::Variant(vec![field("plain", prim(Prim::Null)), field("weight", prim(Prim::Int64))])
    };
    let value = || {
        TypedValue::Record(vec![
            value_field("name", TypedValue::Text(s("Al"))),
            value_field("age", TypedValue::Opt(Box::new(TypedValue::Nat(s("30"))))),
            value_field(
                "tags",
                TypedValue::Vector(vec![
                    TypedValue::Variant(Box::new(value_field("plain", TypedValue::Null))),
                    TypedValue::Variant(Box::new(value_field(
                        "weight",
                        TypedValue::Int64(i64::MIN),
                    ))),
                ]),
            ),
            value_field("key", bytes(&[222, 173, 190, 239])),
        ])
    };
    for bytes_as in [None, Some(BytesFormat::Numbers), Some(BytesFormat::Hex)] {
        let o = Idl2JsonOptions {
            prog: TypeEnv { decls: vec![Declaration { name: s("Tag"), ty: tag() }], service: None },
            bytes_as,
            compact: true,
        };
        round_trip(&person, value(), &o);
    }
}

#[test]
fn option_that_holds_a_null_does_not_come_back() {
    let ty = Type::Opt(Box::new(Type::Opt(Box::new(prim(Prim::Nat)))));
    let value = TypedValue::Opt(Box::new(TypedValue::Absent));
    let o = options(None);
    let doc = idl2json_with_weak_names(&value, &ty, &o);
    assert_eq!(doc, Document::Null);
    assert_eq!(json2idl_with_type(&o.prog, &ty, &doc), Ok(TypedValue::Absent));
}

#[test]
fn arguments_are_shown_one_by_one() {
    let values =
        vec![TypedValue::Nat64(u64::MAX), TypedValue::Nat64(u64::MAX), TypedValue::Bool(true)];
    let types = vec![prim(Prim::Nat64)];
    assert_eq!(
        idl_args2json_with_weak_names(&values, &types, &options(None)),
        vec![num(18446744073709551615), text("18446744073709551615"), Document::Bool(true)]
    );
    assert_eq!(idl_args2json_with_weak_names(&vec![], &types, &options(None)), vec![]);
}

#[test]
fn all_values_by_one_type_or_by_none() {
    let values = vec![TypedValue::Nat64(u64::MAX), TypedValue::Nat8(1)];
    let o = options(None);
    assert_eq!(
        convert_all(&values, Some(&prim(Prim::Nat64)), &o),
        vec![num(18446744073709551615), num(1)]
    );
    assert_eq!(
        convert_all(&values, None, &o),
        vec![text("18446744073709551615"), num(1)]
    );
    assert_eq!(convert_one(&values[0], None, &o), text("18446744073709551615"));
    assert_eq!(convert_one(&values[0], Some(&prim(Prim::Nat64)), &o), num(18446744073709551615));
}
