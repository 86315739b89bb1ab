use idl2json::document::{Document, Number};
use idl2json::error::{ConversionError, ErrorKind, Step};
use idl2json::json2idl::{
    convert_with_budget, json2idl_with_type, json2idl_with_type_name,
    json2idl_with_type_strictly, json_args2idl_with_types, method_value, principal_value,
    service_value,
};
use idl2json::types::{Declaration, Field, Label, Prim, Service, Type, TypeEnv};
use idl2json::value::{FieldValue, TypedValue};

fn s(text: &str) -> String {
    text.to_string()
}

fn field(name: &str, ty: Type) -> Field {
    Field { label: Label::Named(s(name)), ty }
}

fn value_field(name: &str, value: TypedValue) -> FieldValue {
    FieldValue { id: Label::Named(s(name)), value }
}

fn num(n: i128) -> Document {
    Document::Number(Number::Integer(n))
}

fn text(t: &str) -> Document {
    Document::Text(s(t))
}

fn object(entries: Vec<(&str, Document)>) -> Document {
    Document::Object(entries.into_iter().map(|(key, doc)| (s(key), doc)).collect())
}

fn failure(kind: ErrorKind) -> ConversionError {
    ConversionError { kind, path: vec![] }
}

fn prim(p: Prim) -> Type {
    Type::Prim(p)
}

fn env_of(decls: Vec<(&str, Type)>) -> TypeEnv {
    TypeEnv {
        decls: decls.into_iter().map(|(name, ty)| Declaration { name: s(name), ty }).collect(),
        service: None,
    }
}

fn person() -> Type {
    Type::Record(vec![field("name", prim(Prim::Text)), field("age", prim(Prim::Nat))])
}

fn outcome() -> Type {
    Type::Variant(vec![field("ok", prim(Prim::Text)), field("err", prim(Prim::Text))])
}

#[test]
fn record_from_object() {
    let doc = object(vec![("name", text("Al")), ("age", num(30))]);
    assert_eq!(
        json2idl_with_type(&TypeEnv::new(), &person(), &doc),
        Ok(TypedValue::Record(vec![
            value_field("name", TypedValue::Text(s("Al"))),
            value_field("age", TypedValue::Nat(s("30"))),
        ]))
    );
}

#[test]
fn record_fields_come_in_declared_order() {
    let doc = object(vec![("age", num(30)), ("extra", Document::Null), ("name", text("Al"))]);
    assert_eq!(
        json2idl_with_type(&TypeEnv::new(), &person(), &doc),
        Ok(TypedValue::Record(vec![
            value_field("name", TypedValue::Text(s("Al"))),
            value_field("age", TypedValue::Nat(s("30"))),
        ]))
    );
}

#[test]
fn record_without_required_field() {
    let doc = object(vec![("name", text("Al"))]);
    assert_eq!(
        json2idl_with_type(&TypeEnv::new(), &person(), &doc),
        Err(failure(ErrorKind::MissingField(s("age"))))
    );
}

#[test]
fn missing_field_goes_before_a_bad_field() {
    let doc = object(vec![("name", num(1))]);
    assert_eq!(
        json2idl_with_type(&TypeEnv::new(), &person(), &doc),
        Err(failure(ErrorKind::MissingField(s("age"))))
    );
}

#[test]
fn record_without_optional_field() {
    let ty = Type::Record(vec![
        field("name", prim(Prim::Text)),
        field("nick", Type::Opt(Box::new(prim(Prim::Text)))),
        field("alias", Type::Named(s("MaybeText"))),
    ]);
    let env = env_of(vec![("MaybeText", Type::Opt(Box::new(prim(Prim::Text))))]);
    let doc = object(vec![("name", text("Al"))]);
    assert_eq!(
        json2idl_with_type(&env, &ty, &doc),
        Ok(TypedValue::Record(vec![
            value_field("name", TypedValue::Text(s("Al"))),
            value_field("nick", TypedValue::Absent),
            value_field("alias", TypedValue::Absent),
        ]))
    );
}

#[test]
fn record_field_failure_names_the_field() {
    let doc = object(vec![("name", text("Al")), ("age", text("old"))]);
    assert_eq!(
        json2idl_with_type(&TypeEnv::new(), &person(), &doc),
        Err(ConversionError { kind: ErrorKind::TypeMismatch, path: vec![Step::Field(s("age"))] })
    );
}

#[test]
fn record_from_something_else() {
    assert_eq!(
        json2idl_with_type(&TypeEnv::new(), &person(), &Document::List(vec![])),
        Err(failure(ErrorKind::TypeMismatch))
    );
}

#[test]
fn record_field_by_number() {
    let ty = Type::Record(vec![Field { label: Label::Id(7), ty: prim(Prim::Bool) }]);
    let doc = object(vec![("7", Document::Bool(true))]);
    assert_eq!(
        json2idl_with_type(&TypeEnv::new(), &ty, &doc),
        Ok(TypedValue::Record(vec![FieldValue {
            id: Label::Id(7),
            value: TypedValue::Bool(true)
        }]))
    );
}

#[test]
fn option_from_null_number_and_text() {
    let ty = Type::Opt(Box::new(prim(Prim::Nat)));
    let env = TypeEnv::new();
    assert_eq!(json2idl_with_type(&env, &ty, &Document::Null), Ok(TypedValue::Absent));
    assert_eq!(
        json2idl_with_type(&env, &ty, &num(5)),
        Ok(TypedValue::Opt(Box::new(TypedValue::Nat(s("5")))))
    );
    assert_eq!(json2idl_with_type(&env, &ty, &text("x")), Err(failure(ErrorKind::TypeMismatch)));
}

#[test]
fn variant_from_object() {
    let doc = object(vec![("ok", text("done"))]);
    assert_eq!(
        json2idl_with_type(&TypeEnv::new(), &outcome(), &doc),
        Ok(TypedValue::Variant(Box::new(value_field("ok", TypedValue::Text(s("done"))))))
    );
}

#[test]
fn variant_with_unknown_key() {
    let doc = object(vec![("bad", text("x"))]);
    assert_eq!(
        json2idl_with_type(&TypeEnv::new(), &outcome(), &doc),
        Err(failure(ErrorKind::UnknownVariant(s("bad"))))
    );
}

#[test]
fn variant_needs_exactly_one_key() {
    let env = TypeEnv::new();
    let two = object(vec![("ok", text("a")), ("err", text("b"))]);
    assert_eq!(json2idl_with_type(&env, &outcome(), &two), Err(failure(ErrorKind::TypeMismatch)));
    assert_eq!(
        json2idl_with_type(&env, &outcome(), &object(vec![])),
        Err(failure(ErrorKind::TypeMismatch))
    );
    assert_eq!(
        json2idl_with_type(&env, &outcome(), &text("ok")),
        Err(failure(ErrorKind::TypeMismatch))
    );
}

#[test]
fn variant_payload_failure_names_the_alternative() {
    let doc = object(vec![("ok", num(1))]);
    assert_eq!(
        json2idl_with_type(&TypeEnv::new(), &outcome(), &doc),
        Err(ConversionError {
            kind: ErrorKind::TypeMismatch,
            path: vec![Step::Alternative(s("ok"))]
        })
    );
}

#[test]
fn vector_keeps_order() {
    let ty = Type::Vector(Box::new(prim(Prim::Int16)));
    let doc = Document::List(vec![num(3), num(-1), num(2)]);
    assert_eq!(
        json2idl_with_type(&TypeEnv::new(), &ty, &doc),
        Ok(TypedValue::Vector(vec![
            TypedValue::Int16(3),
            TypedValue::Int16(-1),
            TypedValue::Int16(2)
        ]))
    );
}

#[test]
fn vector_element_failure_names_the_index() {
    let ty = Type::Vector(Box::new(prim(Prim::Nat8)));
    let doc = Document::List(vec![num(1), num(256), text("x")]);
    assert_eq!(
        json2idl_with_type(&TypeEnv::new(), &ty, &doc),
        Err(ConversionError { kind: ErrorKind::OutOfRange, path: vec![Step::Element(1)] })
    );
}

#[test]
fn failure_path_runs_from_the_inside_out() {
    let ty = Type::Record(vec![field("items", Type::Vector(Box::new(outcome())))]);
    let doc = object(vec![(
        "items",
        Document::List(vec![object(vec![("ok", text("fine"))]), object(vec![("err", num(0))])]),
    )]);
    assert_eq!(
        json2idl_with_type(&TypeEnv::new(), &ty, &doc),
        Err(ConversionError {
            kind: ErrorKind::TypeMismatch,
            path: vec![Step::Alternative(s("err")), Step::Element(1), Step::Field(s("items"))]
        })
    );
}

#[test]
fn bytes_from_list_and_from_hex() {
    let ty = Type::Vector(Box::new(prim(Prim::Nat8)));
    let env = TypeEnv::new();
    let bytes = Ok(TypedValue::Vector(vec![
        TypedValue::Nat8(0),
        TypedValue::Nat8(171),
        TypedValue::Nat8(255),
    ]));
    let list = Document::List(vec![num(0), num(171), num(255)]);
    assert_eq!(json2idl_with_type(&env, &ty, &list), bytes);
    assert_eq!(json2idl_with_type(&env, &ty, &text("00abff")), bytes);
    assert_eq!(json2idl_with_type(&env, &ty, &text("00ABfF")), bytes);
    assert_eq!(json2idl_with_type(&env, &ty, &text("")), Ok(TypedValue::Vector(vec![])));
    assert_eq!(json2idl_with_type(&env, &ty, &text("0")), Err(failure(ErrorKind::TypeMismatch)));
    assert_eq!(json2idl_with_type(&env, &ty, &text("0g")), Err(failure(ErrorKind::TypeMismatch)));
}

#[test]
fn hex_text_is_for_bytes_only() {
    let ty = Type::Vector(Box::new(prim(Prim::Nat16)));
    assert_eq!(
        json2idl_with_type(&TypeEnv::new(), &ty, &text("00ab")),
        Err(failure(ErrorKind::TypeMismatch))
    );
}

#[test]
fn fixed_width_integers_at_their_bounds() {
    let env = TypeEnv::new();
    let cases: Vec<(Prim, i128, Result<TypedValue, ConversionError>)> = vec![
        (Prim::Nat8, 255, Ok(TypedValue::Nat8(255))),
        (Prim::Nat8, 256, Err(failure(ErrorKind::OutOfRange))),
        (Prim::Nat8, -1, Err(failure(ErrorKind::OutOfRange))),
        (Prim::Nat16, 65535, Ok(TypedValue::Nat16(65535))),
        (Prim::Nat16, 65536, Err(failure(ErrorKind::OutOfRange))),
        (Prim::Nat32, 4294967295, Ok(TypedValue::Nat32(4294967295))),
        (Prim::Nat32, 4294967296, Err(failure(ErrorKind::OutOfRange))),
        (Prim::Nat64, 18446744073709551615, Ok(TypedValue::Nat64(18446744073709551615))),
        (Prim::Nat64, 18446744073709551616, Err(failure(ErrorKind::OutOfRange))),
        (Prim::Int8, -128, Ok(TypedValue::Int8(-128))),
        (Prim::Int8, 128, Err(failure(ErrorKind::OutOfRange))),
        (Prim::Int8, -129, Err(failure(ErrorKind::OutOfRange))),
        (Prim::Int16, -32768, Ok(TypedValue::Int16(-32768))),
        (Prim::Int16, 32768, Err(failure(ErrorKind::OutOfRange))),
        (Prim::Int32, 2147483647, Ok(TypedValue::Int32(2147483647))),
        (Prim::Int32, -2147483649, Err(failure(ErrorKind::OutOfRange))),
        (Prim::Int64, -9223372036854775808, Ok(TypedValue::Int64(-9223372036854775808))),
        (Prim::Int64, 9223372036854775808, Err(failure(ErrorKind::OutOfRange))),
    ];
    for (p, n, expected) in cases {
        assert_eq!(json2idl_with_type(&env, &prim(p), &num(n)), expected);
    }
}

#[test]
fn fixed_width_integers_take_numbers_only() {
    let env = TypeEnv::new();
    assert_eq!(
        json2idl_with_type(&env, &prim(Prim::Nat32), &text("7")),
        Err(failure(ErrorKind::TypeMismatch))
    );
    assert_eq!(
        json2idl_with_type(&env, &prim(Prim::Nat32), &Document::Number(Number::Real(0))),
        Err(failure(ErrorKind::TypeMismatch))
    );
}

#[test]
fn nat_from_number_and_from_digits() {
    let env = TypeEnv::new();
    let nat = prim(Prim::Nat);
    assert_eq!(json2idl_with_type(&env, &nat, &num(0)), Ok(TypedValue::Nat(s("0"))));
    assert_eq!(
        json2idl_with_type(&env, &nat, &num(170141183460469231731687303715884105727)),
        Ok(TypedValue::Nat(s("170141183460469231731687303715884105727")))
    );
    assert_eq!(json2idl_with_type(&env, &nat, &num(-1)), Err(failure(ErrorKind::OutOfRange)));
    assert_eq!(
        json2idl_with_type(&env, &nat, &text("123456789012345678901234567890123456789012")),
        Ok(TypedValue::Nat(s("123456789012345678901234567890123456789012")))
    );
    assert_eq!(json2idl_with_type(&env, &nat, &text("0042")), Ok(TypedValue::Nat(s("42"))));
    assert_eq!(json2idl_with_type(&env, &nat, &text("000")), Ok(TypedValue::Nat(s("0"))));
    assert_eq!(json2idl_with_type(&env, &nat, &text("")), Err(failure(ErrorKind::TypeMismatch)));
    assert_eq!(json2idl_with_type(&env, &nat, &text("-1")), Err(failure(ErrorKind::TypeMismatch)));
    assert_eq!(json2idl_with_type(&env, &nat, &text("1e3")), Err(failure(ErrorKind::TypeMismatch)));
    assert_eq!(
        json2idl_with_type(&env, &nat, &Document::Bool(true)),
        Err(failure(ErrorKind::TypeMismatch))
    );
}

#[test]
fn int_from_number_and_from_digits() {
    let env = TypeEnv::new();
    let ty = prim(Prim::Int);
    assert_eq!(json2idl_with_type(&env, &ty, &num(-30)), Ok(TypedValue::Int(s("-30"))));
    assert_eq!(
        json2idl_with_type(&env, &ty, &num(-170141183460469231731687303715884105728)),
        Ok(TypedValue::Int(s("-170141183460469231731687303715884105728")))
    );
    assert_eq!(
        json2idl_with_type(&env, &ty, &text("-00123456789012345678901234567890")),
        Ok(TypedValue::Int(s("-123456789012345678901234567890")))
    );
    assert_eq!(json2idl_with_type(&env, &ty, &text("-0")), Ok(TypedValue::Int(s("0"))));
    assert_eq!(json2idl_with_type(&env, &ty, &text("17")), Ok(TypedValue::Int(s("17"))));
    assert_eq!(json2idl_with_type(&env, &ty, &text("-")), Err(failure(ErrorKind::TypeMismatch)));
    assert_eq!(json2idl_with_type(&env, &ty, &text("+1")), Err(failure(ErrorKind::TypeMismatch)));
}

#[test]
fn floats_keep_the_number() {
    let env = TypeEnv::new();
    let half = Number::Real(0x3fe0000000000000);
    assert_eq!(
        json2idl_with_type(&env, &prim(Prim::Float64), &Document::Number(half)),
        Ok(TypedValue::Float64(half))
    );
    assert_eq!(
        json2idl_with_type(&env, &prim(Prim::Float32), &num(3)),
        Ok(TypedValue::Float32(Number::Integer(3)))
    );
    assert_eq!(
        json2idl_with_type(&env, &prim(Prim::Float64), &text("1.5")),
        Err(failure(ErrorKind::TypeMismatch))
    );
}

#[test]
fn plain_primitives() {
    let env = TypeEnv::new();
    assert_eq!(
        json2idl_with_type(&env, &prim(Prim::Bool), &Document::Bool(true)),
        Ok(TypedValue::Bool(true))
    );
    assert_eq!(
        json2idl_with_type(&env, &prim(Prim::Bool), &num(1)),
        Err(failure(ErrorKind::TypeMismatch))
    );
    assert_eq!(
        json2idl_with_type(&env, &prim(Prim::Text), &text("hi")),
        Ok(TypedValue::Text(s("hi")))
    );
    assert_eq!(
        json2idl_with_type(&env, &prim(Prim::Text), &Document::Null),
        Err(failure(ErrorKind::TypeMismatch))
    );
    assert_eq!(json2idl_with_type(&env, &prim(Prim::Null), &Document::Null), Ok(TypedValue::Null));
    assert_eq!(
        json2idl_with_type(&env, &prim(Prim::Null), &num(0)),
        Err(failure(ErrorKind::TypeMismatch))
    );
    assert_eq!(json2idl_with_type(&env, &prim(Prim::Reserved), &num(0)), Ok(TypedValue::Reserved));
    assert_eq!(
        json2idl_with_type(&env, &prim(Prim::Empty), &Document::Null),
        Err(failure(ErrorKind::TypeMismatch))
    );
}

#[test]
fn references() {
    let env = TypeEnv::new();
    assert_eq!(
        json2idl_with_type(&env, &Type::Principal, &text("aaaaa-aa")),
        Ok(TypedValue::Principal(s("aaaaa-aa")))
    );
    assert_eq!(
        json2idl_with_type(&env, &Type::Service, &text("aaaaa-aa")),
        Ok(TypedValue::Service(s("aaaaa-aa")))
    );
    assert_eq!(
        json2idl_with_type(&env, &Type::Principal, &num(1)),
        Err(failure(ErrorKind::TypeMismatch))
    );
    assert_eq!(
        json2idl_with_type(&env, &Type::Principal, &text("2vxsx-fae")),
        Ok(TypedValue::Principal(s("2vxsx-fae")))
    );
    assert_eq!(
        json2idl_with_type(&env, &Type::Principal, &text("RYJL3-TYAAA-AAAAA-AAABA-CAI")),
        Ok(TypedValue::Principal(s("RYJL3-TYAAA-AAAAA-AAABA-CAI")))
    );
    for bad in ["", "aaaaa-ab", "aaaaaaa", "2vxsx-fa", "not a principal", "aaaaa_aa"] {
        assert_eq!(
            json2idl_with_type(&env, &Type::Principal, &text(bad)),
            Err(failure(ErrorKind::TypeMismatch))
        );
        assert_eq!(
            json2idl_with_type(&env, &Type::Service, &text(bad)),
            Err(failure(ErrorKind::TypeMismatch))
        );
        assert_eq!(
            json2idl_with_type(
                &env,
                &Type::Func,
                &object(vec![("principal", text(bad)), ("method", text("greet"))])
            ),
            Err(failure(ErrorKind::TypeMismatch))
        );
    }
    let func = object(vec![("method", text("greet")), ("principal", text("aaaaa-aa"))]);
    assert_eq!(
        json2idl_with_type(&env, &Type::Func, &func),
        Ok(TypedValue::Func(s("aaaaa-aa"), s("greet")))
    );
    assert_eq!(
        json2idl_with_type(&env, &Type::Func, &object(vec![("principal", text("aaaaa-aa"))])),
        Err(failure(ErrorKind::TypeMismatch))
    );
    assert_eq!(
        json2idl_with_type(&env, &Type::Func, &text("aaaaa-aa")),
        Err(failure(ErrorKind::TypeMismatch))
    );
}

#[test]
fn named_type_is_looked_up() {
    let env = env_of(vec![("Age", prim(Prim::Nat8)), ("Person", person())]);
    assert_eq!(json2idl_with_type_name(&env, "Age", &num(30)), Ok(TypedValue::Nat8(30)));
    assert_eq!(
        json2idl_with_type(&env, &Type::Named(s("Age")), &num(30)),
        Ok(TypedValue::Nat8(30))
    );
}

#[test]
fn named_type_lookup_is_exact() {
    let env = env_of(vec![("Age", prim(Prim::Nat8))]);
    assert_eq!(
        json2idl_with_type_name(&env, "age", &num(30)),
        Err(failure(ErrorKind::UnknownType(s("age"))))
    );
    assert_eq!(
        json2idl_with_type_name(&TypeEnv::new(), "Age", &num(30)),
        Err(failure(ErrorKind::UnknownType(s("Age"))))
    );
}

#[test]
fn first_declaration_of_a_name_counts() {
    let env = env_of(vec![("T", prim(Prim::Nat8)), ("T", prim(Prim::Text))]);
    assert_eq!(json2idl_with_type_name(&env, "T", &num(1)), Ok(TypedValue::Nat8(1)));
}

#[test]
fn names_that_lead_back_to_themselves() {
    let env = env_of(vec![("A", Type::Named(s("B"))), ("B", Type::Named(s("A")))]);
    assert!(matches!(
        json2idl_with_type_name(&env, "A", &num(1)),
        Err(ConversionError { kind: ErrorKind::CyclicType(_), .. })
    ));
    let looped = env_of(vec![("T", Type::Opt(Box::new(Type::Named(s("T")))))]);
    assert_eq!(json2idl_with_type_name(&looped, "T", &Document::Null), Ok(TypedValue::Absent));
    assert_eq!(
        json2idl_with_type_name(&looped, "T", &num(1)),
        Err(failure(ErrorKind::CyclicType(s("T"))))
    );
}

#[test]
fn chain_of_names_as_long_as_the_declarations() {
    let env = env_of(vec![
        ("A", Type::Named(s("B"))),
        ("B", Type::Named(s("C"))),
        ("C", prim(Prim::Bool)),
    ]);
    assert_eq!(
        json2idl_with_type_name(&env, "A", &Document::Bool(false)),
        Ok(TypedValue::Bool(false))
    );
    assert_eq!(
        convert_with_budget(&env, &Type::Named(s("A")), &Document::Bool(false), 2, false),
        Err(failure(ErrorKind::CyclicType(s("C"))))
    );
}

#[test]
fn recursive_type_through_a_record() {
    let list = Type::Opt(Box::new(Type::Record(vec![
        field("head", prim(Prim::Nat8)),
        field("tail", Type::Named(s("List"))),
    ])));
    let env = env_of(vec![("List", list)]);
    let doc = object(vec![
        ("head", num(1)),
        ("tail", object(vec![("head", num(2)), ("tail", Document::Null)])),
    ]);
    let inner = TypedValue::Opt(Box::new(TypedValue::Record(vec![
        value_field("head", TypedValue::Nat8(2)),
        value_field("tail", TypedValue::Absent),
    ])));
    assert_eq!(
        json2idl_with_type_name(&env, "List", &doc),
        Ok(TypedValue::Opt(Box::new(TypedValue::Record(vec![
            value_field("head", TypedValue::Nat8(1)),
            value_field("tail", inner),
        ]))))
    );
}

#[test]
fn argument_list_by_position() {
    let types = vec![prim(Prim::Text), prim(Prim::Nat8)];
    let doc = Document::List(vec![text("a"), num(2)]);
    assert_eq!(
        json_args2idl_with_types(&TypeEnv::new(), &types, &doc),
        Ok(vec![TypedValue::Text(s("a")), TypedValue::Nat8(2)])
    );
    assert_eq!(
        json_args2idl_with_types(&TypeEnv::new(), &vec![], &Document::List(vec![])),
        Ok(vec![])
    );
}

#[test]
fn argument_list_of_the_wrong_length() {
    let types = vec![prim(Prim::Text), prim(Prim::Nat8)];
    let env = TypeEnv::new();
    assert_eq!(
        json_args2idl_with_types(&env, &types, &Document::List(vec![text("a")])),
        Err(failure(ErrorKind::ArityMismatch { expected: 2, found: Some(1) }))
    );
    assert_eq!(
        json_args2idl_with_types(&env, &types, &Document::List(vec![text("a"), num(2), num(3)])),
        Err(failure(ErrorKind::ArityMismatch { expected: 2, found: Some(3) }))
    );
    assert_eq!(
        json_args2idl_with_types(&env, &types, &object(vec![])),
        Err(failure(ErrorKind::ArityMismatch { expected: 2, found: None }))
    );
}

#[test]
fn argument_failure_names_the_position() {
    let types = vec![prim(Prim::Text), prim(Prim::Nat8), prim(Prim::Bool)];
    let doc = Document::List(vec![text("a"), num(300), num(0)]);
    assert_eq!(
        json_args2idl_with_types(&TypeEnv::new(), &types, &doc),
        Err(ConversionError { kind: ErrorKind::OutOfRange, path: vec![Step::Argument(1)] })
    );
}

#[test]
fn arguments_do_not_depend_on_their_siblings() {
    let types = vec![prim(Prim::Text), prim(Prim::Nat8)];
    let env = TypeEnv::new();
    let first = json_args2idl_with_types(&env, &types, &Document::List(vec![text("a"), num(2)]));
    let second = json_args2idl_with_types(&env, &types, &Document::List(vec![text("b"), num(2)]));
    assert_eq!(first.unwrap()[1], TypedValue::Nat8(2));
    assert_eq!(second.unwrap()[1], json2idl_with_type(&env, &types[1], &num(2)).unwrap());
}

#[test]
fn init_arguments_of_a_service() {
    let with_init = TypeEnv {
        decls: vec![],
        service: Some(Service { init_args: Some(vec![prim(Prim::Nat8)]), methods: vec![] }),
    };
    assert_eq!(with_init.get_init_arg_type(), Ok(&vec![prim(Prim::Nat8)]));
    let without_init =
        TypeEnv { decls: vec![], service: Some(Service { init_args: None, methods: vec![] }) };
    assert_eq!(without_init.get_init_arg_type(), Err(failure(ErrorKind::NoInitArgs)));
    assert_eq!(TypeEnv::new().get_init_arg_type(), Err(failure(ErrorKind::NoInitArgs)));
}

#[test]
fn references_once_the_text_is_judged() {
    assert_eq!(principal_value(&s("x"), true), Ok(TypedValue::Principal(s("x"))));
    assert_eq!(principal_value(&s("x"), false), Err(failure(ErrorKind::TypeMismatch)));
    assert_eq!(service_value(&s("x"), true), Ok(TypedValue::Service(s("x"))));
    assert_eq!(service_value(&s("x"), false), Err(failure(ErrorKind::TypeMismatch)));
    assert_eq!(method_value(&s("x"), &s("m"), true), Ok(TypedValue::Func(s("x"), s("m"))));
    assert_eq!(method_value(&s("x"), &s("m"), false), Err(failure(ErrorKind::TypeMismatch)));
}

#[test]
fn keys_that_are_not_declared_are_rejected_on_demand() {
    let env = TypeEnv::new();
    let doc = object(vec![("age", num(30)), ("extra", Document::Null), ("name", text("Al"))]);
    assert_eq!(
        json2idl_with_type_strictly(&env, &person(), &doc),
        Err(failure(ErrorKind::UnexpectedField(s("extra"))))
    );
    let exact = object(vec![("age", num(30)), ("name", text("Al"))]);
    assert_eq!(
        json2idl_with_type_strictly(&env, &person(), &exact),
        json2idl_with_type(&env, &person(), &doc)
    );
    let lacking = object(vec![("extra", Document::Null), ("name", text("Al"))]);
    assert_eq!(
        json2idl_with_type_strictly(&env, &person(), &lacking),
        Err(failure(ErrorKind::MissingField(s("age"))))
    );
    let nested = Type::Vector(Box::new(person()));
    assert_eq!(
        json2idl_with_type_strictly(&env, &nested, &Document::List(vec![exact, doc])),
        Err(ConversionError {
            kind: ErrorKind::UnexpectedField(s("extra")),
            path: vec![Step::Element(1)]
        })
    );
}
