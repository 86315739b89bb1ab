use idl2json::cli::{
    choose_type, classify_type_text, is_whitespace_char, main_idl2json, main_json2idl, Args,
    Converted, Json2IdlArgs, TypeChoice, TypeSelection,
};
use idl2json::decimal::{
    canonical_int, canonical_nat, chars_of, decimal_string, digit_of, safe_integer_of,
    signed_decimal_string,
};
use idl2json::document::{entry_index, Document, Number};
use idl2json::error::{ConversionError, ErrorKind, Step};
use idl2json::hex::{hex_string, parse_hex};
use idl2json::idl2json::{BytesFormat, Idl2JsonOptions};
use idl2json::types::{field_index, field_index_by_id, Field, Label, Prim, Service, Type, TypeEnv};
use idl2json::value::TypedValue;

fn s(text: &str) -> String {
    text.to_string()
}

fn num(n: i128) -> Document {
    Document::Number(Number::Integer(n))
}

fn failure(kind: ErrorKind) -> ConversionError {
    ConversionError { kind, path: vec![] }
}

fn service(init_args: Option<Vec<Type>>) -> TypeEnv {
    TypeEnv { decls: vec![], service: Some(Service { init_args, methods: vec![] }) }
}

#[test]
fn type_text_in_parentheses_is_an_argument_list() {
    assert_eq!(classify_type_text(&s("(nat, text)")), TypeChoice::ArgumentTypes(s("(nat, text)")));
    assert_eq!(classify_type_text(&s("  (nat) ")), TypeChoice::ArgumentTypes(s("  (nat) ")));
    assert_eq!(classify_type_text(&s("\t\n()")), TypeChoice::ArgumentTypes(s("\t\n()")));
}

#[test]
fn type_text_without_punctuation_is_a_name() {
    assert_eq!(classify_type_text(&s("Person")), TypeChoice::Named(s("Person")));
    assert_eq!(classify_type_text(&s("  Person\n")), TypeChoice::Named(s("Person")));
    assert_eq!(classify_type_text(&s("nat")), TypeChoice::Named(s("nat")));
    assert_eq!(classify_type_text(&s("")), TypeChoice::Named(s("")));
    assert_eq!(classify_type_text(&s("   ")), TypeChoice::Named(s("")));
    assert_eq!(classify_type_text(&s("a(b")), TypeChoice::Named(s("a(b")));
    assert_eq!(classify_type_text(&s("\u{3000}T\u{a0}")), TypeChoice::Named(s("T")));
}

#[test]
fn type_text_with_punctuation_is_a_literal() {
    assert_eq!(
        classify_type_text(&s(" record { name: text } ")),
        TypeChoice::Literal(s("record { name: text }"))
    );
    assert_eq!(classify_type_text(&s("opt nat")), TypeChoice::Literal(s("opt nat")));
    assert_eq!(classify_type_text(&s("record{}")), TypeChoice::Literal(s("record{}")));
    assert_eq!(classify_type_text(&s("a:b")), TypeChoice::Literal(s("a:b")));
    assert_eq!(classify_type_text(&s("a;")), TypeChoice::Literal(s("a;")));
    assert_eq!(classify_type_text(&s("vec\u{2003}nat")), TypeChoice::Literal(s("vec\u{2003}nat")));
}

#[test]
fn init_flag_goes_before_the_type_text() {
    assert_eq!(choose_type(&Some(s("Person")), true), TypeChoice::Init);
    assert_eq!(choose_type(&None, true), TypeChoice::Init);
    assert_eq!(choose_type(&Some(s("Person")), false), TypeChoice::Named(s("Person")));
    assert_eq!(choose_type(&None, false), TypeChoice::Unspecified);
}

#[test]
fn options_choose_the_type() {
    let args = Json2IdlArgs { did: vec![s("a.did")], typ: Some(s("(nat)")), init: false };
    assert_eq!(args.type_choice(), TypeChoice::ArgumentTypes(s("(nat)")));
    let args = Args { typ: Some(s("opt nat")), ..Args::default() };
    assert_eq!(args.type_choice(), TypeChoice::Literal(s("opt nat")));
    assert_eq!(Json2IdlArgs::default().type_choice(), TypeChoice::Unspecified);
    let args =
        Args { init: true, bytes_as: Some(BytesFormat::Hex), compact: true, ..Args::default() };
    assert_eq!(args.type_choice(), TypeChoice::Init);
    assert_eq!(
        args.options(TypeEnv::new()),
        Idl2JsonOptions { prog: TypeEnv::new(), bytes_as: Some(BytesFormat::Hex), compact: true }
    );
}

#[test]
fn white_space_is_what_unicode_says() {
    for code in 0u32..0x3100 {
        if let Some(c) = char::from_u32(code) {
            assert_eq!(is_whitespace_char(c), c.is_whitespace(), "U+{:04X}", code);
        }
    }
    assert!(!is_whitespace_char('\u{feff}'));
    assert!(!is_whitespace_char('\u{10ffff}'));
}

#[test]
fn documents_to_values_by_the_selection() {
    let env = service(Some(vec![Type::Prim(Prim::Nat8)]));
    let list = Document::List(vec![num(7)]);
    assert_eq!(
        main_json2idl(&env, &TypeSelection::Init, &list),
        Ok(Converted::Arguments(vec![TypedValue::Nat8(7)]))
    );
    assert_eq!(
        main_json2idl(&env, &TypeSelection::Arguments(vec![Type::Prim(Prim::Int8)]), &list),
        Ok(Converted::Arguments(vec![TypedValue::Int8(7)]))
    );
    assert_eq!(
        main_json2idl(&env, &TypeSelection::Single(Type::Prim(Prim::Nat16)), &num(7)),
        Ok(Converted::Value(TypedValue::Nat16(7)))
    );
    assert_eq!(
        main_json2idl(&env, &TypeSelection::Named(s("T")), &num(7)),
        Err(failure(ErrorKind::UnknownType(s("T"))))
    );
    assert_eq!(
        main_json2idl(&env, &TypeSelection::Unspecified, &num(7)),
        Err(failure(ErrorKind::TypeRequired))
    );
    assert_eq!(
        main_json2idl(&env, &TypeSelection::Init, &num(7)),
        Err(failure(ErrorKind::ArityMismatch { expected: 1, found: None }))
    );
    assert_eq!(
        main_json2idl(&env, &TypeSelection::Init, &Document::List(vec![num(256)])),
        Err(ConversionError { kind: ErrorKind::OutOfRange, path: vec![Step::Argument(0)] })
    );
}

#[test]
fn init_arguments_are_needed_for_the_init_flag() {
    let list = Document::List(vec![]);
    assert_eq!(
        main_json2idl(&service(None), &TypeSelection::Init, &list),
        Err(failure(ErrorKind::NoInitArgs))
    );
    assert_eq!(
        main_json2idl(&TypeEnv::new(), &TypeSelection::Init, &list),
        Err(failure(ErrorKind::NoInitArgs))
    );
    let options = Idl2JsonOptions::default();
    assert_eq!(
        main_idl2json(&vec![TypedValue::Null], &TypeSelection::Init, &options),
        Err(failure(ErrorKind::NoInitArgs))
    );
}

#[test]
fn values_to_documents_by_the_selection() {
    let values = vec![TypedValue::Nat64(u64::MAX), TypedValue::Nat64(1)];
    let big_text = Document::Text(s("18446744073709551615"));
    let options = Idl2JsonOptions {
        prog: service(Some(vec![Type::Prim(Prim::Nat64)])),
        bytes_as: None,
        compact: false,
    };
    assert_eq!(
        main_idl2json(&values, &TypeSelection::Init, &options),
        Ok(vec![num(18446744073709551615), num(1)])
    );
    assert_eq!(
        main_idl2json(
            &values,
            &TypeSelection::Arguments(vec![Type::Prim(Prim::Text), Type::Prim(Prim::Nat64)]),
            &options
        ),
        Ok(vec![Document::Text(s("18446744073709551615")), num(1)])
    );
    assert_eq!(
        main_idl2json(&values, &TypeSelection::Single(Type::Prim(Prim::Nat64)), &options),
        Ok(vec![num(18446744073709551615), num(1)])
    );
    assert_eq!(
        main_idl2json(&values, &TypeSelection::Named(s("Nowhere")), &options),
        Ok(vec![Document::Text(s("18446744073709551615")), num(1)])
    );
    assert_eq!(
        main_idl2json(&values, &TypeSelection::Unspecified, &options),
        Ok(vec![big_text, num(1)])
    );
}

#[test]
fn field_numbers_are_hashes_of_names() {
    assert_eq!(Label::Named(s("")).id(), 0);
    assert_eq!(Label::Named(s("a")).id(), 97);
    assert_eq!(Label::Named(s("ab")).id(), 21729);
    assert_eq!(Label::Named(s("name")).id(), 1224700491);
    assert_eq!(Label::Named(s("age")).id(), 4846783);
    assert_eq!(Label::Named(s("ok")).id(), 24860);
    assert_eq!(Label::Named(s("é")).id(), 195 * 223 + 169);
    let long = "a_rather_long_field_name";
    assert_eq!(Label::Named(s(long)).id(), candid::idl_hash(long));
    assert_eq!(Label::Id(42).id(), 42);
}

#[test]
fn labels_as_keys() {
    assert_eq!(Label::Named(s("name")).key(), "name");
    assert_eq!(Label::Id(0).key(), "0");
    assert_eq!(Label::Id(u32::MAX).key(), "4294967295");
    assert_eq!(Label::Named(s("name")).clone(), Label::Named(s("name")));
}

#[test]
fn fields_are_found_by_key_and_by_number() {
    let fields = vec![
        Field { label: Label::Named(s("a")), ty: Type::Prim(Prim::Bool) },
        Field { label: Label::Id(97), ty: Type::Prim(Prim::Text) },
        Field { label: Label::Named(s("b")), ty: Type::Prim(Prim::Nat) },
    ];
    assert_eq!(field_index(&fields, &s("a")), Some(0));
    assert_eq!(field_index(&fields, &s("97")), Some(1));
    assert_eq!(field_index(&fields, &s("b")), Some(2));
    assert_eq!(field_index(&fields, &s("c")), None);
    assert_eq!(field_index_by_id(&fields, 97), Some(0));
    assert_eq!(field_index_by_id(&fields, 98), Some(2));
    assert_eq!(field_index_by_id(&fields, 99), None);
}

#[test]
fn entries_are_found_by_key() {
    let entries = vec![(s("a"), num(1)), (s("b"), num(2)), (s("a"), num(3))];
    assert_eq!(entry_index(&entries, &s("a")), Some(0));
    assert_eq!(entry_index(&entries, &s("b")), Some(1));
    assert_eq!(entry_index(&entries, &s("c")), None);
}

#[test]
fn declarations_are_found_by_name() {
    let env = TypeEnv {
        decls: vec![idl2json::types::Declaration { name: s("T"), ty: Type::Principal }],
        service: None,
    };
    assert_eq!(env.lookup(&s("T")), Some(&Type::Principal));
    assert_eq!(env.lookup(&s("t")), None);
}

#[test]
fn decimal_digits() {
    assert_eq!(decimal_string(0), "0");
    assert_eq!(decimal_string(10), "10");
    assert_eq!(decimal_string(u128::MAX), "340282366920938463463374607431768211455");
    assert_eq!(signed_decimal_string(0), "0");
    assert_eq!(signed_decimal_string(-1), "-1");
    assert_eq!(signed_decimal_string(i128::MIN), "-170141183460469231731687303715884105728");
    assert_eq!(signed_decimal_string(i128::MAX), "170141183460469231731687303715884105727");
    assert_eq!(digit_of('7'), Some(7));
    assert_eq!(digit_of('a'), None);
    assert_eq!(digit_of('٣'), None);
    assert_eq!(chars_of("aé"), vec!['a', 'é']);
}

#[test]
fn canonical_digits() {
    assert_eq!(canonical_nat("007"), Some(s("7")));
    assert_eq!(canonical_nat("0"), Some(s("0")));
    assert_eq!(canonical_nat("00"), Some(s("0")));
    assert_eq!(canonical_nat("12a"), None);
    assert_eq!(canonical_nat(""), None);
    assert_eq!(canonical_int("-007"), Some(s("-7")));
    assert_eq!(canonical_int("-000"), Some(s("0")));
    assert_eq!(canonical_int("12"), Some(s("12")));
    assert_eq!(canonical_int("--1"), None);
    assert_eq!(canonical_int("-"), None);
    assert_eq!(canonical_int(""), None);
}

#[test]
fn safe_integers() {
    assert_eq!(safe_integer_of("0"), Some(0));
    assert_eq!(safe_integer_of("-1"), Some(-1));
    assert_eq!(safe_integer_of("9007199254740991"), Some(9007199254740991));
    assert_eq!(safe_integer_of("-9007199254740991"), Some(-9007199254740991));
    assert_eq!(safe_integer_of("9007199254740992"), None);
    assert_eq!(safe_integer_of("99999999999999999999999999999999999999999"), None);
    assert_eq!(safe_integer_of("01"), None);
    assert_eq!(safe_integer_of("-0"), None);
    assert_eq!(safe_integer_of("-"), None);
    assert_eq!(safe_integer_of(""), None);
    assert_eq!(safe_integer_of("1.0"), None);
}

#[test]
fn hexadecimal_text() {
    assert_eq!(hex_string(&vec![]), "");
    assert_eq!(hex_string(&vec![0, 1, 15, 16, 171, 255]), "00010f10abff");
    assert_eq!(parse_hex(&chars_of("00010f10abff")), Some(vec![0, 1, 15, 16, 171, 255]));
    assert_eq!(parse_hex(&chars_of("ABCDEF")), Some(vec![171, 205, 239]));
    assert_eq!(parse_hex(&chars_of("")), Some(vec![]));
    assert_eq!(parse_hex(&chars_of("abc")), None);
    assert_eq!(parse_hex(&chars_of("zz")), None);
    assert_eq!(parse_hex(&chars_of("0x")), None);
}

#[test]
fn closed_environments() {
    let decl = |name: &str, ty: Type| idl2json::types::Declaration { name: s(name), ty };
    let list = Type::Opt(Box::new(Type::Record(vec![
        Field { label: Label::Named(s("head")), ty: Type::Prim(Prim::Nat) },
        Field { label: Label::Named(s("tail")), ty: Type::Named(s("List")) },
    ])));
    let closed = TypeEnv { decls: vec![decl("List", list)], service: None };
    assert!(closed.is_closed());
    assert!(Type::Named(s("List")).resolves_in(&closed));
    assert!(Type::Vector(Box::new(Type::Named(s("List")))).resolves_in(&closed));
    assert!(!Type::Named(s("list")).resolves_in(&closed));
    assert!(!Type::Variant(vec![
        Field { label: Label::Named(s("a")), ty: Type::Prim(Prim::Nat) },
        Field { label: Label::Named(s("b")), ty: Type::Named(s("Tree")) },
    ])
    .resolves_in(&closed));
    assert!(TypeEnv::new().is_closed());

    let open = TypeEnv {
        decls: vec![decl("A", Type::Prim(Prim::Bool)), decl("B", Type::Named(s("C")))],
        service: None,
    };
    assert!(!open.is_closed());
    let open_init = TypeEnv {
        decls: vec![],
        service: Some(Service { init_args: Some(vec![Type::Named(s("A"))]), methods: vec![] }),
    };
    assert!(!open_init.is_closed());
    let method = |args: Vec<Type>, rets: Vec<Type>| idl2json::types::Method {
        name: s("greet"),
        args,
        rets,
    };
    let with_method = |m| TypeEnv {
        decls: vec![decl("A", Type::Prim(Prim::Bool))],
        service: Some(Service { init_args: None, methods: vec![m] }),
    };
    assert!(with_method(method(vec![Type::Named(s("A"))], vec![Type::Principal])).is_closed());
    assert!(!with_method(method(vec![Type::Named(s("B"))], vec![])).is_closed());
    assert!(!with_method(method(vec![], vec![Type::Named(s("B"))])).is_closed());
}
