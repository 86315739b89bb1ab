//! What a command line asks for: which type, if any, the input is to be read by.

use vstd::prelude::*;
use vstd::string::*;
use crate::decimal::chars_of;
use crate::document::{documents_view, Document, DocumentModel};
use crate::error::{failure, ConversionError, ErrorKind, ErrorKindModel, ErrorModel};
use crate::idl2json::{
    argument_document, convert_all, idl_args2json_with_weak_names, optionally_typed, BytesFormat,
    Idl2JsonOptions,
};
use crate::json2idl::{
    convert, convert_args, json2idl_with_type, json2idl_with_type_name, json_args2idl_with_types,
};
use crate::types::{init_arg_types, types_view, EnvModel, Type, TypeEnv, TypeModel};
use crate::value::{values_view, TypedValue, ValueModel};

verus! {

/// The options of the command that turns typed values into documents.
#[derive(Debug, Default)]
pub struct Args {
    /// The files that hold the type declarations.
    pub did: Vec<String>,
    /// The name of a declared type, or a type written out.
    pub typ: Option<String>,
    /// Whether to use the types of the service's init arguments.
    pub init: bool,
    /// How bytes are shown.
    pub bytes_as: Option<BytesFormat>,
    /// Whether the output is compact.
    pub compact: bool,
}

/// The options of the command that turns documents into typed values.
#[derive(Debug, Default)]
pub struct Json2IdlArgs {
    /// The files that hold the type declarations.
    pub did: Vec<String>,
    /// The name of a declared type, or a type written out.
    pub typ: Option<String>,
    /// Whether to use the types of the service's init arguments.
    pub init: bool,
}

/// Whether `c` is white space: a character with the Unicode property `White_Space`.
pub open spec fn is_whitespace(c: char) -> bool {
    let code = c as u32;
    ||| 0x09 <= code <= 0x0d
    ||| code == 0x20
    ||| code == 0x85
    ||| code == 0xa0
    ||| code == 0x1680
    ||| 0x2000 <= code <= 0x200a
    ||| code == 0x2028
    ||| code == 0x2029
    ||| code == 0x202f
    ||| code == 0x205f
    ||| code == 0x3000
}

/// The first place at or after `start` that holds no white space.
pub open spec fn skip_whitespace(s: Seq<char>, start: int) -> int
    decreases s.len() - start,
{
    if 0 <= start < s.len() && is_whitespace(s[start]) {
        skip_whitespace(s, start + 1)
    } else {
        start
    }
}

/// The end of the text before `end` once the white space at its end is dropped, not below
/// `floor`.
pub open spec fn drop_whitespace(s: Seq<char>, floor: int, end: int) -> int
    decreases end,
{
    if floor < end <= s.len() && 0 < end && is_whitespace(s[end - 1]) {
        drop_whitespace(s, floor, end - 1)
    } else {
        end
    }
}

/// Where the text without the white space around it begins.
pub open spec fn trim_start(s: Seq<char>) -> int {
    skip_whitespace(s, 0)
}

/// Where the text without the white space around it ends.
pub open spec fn trim_end(s: Seq<char>) -> int {
    drop_whitespace(s, trim_start(s), s.len() as int)
}

/// The text without the white space around it.
pub open spec fn trimmed(s: Seq<char>) -> Seq<char> {
    s.subrange(trim_start(s), trim_end(s))
}

/// Whether the text can only be a name: it holds no white space, brace, colon or semicolon.
pub open spec fn is_bare_name(s: Seq<char>) -> bool {
    forall|i: int|
        0 <= i < s.len() ==> !is_whitespace(#[trigger] s[i]) && s[i] != '{' && s[i] != '}' && s[i]
            != ':' && s[i] != ';'
}

/// Which type a command line asks for, as far as its text tells.
#[derive(Debug, PartialEq, Eq)]
pub enum TypeChoice {
    /// The types of the service's init arguments.
    Init,
    /// The types of an argument list, written out in parentheses: the text as it was given.
    ArgumentTypes(String),
    /// A declared type, by its name.
    Named(String),
    /// A type written out: the text without the white space around it.
    Literal(String),
    /// None.
    Unspecified,
}

/// A `TypeChoice` as a mathematical value.
pub enum TypeChoiceModel {
    Init,
    ArgumentTypes(Seq<char>),
    Named(Seq<char>),
    Literal(Seq<char>),
    Unspecified,
}

impl View for TypeChoice {
    type V = TypeChoiceModel;

    open spec fn view(&self) -> TypeChoiceModel {
        match self {
            TypeChoice::Init => TypeChoiceModel::Init,
            TypeChoice::ArgumentTypes(text) => TypeChoiceModel::ArgumentTypes(text@),
            TypeChoice::Named(name) => TypeChoiceModel::Named(name@),
            TypeChoice::Literal(text) => TypeChoiceModel::Literal(text@),
            TypeChoice::Unspecified => TypeChoiceModel::Unspecified,
        }
    }
}

/// What the text of a type asks for. Text that begins with a parenthesis, white space aside, is
/// an argument list. Other text is a name where it can only be one, and a type written out
/// where it holds white space, a brace, a colon or a semicolon.
pub open spec fn classify(text: Seq<char>) -> TypeChoiceModel {
    let inner = trimmed(text);
    if inner.len() > 0 && inner[0] == '(' {
        TypeChoiceModel::ArgumentTypes(text)
    } else if is_bare_name(inner) {
        TypeChoiceModel::Named(inner)
    } else {
        TypeChoiceModel::Literal(inner)
    }
}

/// Which type the options ask for: the init flag goes before the text of a type.
pub open spec fn type_choice(typ: Option<Seq<char>>, init: bool) -> TypeChoiceModel {
    if init {
        TypeChoiceModel::Init
    } else {
        match typ {
            Some(text) => classify(text),
            None => TypeChoiceModel::Unspecified,
        }
    }
}

/// Where skipping stops: at the end, or before the first character that is no white space.
pub proof fn lemma_skip_whitespace(s: Seq<char>, start: int)
    requires
        0 <= start <= s.len(),
    ensures
        start <= skip_whitespace(s, start) <= s.len(),
        forall|i: int| start <= i < skip_whitespace(s, start) ==> is_whitespace(#[trigger] s[i]),
        skip_whitespace(s, start) < s.len() ==> !is_whitespace(s[skip_whitespace(s, start)]),
    decreases s.len() - start,
{
    if start < s.len() && is_whitespace(s[start]) {
        lemma_skip_whitespace(s, start + 1);
    }
}

/// Where dropping stops: at the floor, or behind the last character that is no white space.
pub proof fn lemma_drop_whitespace(s: Seq<char>, floor: int, end: int)
    requires
        0 <= floor <= end <= s.len(),
    ensures
        floor <= drop_whitespace(s, floor, end) <= end,
        forall|i: int| drop_whitespace(s, floor, end) <= i < end ==> is_whitespace(#[trigger] s[i]),
        floor < drop_whitespace(s, floor, end) ==> !is_whitespace(
            s[drop_whitespace(s, floor, end) - 1],
        ),
    decreases end,
{
    if floor < end && is_whitespace(s[end - 1]) {
        lemma_drop_whitespace(s, floor, end - 1);
    }
}

/// Whether `c` is white space.
pub fn is_whitespace_char(c: char) -> (yes: bool)
    ensures
        yes == is_whitespace(c),
{
    let code: u32 = c as u32;
    (0x09 <= code && code <= 0x0d) || code == 0x20 || code == 0x85 || code == 0xa0 || code
        == 0x1680 || (0x2000 <= code && code <= 0x200a) || code == 0x2028 || code == 0x2029 || code
        == 0x202f || code == 0x205f || code == 0x3000
}

/// Says what the text of a type asks for.
pub fn classify_type_text(text: &String) -> (choice: TypeChoice)
    ensures
        choice@ == classify(text@),
{
    let chars = chars_of(text.as_str());
    let ghost s = chars@;
    let mut start: usize = 0;
    while start < chars.len() && is_whitespace_char(chars[start])
        invariant
            start <= chars.len(),
            s == chars@,
            skip_whitespace(s, 0) == skip_whitespace(s, start as int),
        decreases chars.len() - start,
    {
        start = start + 1;
    }
    let mut end: usize = chars.len();
    while start < end && is_whitespace_char(chars[end - 1])
        invariant
            start <= end <= chars.len(),
            s == chars@,
            start == trim_start(s),
            drop_whitespace(s, start as int, s.len() as int) == drop_whitespace(
                s,
                start as int,
                end as int,
            ),
        decreases end,
    {
        end = end - 1;
    }
    assert(start == trim_start(s) && end == trim_end(s));
    let ghost inner = trimmed(s);
    if start < end && chars[start] == '(' {
        assert(inner[0] == s[start as int]);
        return TypeChoice::ArgumentTypes(text.clone());
    }
    let mut bare: bool = true;
    let mut i: usize = start;
    while i < end
        invariant
            start <= i <= end <= chars.len(),
            s == chars@,
            inner == s.subrange(start as int, end as int),
            bare == is_bare_name(inner.take(i - start)),
        decreases end - i,
    {
        let c = chars[i];
        proof {
            let before = inner.take(i - start);
            let after = inner.take(i + 1 - start);
            assert(after[i - start] == c);
            assert forall|k: int| 0 <= k < before.len() implies before[k] == after[k] by {}
            if is_bare_name(after) {
                assert forall|k: int| 0 <= k < before.len() implies !is_whitespace(
                    #[trigger] before[k],
                ) && before[k] != '{' && before[k] != '}' && before[k] != ':' && before[k]
                    != ';' by {
                    assert(before[k] == after[k]);
                }
            }
        }
        if is_whitespace_char(c) || c == '{' || c == '}' || c == ':' || c == ';' {
            bare = false;
        }
        proof {
            let before = inner.take(i - start);
            let after = inner.take(i + 1 - start);
            if bare {
                assert forall|k: int| 0 <= k < after.len() implies !is_whitespace(
                    #[trigger] after[k],
                ) && after[k] != '{' && after[k] != '}' && after[k] != ':' && after[k] != ';' by {
                    if k < before.len() {
                        assert(before[k] == after[k]);
                    }
                }
            }
        }
        i = i + 1;
    }
    assert(inner.take(i - start) =~= inner);
    let inner_text = text.as_str().substring_char(start, end).to_owned();
    if bare {
        TypeChoice::Named(inner_text)
    } else {
        TypeChoice::Literal(inner_text)
    }
}

/// Says which type the options ask for.
pub fn choose_type(typ: &Option<String>, init: bool) -> (choice: TypeChoice)
    ensures
        choice@ == type_choice(
            match typ {
                Some(text) => Some(text@),
                None => None,
            },
            init,
        ),
{
    if init {
        TypeChoice::Init
    } else {
        match typ {
            Some(text) => classify_type_text(text),
            None => TypeChoice::Unspecified,
        }
    }
}

impl Args {
    /// Which type the options ask for.
    pub fn type_choice(&self) -> (choice: TypeChoice)
        ensures
            choice@ == type_choice(
                match self.typ {
                    Some(text) => Some(text@),
                    None => None,
                },
                self.init,
            ),
    {
        choose_type(&self.typ, self.init)
    }

    /// How values are shown under these options, with the declarations of `prog`.
    pub fn options(&self, prog: TypeEnv) -> (options: Idl2JsonOptions)
        ensures
            options.prog == prog,
            options.bytes_as == self.bytes_as,
            options.compact == self.compact,
    {
        Idl2JsonOptions { prog, bytes_as: self.bytes_as, compact: self.compact }
    }
}

impl Json2IdlArgs {
    /// Which type the options ask for.
    pub fn type_choice(&self) -> (choice: TypeChoice)
        ensures
            choice@ == type_choice(
                match self.typ {
                    Some(text) => Some(text@),
                    None => None,
                },
                self.init,
            ),
    {
        choose_type(&self.typ, self.init)
    }
}

/// The type that was chosen, once the text of a type has been read.
#[derive(Debug, PartialEq, Eq)]
pub enum TypeSelection {
    /// The types of the service's init arguments.
    Init,
    /// The types of an argument list.
    Arguments(Vec<Type>),
    /// A declared type, by its name.
    Named(String),
    /// One type.
    Single(Type),
    /// None.
    Unspecified,
}

/// What a conversion to typed values gave: one value, or the values of an argument list.
#[derive(Debug, PartialEq, Eq)]
pub enum Converted {
    /// The value of one document.
    Value(TypedValue),
    /// The values of an argument list.
    Arguments(Vec<TypedValue>),
}

/// A `Converted` as a mathematical value.
pub enum ConvertedModel {
    Value(ValueModel),
    Arguments(Seq<ValueModel>),
}

impl View for Converted {
    type V = ConvertedModel;

    open spec fn view(&self) -> ConvertedModel {
        match self {
            Converted::Value(value) => ConvertedModel::Value(value@),
            Converted::Arguments(values) => ConvertedModel::Arguments(values_view(values@)),
        }
    }
}

/// One value as the result of a run.
pub open spec fn as_value(result: Result<ValueModel, ErrorModel>) -> Result<
    ConvertedModel,
    ErrorModel,
> {
    match result {
        Ok(value) => Ok(ConvertedModel::Value(value)),
        Err(error) => Err(error),
    }
}

/// The values of an argument list as the result of a run.
pub open spec fn as_arguments(result: Result<Seq<ValueModel>, ErrorModel>) -> Result<
    ConvertedModel,
    ErrorModel,
> {
    match result {
        Ok(values) => Ok(ConvertedModel::Arguments(values)),
        Err(error) => Err(error),
    }
}

/// Converts a document to typed values by the type that was chosen.
///
/// With the init flag the document is an argument list for the init arguments of the service,
/// and the run fails with `NoInitArgs` where there are none. With the types of an argument list
/// the document is an argument list for them. With a name or one type the document is one
/// value. Without a type the run fails with `TypeRequired`.
pub fn main_json2idl(env: &TypeEnv, selection: &TypeSelection, doc: &Document) -> (result: Result<
    Converted,
    ConversionError,
>)
    ensures
        (match result {
            Ok(converted) => Ok::<ConvertedModel, ErrorModel>(converted@),
            Err(error) => Err(error@),
        }) == (match selection {
            TypeSelection::Init => match init_arg_types(env@) {
                Some(types) => as_arguments(convert_args(env@, types, doc@)),
                None => Err(failure(ErrorKindModel::NoInitArgs)),
            },
            TypeSelection::Arguments(types) => as_arguments(
                convert_args(env@, types_view(types@), doc@),
            ),
            TypeSelection::Named(name) => as_value(
                convert(env@, TypeModel::Named(name@), doc@),
            ),
            TypeSelection::Single(ty) => as_value(convert(env@, ty@, doc@)),
            TypeSelection::Unspecified => Err(failure(ErrorKindModel::TypeRequired)),
        }),
{
    match selection {
        TypeSelection::Init => match env.get_init_arg_type() {
            Ok(types) => match json_args2idl_with_types(env, types, doc) {
                Ok(values) => Ok(Converted::Arguments(values)),
                Err(error) => Err(error),
            },
            Err(error) => Err(error),
        },
        TypeSelection::Arguments(types) => match json_args2idl_with_types(env, types, doc) {
            Ok(values) => Ok(Converted::Arguments(values)),
            Err(error) => Err(error),
        },
        TypeSelection::Named(name) => match json2idl_with_type_name(env, name.as_str(), doc) {
            Ok(value) => Ok(Converted::Value(value)),
            Err(error) => Err(error),
        },
        TypeSelection::Single(ty) => match json2idl_with_type(env, ty, doc) {
            Ok(value) => Ok(Converted::Value(value)),
            Err(error) => Err(error),
        },
        TypeSelection::Unspecified => Err(ConversionError::new(ErrorKind::TypeRequired)),
    }
}

/// The document of the value at `index` under the type that was chosen.
pub open spec fn shown(
    env: EnvModel,
    selection: TypeSelection,
    values: Seq<ValueModel>,
    hex: bool,
    index: int,
) -> DocumentModel {
    match selection {
        TypeSelection::Init => argument_document(
            env,
            init_arg_types(env)->0,
            values,
            hex,
            index,
        ),
        TypeSelection::Arguments(types) => argument_document(
            env,
            types_view(types@),
            values,
            hex,
            index,
        ),
        TypeSelection::Named(name) => optionally_typed(
            env,
            Some(TypeModel::Named(name@)),
            values[index],
            hex,
        ),
        TypeSelection::Single(ty) => optionally_typed(env, Some(ty@), values[index], hex),
        TypeSelection::Unspecified => optionally_typed(env, None, values[index], hex),
    }
}

/// Shows typed values as documents by the type that was chosen, one document for each value.
///
/// With the init flag the values are the init arguments of the service, and the run fails with
/// `NoInitArgs` where there are none. With the types of an argument list each value is shown by
/// the type at its place. With a name or one type each value is shown by that type. Without a
/// type each value is shown by its own shape. Nothing else fails.
pub fn main_idl2json(
    values: &Vec<TypedValue>,
    selection: &TypeSelection,
    options: &Idl2JsonOptions,
) -> (result: Result<Vec<Document>, ConversionError>)
    ensures
        match result {
            Ok(docs) => documents_view(docs@).len() == values.len() && !(selection is Init
                && init_arg_types(options.prog@) is None) && forall|i: int|
                0 <= i < values.len() ==> (#[trigger] documents_view(docs@)[i]) == shown(
                    options.prog@,
                    *selection,
                    values_view(values@),
                    options.hex(),
                    i,
                ),
            Err(error) => selection is Init && init_arg_types(options.prog@) is None && error@
                == failure(ErrorKindModel::NoInitArgs),
        },
{
    match selection {
        TypeSelection::Init => match options.prog.get_init_arg_type() {
            Ok(types) => Ok(idl_args2json_with_weak_names(values, types, options)),
            Err(error) => Err(error),
        },
        TypeSelection::Arguments(types) => Ok(
            idl_args2json_with_weak_names(values, types, options),
        ),
        TypeSelection::Named(name) => {
            let ty = Type::Named(name.clone());
            Ok(convert_all(values, Some(&ty), options))
        },
        TypeSelection::Single(ty) => Ok(convert_all(values, Some(ty), options)),
        TypeSelection::Unspecified => Ok(convert_all(values, None, options)),
    }
}

/// The lines with a line feed between each two of them.
pub open spec fn joined(lines: Seq<Seq<char>>) -> Seq<char>
    decreases lines.len(),
{
    if lines.len() == 0 {
        Seq::empty()
    } else if lines.len() == 1 {
        lines[0]
    } else {
        joined(lines.drop_last()) + seq!['\n'] + lines.last()
    }
}

/// The texts of the lines.
pub open spec fn line_texts(lines: Seq<String>) -> Seq<Seq<char>> {
    lines.map_values(|line: String| line@)
}

/// Joins the lines into one text, with a line feed between each two of them.
pub fn join_lines(lines: &Vec<String>) -> (text: String)
    ensures
        text@ == joined(line_texts(lines@)),
{
    let ghost texts = line_texts(lines@);
    let mut text = String::new();
    let mut i: usize = 0;
    assert(texts.take(0) =~= Seq::<Seq<char>>::empty());
    while i < lines.len()
        invariant
            i <= lines.len(),
            texts == line_texts(lines@),
            text@ == joined(texts.take(i as int)),
        decreases lines.len() - i,
    {
        proof {
            reveal_strlit("\n");
            let next = texts.take(i + 1);
            assert(next.drop_last() =~= texts.take(i as int));
            assert(next.last() == lines@[i as int]@);
            if i == 0 {
                assert(Seq::<char>::empty() + lines@[i as int]@ =~= lines@[i as int]@);
            }
        }
        if i > 0 {
            text.append("\n");
        }
        text.append(lines[i].as_str());
        i = i + 1;
    }
    assert(texts.take(i as int) =~= texts);
    text
}

} // verus!
