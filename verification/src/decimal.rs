//! Decimal text: the digits of a natural or signed integer of any size.

use vstd::prelude::*;

verus! {

/// The largest integer that every document reader holds exactly: 2^53 - 1.
pub const MAX_SAFE_INTEGER: u64 = 9007199254740991;

/// Whether `c` is one of the ten decimal digits.
pub open spec fn is_digit(c: char) -> bool {
    '0' <= c <= '9'
}

/// What the digit `c` is worth.
pub open spec fn digit_value(c: char) -> nat {
    (c as int - '0' as int) as nat
}

/// The digit that is worth `d`.
pub open spec fn digit_char(d: nat) -> char {
    (d + '0' as nat) as char
}

/// Whether `s` holds digits only.
pub open spec fn all_digits(s: Seq<char>) -> bool {
    forall|i: int| 0 <= i < s.len() ==> is_digit(#[trigger] s[i])
}

/// One digit or more, and nothing else.
pub open spec fn is_decimal(s: Seq<char>) -> bool {
    s.len() > 0 && all_digits(s)
}

/// A decimal without a superfluous leading zero.
pub open spec fn is_canonical_nat(s: Seq<char>) -> bool {
    is_decimal(s) && (s.len() > 1 ==> s[0] != '0')
}

/// The number that the digits of `s` denote, the most significant first.
pub open spec fn decimal_value(s: Seq<char>) -> nat
    decreases s.len(),
{
    if s.len() == 0 {
        0
    } else {
        decimal_value(s.drop_last()) * 10 + digit_value(s.last())
    }
}

/// The canonical digits of `n`.
pub open spec fn decimal_text(n: nat) -> Seq<char>
    decreases n,
{
    if n < 10 {
        seq![digit_char(n)]
    } else {
        decimal_text(n / 10).push(digit_char(n % 10))
    }
}

/// An optional minus sign before a decimal.
pub open spec fn is_signed_decimal(s: Seq<char>) -> bool {
    is_decimal(s) || (s.len() > 0 && s[0] == '-' && is_decimal(s.drop_first()))
}

/// The integer that `s` denotes: the value of its digits, negative behind a minus sign.
pub open spec fn signed_value(s: Seq<char>) -> int {
    if s.len() > 0 && s[0] == '-' {
        -(decimal_value(s.drop_first()) as int)
    } else {
        decimal_value(s) as int
    }
}

/// The canonical text of `n`: a minus sign only before a non-zero magnitude.
pub open spec fn signed_text(n: int) -> Seq<char> {
    if n < 0 {
        seq!['-'] + decimal_text((-n) as nat)
    } else {
        decimal_text(n as nat)
    }
}

/// A canonical decimal, or a minus sign before a canonical decimal that is not zero.
pub open spec fn is_canonical_int(s: Seq<char>) -> bool {
    is_canonical_nat(s) || (s.len() > 0 && s[0] == '-' && is_canonical_nat(s.drop_first())
        && decimal_value(s.drop_first()) != 0)
}

/// The digits of `n` are canonical: one digit below ten, no leading zero from ten on.
pub proof fn lemma_decimal_text_is_canonical(n: nat)
    ensures
        is_canonical_nat(decimal_text(n)),
        n < 10 ==> decimal_text(n).len() == 1,
        n >= 10 ==> decimal_text(n).len() > 1,
        n > 0 ==> decimal_text(n)[0] != '0',
    decreases n,
{
    if n >= 10 {
        lemma_decimal_text_is_canonical(n / 10);
        let head = decimal_text(n / 10);
        let s = decimal_text(n);
        assert(s == head.push(digit_char(n % 10)));
        assert forall|i: int| 0 <= i < s.len() implies is_digit(#[trigger] s[i]) by {
            if i < head.len() {
                assert(s[i] == head[i]);
            }
        }
        assert(s[0] == head[0]);
    }
}

/// Reading the canonical digits of `n` gives `n` back.
pub proof fn lemma_value_of_decimal_text(n: nat)
    ensures
        decimal_value(decimal_text(n)) == n,
    decreases n,
{
    if n < 10 {
        let s = decimal_text(n);
        assert(s.drop_last() =~= Seq::<char>::empty());
        assert(decimal_value(s.drop_last()) == 0);
    } else {
        lemma_value_of_decimal_text(n / 10);
        let s = decimal_text(n);
        assert(s.drop_last() =~= decimal_text(n / 10));
        assert(s.last() == digit_char(n % 10));
    }
}

/// Writing the value of canonical digits gives the digits back.
pub proof fn lemma_decimal_text_of_value(s: Seq<char>)
    requires
        is_canonical_nat(s),
    ensures
        decimal_text(decimal_value(s)) == s,
    decreases s.len(),
{
    let n = decimal_value(s);
    let d = digit_value(s.last());
    assert(is_digit(s.last()));
    assert(digit_char(d) == s.last());
    if s.len() == 1 {
        assert(s.drop_last() =~= Seq::<char>::empty());
        assert(decimal_value(s.drop_last()) == 0);
        assert(s =~= seq![s.last()]);
    } else {
        let head = s.drop_last();
        assert(is_canonical_nat(head)) by {
            assert forall|i: int| 0 <= i < head.len() implies is_digit(#[trigger] head[i]) by {
                assert(head[i] == s[i]);
            }
            assert(head[0] == s[0]);
        }
        lemma_decimal_text_of_value(head);
        lemma_canonical_value_bounds(head);
        assert(decimal_value(head) >= 1);
        assert(n == decimal_value(head) * 10 + d);
        assert(n / 10 == decimal_value(head) && n % 10 == d);
        assert(s =~= head.push(s.last()));
    }
}

/// Canonical digits of more than one place, or a non-zero single digit, denote a positive number.
pub proof fn lemma_canonical_value_bounds(s: Seq<char>)
    requires
        is_canonical_nat(s),
    ensures
        s[0] != '0' ==> decimal_value(s) >= 1,
        s.len() > 1 ==> decimal_value(s) >= 10,
    decreases s.len(),
{
    assert(is_digit(s.last()));
    if s.len() == 1 {
        assert(s.drop_last() =~= Seq::<char>::empty());
        assert(decimal_value(s.drop_last()) == 0);
        assert(s.last() == s[0]);
    } else {
        let head = s.drop_last();
        assert(is_canonical_nat(head)) by {
            assert forall|i: int| 0 <= i < head.len() implies is_digit(#[trigger] head[i]) by {
                assert(head[i] == s[i]);
            }
            assert(head[0] == s[0]);
        }
        lemma_canonical_value_bounds(head);
    }
}

/// A prefix of the digits never denotes more than the whole.
pub proof fn lemma_decimal_value_prefix(s: Seq<char>, k: int)
    requires
        0 <= k <= s.len(),
    ensures
        decimal_value(s.take(k)) <= decimal_value(s),
    decreases s.len() - k,
{
    if k == s.len() {
        assert(s.take(k) =~= s);
    } else {
        lemma_decimal_value_prefix(s, k + 1);
        assert(s.take(k + 1).drop_last() =~= s.take(k));
    }
}

/// Reading canonical signed text and writing the value gives the text back.
pub proof fn lemma_signed_text_of_value(s: Seq<char>)
    requires
        is_canonical_int(s),
    ensures
        signed_text(signed_value(s)) == s,
{
    if s[0] == '-' {
        let rest = s.drop_first();
        assert(!is_digit(s[0]));
        lemma_decimal_text_of_value(rest);
        assert(s =~= seq!['-'] + rest);
    } else {
        lemma_decimal_text_of_value(s);
    }
}

/// Writing a signed integer gives canonical text that reads back as the integer.
pub proof fn lemma_value_of_signed_text(n: int)
    ensures
        is_canonical_int(signed_text(n)),
        signed_value(signed_text(n)) == n,
{
    if n < 0 {
        let m = (-n) as nat;
        lemma_decimal_text_is_canonical(m);
        lemma_value_of_decimal_text(m);
        let s = signed_text(n);
        assert(s.drop_first() =~= decimal_text(m));
    } else {
        lemma_decimal_text_is_canonical(n as nat);
        lemma_value_of_decimal_text(n as nat);
        assert(is_digit(decimal_text(n as nat)[0]));
    }
}

/// The characters of a string, in order.
pub fn chars_of(s: &str) -> (v: Vec<char>)
    ensures
        v@ == s@,
{
    let mut v: Vec<char> = Vec::new();
    for c in it: s.chars()
        invariant
            v@ == it.seq().take(it.index() as int),
    {
        v.push(c);
    }
    v
}


/// A leading zero adds nothing to the value.
pub proof fn lemma_leading_zeros(s: Seq<char>, k: int)
    requires
        0 <= k <= s.len(),
        forall|j: int| 0 <= j < k ==> s[j] == '0',
    ensures
        decimal_value(s.skip(k)) == decimal_value(s),
    decreases s.len(),
{
    if k == s.len() {
        lemma_all_zeros(s);
        assert(s.skip(k) =~= Seq::<char>::empty());
    } else {
        let head = s.drop_last();
        lemma_leading_zeros(head, k);
        assert(s.skip(k).drop_last() =~= head.skip(k));
        assert(s.skip(k).last() == s.last());
    }
}

proof fn lemma_all_zeros(s: Seq<char>)
    requires
        forall|j: int| 0 <= j < s.len() ==> s[j] == '0',
    ensures
        decimal_value(s) == 0,
    decreases s.len(),
{
    if s.len() > 0 {
        lemma_all_zeros(s.drop_last());
    }
}

/// The text of one digit.
fn digit_str(d: u8) -> (s: &'static str)
    requires
        d < 10,
    ensures
        s@ == seq![digit_char(d as nat)],
{
    proof {
        reveal_strlit("0");
        reveal_strlit("1");
        reveal_strlit("2");
        reveal_strlit("3");
        reveal_strlit("4");
        reveal_strlit("5");
        reveal_strlit("6");
        reveal_strlit("7");
        reveal_strlit("8");
        reveal_strlit("9");
    }
    match d {
        0 => "0",
        1 => "1",
        2 => "2",
        3 => "3",
        4 => "4",
        5 => "5",
        6 => "6",
        7 => "7",
        8 => "8",
        _ => "9",
    }
}

/// The digit that a character shows, if it shows one.
pub fn digit_of(c: char) -> (r: Option<u8>)
    ensures
        r is Some <==> is_digit(c),
        r matches Some(d) ==> d < 10 && d == digit_value(c) && c == digit_char(d as nat),
{
    if '0' <= c && c <= '9' {
        Some(((c as u32) - ('0' as u32)) as u8)
    } else {
        None
    }
}

/// Writes `n` in canonical decimal digits.
pub fn decimal_string(n: u128) -> (s: String)
    ensures
        s@ == decimal_text(n as nat),
    decreases n,
{
    if n < 10 {
        digit_str(n as u8).to_owned()
    } else {
        let mut s = decimal_string(n / 10);
        s.append(digit_str((n % 10) as u8));
        assert(s@ =~= decimal_text((n / 10) as nat).push(digit_char((n % 10) as nat)));
        s
    }
}

/// Writes `n` in canonical signed decimal digits.
pub fn signed_decimal_string(n: i128) -> (s: String)
    ensures
        s@ == signed_text(n as int),
{
    if n < 0 {
        let magnitude: u128 = ((-(n + 1)) as u128) + 1;
        proof {
            reveal_strlit("-");
        }
        let mut s = "-".to_owned();
        let digits = decimal_string(magnitude);
        s.append(digits.as_str());
        assert(s@ =~= seq!['-'] + decimal_text((-n) as nat));
        s
    } else {
        decimal_string(n as u128)
    }
}

/// Whether the characters from `start` on are a decimal.
fn is_decimal_from(chars: &Vec<char>, start: usize) -> (r: bool)
    requires
        start <= chars.len(),
    ensures
        r == is_decimal(chars@.skip(start as int)),
{
    let ghost s = chars@.skip(start as int);
    if start == chars.len() {
        return false;
    }
    let mut i: usize = start;
    while i < chars.len()
        invariant
            start <= i <= chars.len(),
            s == chars@.skip(start as int),
            forall|j: int| 0 <= j < i - start ==> is_digit(#[trigger] s[j]),
        decreases chars.len() - i,
    {
        if digit_of(chars[i]).is_none() {
            assert(!is_digit(s[i - start]));
            return false;
        }
        i = i + 1;
    }
    true
}

/// The value of the decimal from `start` on, where it is one and is at most
/// `MAX_SAFE_INTEGER`.
fn small_decimal_from(chars: &Vec<char>, start: usize) -> (r: Option<u64>)
    requires
        start <= chars.len(),
    ensures
        r is Some <==> is_decimal(chars@.skip(start as int)) && decimal_value(
            chars@.skip(start as int),
        ) <= MAX_SAFE_INTEGER,
        r matches Some(v) ==> v == decimal_value(chars@.skip(start as int)),
{
    let ghost s = chars@.skip(start as int);
    if !is_decimal_from(chars, start) {
        return None;
    }
    let mut acc: u64 = 0;
    let mut i: usize = start;
    assert(s.take(0) =~= Seq::<char>::empty());
    while i < chars.len()
        invariant
            start <= i <= chars.len(),
            s == chars@.skip(start as int),
            is_decimal(s),
            acc == decimal_value(s.take(i - start)),
            acc <= MAX_SAFE_INTEGER,
        decreases chars.len() - i,
    {
        let d = digit_of(chars[i]);
        assert(is_digit(s[i - start]));
        let digit: u64 = d.unwrap() as u64;
        let next: u64 = acc * 10 + digit;
        proof {
            let k = i - start;
            assert(s.take(k + 1).drop_last() =~= s.take(k));
            assert(s.take(k + 1).last() == s[k]);
            lemma_decimal_value_prefix(s, k + 1);
        }
        if next > MAX_SAFE_INTEGER {
            return None;
        }
        acc = next;
        i = i + 1;
    }
    assert(s.take(i - start) =~= s);
    Some(acc)
}

/// The canonical digits of the decimal from `start` on.
fn canonical_decimal_from(chars: &Vec<char>, start: usize) -> (r: String)
    requires
        start <= chars.len(),
        is_decimal(chars@.skip(start as int)),
    ensures
        r@ == decimal_text(decimal_value(chars@.skip(start as int))),
{
    let ghost s = chars@.skip(start as int);
    let mut first: usize = start;
    while first + 1 < chars.len() && chars[first] == '0'
        invariant
            start <= first < chars.len(),
            s == chars@.skip(start as int),
            forall|j: int| 0 <= j < first - start ==> s[j] == '0',
        decreases chars.len() - first,
    {
        first = first + 1;
    }
    let ghost kept = s.skip(first - start);
    proof {
        lemma_leading_zeros(s, first - start);
        assert forall|j: int| 0 <= j < kept.len() implies is_digit(#[trigger] kept[j]) by {
            assert(kept[j] == s[j + (first - start)]);
        }
        assert(kept[0] == chars@[first as int]);
        assert(is_canonical_nat(kept));
        lemma_decimal_text_of_value(kept);
    }
    let mut out = String::new();
    let mut i: usize = first;
    while i < chars.len()
        invariant
            first <= i <= chars.len(),
            s == chars@.skip(start as int),
            kept == s.skip(first - start),
            start <= first,
            all_digits(kept),
            out@ == kept.take(i - first),
        decreases chars.len() - i,
    {
        let d = digit_of(chars[i]);
        assert(kept[i - first] == chars@[i as int]);
        assert(is_digit(kept[i - first]));
        out.append(digit_str(d.unwrap()));
        assert(out@ =~= kept.take(i + 1 - first));
        i = i + 1;
    }
    assert(kept.take(i - first) =~= kept);
    out
}

/// The canonical digits of the decimal that `text` is, if it is one.
pub fn canonical_nat(text: &str) -> (r: Option<String>)
    ensures
        r is Some <==> is_decimal(text@),
        r matches Some(s) ==> s@ == decimal_text(decimal_value(text@)),
{
    let chars = chars_of(text);
    assert(chars@.skip(0) =~= chars@);
    if is_decimal_from(&chars, 0) {
        Some(canonical_decimal_from(&chars, 0))
    } else {
        None
    }
}

/// The canonical text of the signed decimal that `text` is, if it is one.
pub fn canonical_int(text: &str) -> (r: Option<String>)
    ensures
        r is Some <==> is_signed_decimal(text@),
        r matches Some(s) ==> s@ == signed_text(signed_value(text@)),
{
    let chars = chars_of(text);
    assert(chars@.skip(0) =~= chars@);
    if chars.len() > 0 && chars[0] == '-' {
        assert(chars@.skip(1) =~= chars@.drop_first());
        assert(!is_digit(chars@[0]));
        if !is_decimal_from(&chars, 1) {
            return None;
        }
        let digits = canonical_decimal_from(&chars, 1);
        match small_decimal_from(&chars, 1) {
            Some(0) => Some(digits),
            _ => {
                proof {
                    reveal_strlit("-");
                }
                let mut s = "-".to_owned();
                s.append(digits.as_str());
                assert(s@ =~= seq!['-'] + digits@);
                Some(s)
            },
        }
    } else if is_decimal_from(&chars, 0) {
        Some(canonical_decimal_from(&chars, 0))
    } else {
        None
    }
}

/// Whether every document reader holds the integer `n` exactly.
pub open spec fn is_safe_integer(n: int) -> bool {
    -(MAX_SAFE_INTEGER as int) <= n <= MAX_SAFE_INTEGER as int
}

/// The integer that `text` denotes, where `text` is canonical and the integer is safe.
pub fn safe_integer_of(text: &str) -> (r: Option<i64>)
    ensures
        r is Some <==> is_canonical_int(text@) && is_safe_integer(signed_value(text@)),
        r matches Some(v) ==> v == signed_value(text@),
{
    let chars = chars_of(text);
    assert(chars@.skip(0) =~= chars@);
    if chars.len() == 0 {
        return None;
    }
    let negative = chars[0] == '-';
    let start: usize = if negative {
        1
    } else {
        0
    };
    proof {
        if negative {
            assert(chars@.skip(1) =~= chars@.drop_first());
            assert(!is_digit(chars@[0]));
        }
    }
    match small_decimal_from(&chars, start) {
        None => None,
        Some(v) => {
            assert(chars@.skip(start as int)[0] == chars@[start as int]);
            if chars.len() - start > 1 && chars[start] == '0' {
                None
            } else if negative {
                if v == 0 {
                    None
                } else {
                    Some(-(v as i64))
                }
            } else {
                Some(v as i64)
            }
        },
    }
}

/// Canonical digits denote zero exactly where they are the one digit zero.
pub proof fn lemma_canonical_zero(s: Seq<char>)
    requires
        is_canonical_nat(s),
    ensures
        decimal_value(s) == 0 <==> s =~= seq!['0'],
{
    lemma_canonical_value_bounds(s);
    if s.len() == 1 {
        assert(s.drop_last() =~= Seq::<char>::empty());
        assert(decimal_value(s.drop_last()) == 0);
        assert(is_digit(s[0]));
    }
}

fn is_canonical_from(chars: &Vec<char>, start: usize) -> (r: bool)
    requires
        start <= chars.len(),
    ensures
        r == is_canonical_nat(chars@.skip(start as int)),
{
    if !is_decimal_from(chars, start) {
        return false;
    }
    assert(chars@.skip(start as int)[0] == chars@[start as int]);
    !(chars.len() - start > 1 && chars[start] == '0')
}

/// Whether `text` is a canonical decimal.
pub fn is_canonical_nat_text(text: &str) -> (r: bool)
    ensures
        r == is_canonical_nat(text@),
{
    let chars = chars_of(text);
    assert(chars@.skip(0) =~= chars@);
    is_canonical_from(&chars, 0)
}

/// Whether `text` is a canonical signed decimal.
pub fn is_canonical_int_text(text: &str) -> (r: bool)
    ensures
        r == is_canonical_int(text@),
{
    let chars = chars_of(text);
    assert(chars@.skip(0) =~= chars@);
    if chars.len() > 0 && chars[0] == '-' {
        let ghost rest = chars@.skip(1);
        assert(rest =~= chars@.drop_first());
        assert(!is_digit(chars@[0]));
        if !is_canonical_from(&chars, 1) {
            return false;
        }
        proof {
            lemma_canonical_zero(rest);
            assert(rest[0] == chars@[1]);
            if rest.len() == 1 && rest[0] == '0' {
                assert(rest =~= seq!['0']);
            }
        }
        !(chars.len() == 2 && chars[1] == '0')
    } else {
        is_canonical_from(&chars, 0)
    }
}

} // verus!
