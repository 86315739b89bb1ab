//! Bytes as hexadecimal text, two digits to the byte.

use vstd::prelude::*;

verus! {

/// The lower-case hexadecimal digit for `d`.
pub open spec fn hex_char(d: nat) -> char {
    if d < 10 {
        (d + '0' as nat) as char
    } else {
        (d - 10 + 'a' as nat) as char
    }
}

/// What a hexadecimal digit of either case is worth.
pub open spec fn hex_value(c: char) -> Option<nat> {
    if '0' <= c <= '9' {
        Some((c as int - '0' as int) as nat)
    } else if 'a' <= c <= 'f' {
        Some((c as int - 'a' as int + 10) as nat)
    } else if 'A' <= c <= 'F' {
        Some((c as int - 'A' as int + 10) as nat)
    } else {
        None
    }
}

/// The bytes written out, the high digit of each byte first.
pub open spec fn hex_text(bytes: Seq<u8>) -> Seq<char>
    decreases bytes.len(),
{
    if bytes.len() == 0 {
        Seq::empty()
    } else {
        hex_text(bytes.drop_last()).push(hex_char((bytes.last() / 16) as nat)).push(
            hex_char((bytes.last() % 16) as nat),
        )
    }
}

/// The bytes that `s` writes out, where `s` is an even number of hexadecimal digits.
pub open spec fn hex_bytes(s: Seq<char>) -> Option<Seq<u8>>
    decreases s.len(),
{
    if s.len() % 2 != 0 {
        None
    } else if s.len() == 0 {
        Some(Seq::empty())
    } else {
        match (
            hex_bytes(s.take(s.len() - 2)),
            hex_value(s[s.len() - 2]),
            hex_value(s[s.len() - 1]),
        ) {
            (Some(head), Some(high), Some(low)) => Some(head.push((high * 16 + low) as u8)),
            _ => None,
        }
    }
}

/// Reading what was written gives the bytes back.
pub proof fn lemma_hex_round_trip(bytes: Seq<u8>)
    ensures
        hex_text(bytes).len() == 2 * bytes.len(),
        hex_bytes(hex_text(bytes)) == Some(bytes),
    decreases bytes.len(),
{
    if bytes.len() > 0 {
        let head = bytes.drop_last();
        let b = bytes.last();
        lemma_hex_round_trip(head);
        let t = hex_text(bytes);
        assert(t.take(t.len() - 2) =~= hex_text(head));
        assert(hex_value(hex_char((b / 16) as nat)) == Some((b / 16) as nat));
        assert(hex_value(hex_char((b % 16) as nat)) == Some((b % 16) as nat));
        assert(head.push(b) =~= bytes);
    } else {
        assert(hex_bytes(hex_text(bytes)).unwrap() =~= bytes);
    }
}

/// Text with an unreadable pair of digits in it is unreadable as a whole.
pub proof fn lemma_hex_prefix(s: Seq<char>, k: int)
    requires
        0 <= k,
        2 * k <= s.len(),
        s.len() % 2 == 0,
        hex_bytes(s.take(2 * k)) is None,
    ensures
        hex_bytes(s) is None,
    decreases s.len() - 2 * k,
{
    if 2 * k == s.len() {
        assert(s.take(2 * k) =~= s);
    } else {
        let longer = s.take(2 * (k + 1));
        assert(longer.take(longer.len() - 2) =~= s.take(2 * k));
        lemma_hex_prefix(s, k + 1);
    }
}

/// The text of one hexadecimal digit.
fn hex_digit_str(d: u8) -> (s: &'static str)
    requires
        d < 16,
    ensures
        s@ == seq![hex_char(d as nat)],
{
    proof {
        reveal_strlit("0");
        reveal_strlit("1");
        reveal_strlit("2");
        reveal_strlit("3");
        reveal_strlit("4");
        reveal_strlit("5");
        reveal_strlit("6");
        reveal_strlit("7");
        reveal_strlit("8");
        reveal_strlit("9");
        reveal_strlit("a");
        reveal_strlit("b");
        reveal_strlit("c");
        reveal_strlit("d");
        reveal_strlit("e");
        reveal_strlit("f");
    }
    match d {
        0 => "0",
        1 => "1",
        2 => "2",
        3 => "3",
        4 => "4",
        5 => "5",
        6 => "6",
        7 => "7",
        8 => "8",
        9 => "9",
        10 => "a",
        11 => "b",
        12 => "c",
        13 => "d",
        14 => "e",
        _ => "f",
    }
}

/// What the hexadecimal digit `c` is worth, if it is one.
pub fn hex_digit_of(c: char) -> (r: Option<u8>)
    ensures
        r is Some <==> hex_value(c) is Some,
        r matches Some(d) ==> d < 16 && hex_value(c) == Some(d as nat),
{
    if '0' <= c && c <= '9' {
        Some(((c as u32) - ('0' as u32)) as u8)
    } else if 'a' <= c && c <= 'f' {
        Some(((c as u32) - ('a' as u32) + 10) as u8)
    } else if 'A' <= c && c <= 'F' {
        Some(((c as u32) - ('A' as u32) + 10) as u8)
    } else {
        None
    }
}

/// Writes the bytes as lower-case hexadecimal text.
pub fn hex_string(bytes: &Vec<u8>) -> (s: String)
    ensures
        s@ == hex_text(bytes@),
{
    let mut out = String::new();
    let mut i: usize = 0;
    assert(bytes@.take(0) =~= Seq::<u8>::empty());
    while i < bytes.len()
        invariant
            i <= bytes.len(),
            out@ == hex_text(bytes@.take(i as int)),
        decreases bytes.len() - i,
    {
        let b: u8 = bytes[i];
        out.append(hex_digit_str(b / 16));
        out.append(hex_digit_str(b % 16));
        proof {
            let next = bytes@.take(i + 1);
            assert(next.drop_last() =~= bytes@.take(i as int));
            assert(next.last() == b);
            assert(out@ =~= hex_text(next));
        }
        i = i + 1;
    }
    assert(bytes@.take(i as int) =~= bytes@);
    out
}

/// Reads hexadecimal text of either case back into bytes.
pub fn parse_hex(chars: &Vec<char>) -> (r: Option<Vec<u8>>)
    ensures
        r is Some <==> hex_bytes(chars@) is Some,
        r matches Some(bytes) ==> hex_bytes(chars@) == Some(bytes@),
{
    if chars.len() % 2 != 0 {
        return None;
    }
    let mut out: Vec<u8> = Vec::new();
    let mut i: usize = 0;
    assert(chars@.take(0) =~= Seq::<char>::empty());
    while i < chars.len()
        invariant
            i <= chars.len(),
            i % 2 == 0,
            chars.len() % 2 == 0,
            hex_bytes(chars@.take(i as int)) == Some(out@),
        decreases chars.len() - i,
    {
        let high = hex_digit_of(chars[i]);
        let low = hex_digit_of(chars[i + 1]);
        proof {
            let next = chars@.take(i + 2);
            assert(next.take(next.len() - 2) =~= chars@.take(i as int));
            assert(next[next.len() - 2] == chars@[i as int]);
            assert(next[next.len() - 1] == chars@[i + 1]);
        }
        match (high, low) {
            (Some(h), Some(l)) => {
                out.push(h * 16 + l);
            },
            _ => {
                proof {
                    lemma_hex_prefix(chars@, (i as int + 2) / 2);
                }
                return None;
            },
        }
        i = i + 2;
    }
    assert(chars@.take(i as int) =~= chars@);
    Some(out)
}

} // verus!
