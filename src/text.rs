//! Decimal and hexadecimal text of numbers, amounts and ids.

use vstd::prelude::*;
use vstd::string::*;

verus! {

pub open spec fn digit_char(d: nat) -> char {
    if d == 0 {
        '0'
    } else if d == 1 {
        '1'
    } else if d == 2 {
        '2'
    } else if d == 3 {
        '3'
    } else if d == 4 {
        '4'
    } else if d == 5 {
        '5'
    } else if d == 6 {
        '6'
    } else if d == 7 {
        '7'
    } else if d == 8 {
        '8'
    } else {
        '9'
    }
}

/// A lowercase hexadecimal digit.
pub open spec fn hex_char(d: nat) -> char {
    if d < 10 {
        digit_char(d)
    } else if d == 10 {
        'a'
    } else if d == 11 {
        'b'
    } else if d == 12 {
        'c'
    } else if d == 13 {
        'd'
    } else if d == 14 {
        'e'
    } else {
        'f'
    }
}

/// The decimal digits of `n`, most significant first, without leading zeros.
pub open spec fn decimal(n: nat) -> Seq<char>
    decreases n,
{
    if n < 10 {
        seq![digit_char(n)]
    } else {
        decimal(n / 10) + seq![digit_char(n % 10)]
    }
}

/// The last `width` decimal digits of `n`, with leading zeros.
pub open spec fn zero_padded(n: nat, width: nat) -> Seq<char>
    decreases width,
{
    if width == 0 {
        Seq::empty()
    } else {
        zero_padded(n / 10, (width - 1) as nat) + seq![digit_char(n % 10)]
    }
}

/// `s` without its trailing zeros.
pub open spec fn strip_zeros(s: Seq<char>) -> Seq<char>
    decreases s.len(),
{
    if s.len() > 0 && s.last() == '0' {
        strip_zeros(s.drop_last())
    } else {
        s
    }
}

/// The number of satoshis in one bitcoin.
pub const SATS_PER_BTC: u64 = 100_000_000;

/// An amount of satoshis in bitcoins: the whole coins, then, where there is
/// a fraction, a point and its eight digits without trailing zeros.
pub open spec fn sats_text(sats: nat) -> Seq<char> {
    let whole = decimal(sats / SATS_PER_BTC as nat);
    let frac = sats % SATS_PER_BTC as nat;
    if frac == 0 {
        whole
    } else {
        whole + seq!['.'] + strip_zeros(zero_padded(frac, 8))
    }
}

pub open spec fn btc_text(sats: u64) -> Seq<char> {
    sats_text(sats as nat)
}

pub open spec fn signed_btc_text(sats: i64) -> Seq<char> {
    if sats < 0 {
        seq!['-'] + sats_text((-sats) as nat)
    } else {
        sats_text(sats as nat)
    }
}

/// Two lowercase hexadecimal digits for each byte, in order.
pub open spec fn hex_text(b: Seq<u8>) -> Seq<char>
    decreases b.len(),
{
    if b.len() == 0 {
        Seq::empty()
    } else {
        seq![hex_char(b[0] as nat / 16), hex_char(b[0] as nat % 16)] + hex_text(b.drop_first())
    }
}

/// A transaction id is written as the hex of its bytes, last byte first.
pub open spec fn txid_text(id: Seq<u8>) -> Seq<char> {
    hex_text(id.reverse())
}

/// The value of a hexadecimal digit of either case.
pub open spec fn hex_value(c: char) -> Option<nat> {
    let v = c as u32;
    if 48 <= v <= 57 {
        Some((v - 48) as nat)
    } else if 97 <= v <= 102 {
        Some((v - 87) as nat)
    } else if 65 <= v <= 70 {
        Some((v - 55) as nat)
    } else {
        None
    }
}

/// The bytes that a text of hexadecimal digit pairs spells, where it is one.
pub open spec fn parse_hex(t: Seq<char>) -> Option<Seq<u8>>
    decreases t.len(),
{
    if t.len() == 0 {
        Some(Seq::empty())
    } else if t.len() == 1 {
        None
    } else {
        match (hex_value(t[0]), hex_value(t[1]), parse_hex(t.subrange(2, t.len() as int))) {
            (Some(hi), Some(lo), Some(rest)) => Some(seq![(hi * 16 + lo) as u8] + rest),
            _ => None,
        }
    }
}

/// The id that a text names: 64 hexadecimal digits, last byte first.
pub open spec fn txid_from_text(t: Seq<char>) -> Option<Seq<u8>> {
    if t.len() == 64 {
        match parse_hex(t) {
            Some(b) => Some(b.reverse()),
            None => None,
        }
    } else {
        None
    }
}

/// `c` is a lowercase hexadecimal digit.
pub open spec fn is_lower_hex(c: char) -> bool {
    exists|d: nat| d < 16 && c == #[trigger] hex_char(d)
}

proof fn lemma_hex_digit(d: nat)
    requires
        d < 16,
    ensures
        hex_value(hex_char(d)) == Some(d),
{
}

proof fn lemma_byte_digits(hi: nat, lo: nat)
    requires
        hi < 16,
        lo < 16,
    ensures
        ((hi * 16 + lo) as u8) as nat / 16 == hi,
        ((hi * 16 + lo) as u8) as nat % 16 == lo,
{
    assert(hi * 16 + lo < 256) by (nonlinear_arith)
        requires
            hi < 16,
            lo < 16,
    ;
}

/// Lowercase hexadecimal digit pairs parse to bytes whose hex is the text again.
proof fn lemma_parse_hex_round_trip(t: Seq<char>)
    requires
        t.len() % 2 == 0,
        forall|i: int| 0 <= i < t.len() ==> is_lower_hex(#[trigger] t[i]),
    ensures
        parse_hex(t) is Some,
        parse_hex(t)->Some_0.len() * 2 == t.len(),
        hex_text(parse_hex(t)->Some_0) == t,
    decreases t.len(),
{
    if t.len() > 0 {
        let rest = t.subrange(2, t.len() as int);
        assert forall|i: int| 0 <= i < rest.len() implies is_lower_hex(#[trigger] rest[i]) by {
            assert(rest[i] == t[i + 2]);
        }
        lemma_parse_hex_round_trip(rest);
        assert(is_lower_hex(t[0]));
        assert(is_lower_hex(t[1]));
        let hd = choose|d: nat| d < 16 && t[0] == #[trigger] hex_char(d);
        let ld = choose|d: nat| d < 16 && t[1] == #[trigger] hex_char(d);
        lemma_hex_digit(hd);
        lemma_hex_digit(ld);
        lemma_byte_digits(hd, ld);
        let rb = parse_hex(rest)->Some_0;
        let b = seq![(hd * 16 + ld) as u8] + rb;
        assert(parse_hex(t) == Some(b));
        assert(b.drop_first() =~= rb);
        assert(hex_text(b) =~= t);
    }
}

/// Reading the text of a transaction id and writing the id back gives the
/// same text, wherever it is 64 lowercase hexadecimal digits.
pub proof fn lemma_txid_text_round_trip(t: Seq<char>)
    requires
        t.len() == 64,
        forall|i: int| 0 <= i < t.len() ==> is_lower_hex(#[trigger] t[i]),
    ensures
        txid_from_text(t) is Some,
        txid_from_text(t)->Some_0.len() == 32,
        txid_text(txid_from_text(t)->Some_0) == t,
{
    lemma_parse_hex_round_trip(t);
    let b = parse_hex(t)->Some_0;
    assert(b.reverse().reverse() =~= b);
}

fn digit_str(d: u64) -> (r: &'static str)
    requires
        d < 10,
    ensures
        r@ == seq![digit_char(d as nat)],
{
    proof {
        reveal_strlit("0");
        reveal_strlit("1");
        reveal_strlit("2");
        reveal_strlit("3");
        reveal_strlit("4");
        reveal_strlit("5");
        reveal_strlit("6");
        reveal_strlit("7");
        reveal_strlit("8");
        reveal_strlit("9");
    }
    let r = match d {
        0 => "0",
        1 => "1",
        2 => "2",
        3 => "3",
        4 => "4",
        5 => "5",
        6 => "6",
        7 => "7",
        8 => "8",
        _ => "9",
    };
    assert(r@ =~= seq![digit_char(d as nat)]);
    r
}

/// The decimal text of `n`.
pub fn decimal_text(n: u64) -> (r: String)
    ensures
        r@ == decimal(n as nat),
    decreases n,
{
    if n < 10 {
        String::from_str(digit_str(n))
    } else {
        let mut r = decimal_text(n / 10);
        r.append(digit_str(n % 10));
        r
    }
}

} // verus!
