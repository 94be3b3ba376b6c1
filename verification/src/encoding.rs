//! Text and byte encodings used by the library: lowercase hexadecimal,
//! decimal numbers and big-endian integers.

use vstd::prelude::*;

verus! {

/// The lowercase hexadecimal digit for a nibble.
pub open spec fn hex_digit(n: int) -> char {
    if n == 0 { '0' }
    else if n == 1 { '1' }
    else if n == 2 { '2' }
    else if n == 3 { '3' }
    else if n == 4 { '4' }
    else if n == 5 { '5' }
    else if n == 6 { '6' }
    else if n == 7 { '7' }
    else if n == 8 { '8' }
    else if n == 9 { '9' }
    else if n == 10 { 'a' }
    else if n == 11 { 'b' }
    else if n == 12 { 'c' }
    else if n == 13 { 'd' }
    else if n == 14 { 'e' }
    else { 'f' }
}

/// Lowercase hexadecimal text of a byte sequence: two digits per byte, the
/// high nibble first.
pub open spec fn hex_lower(data: Seq<u8>) -> Seq<char> {
    Seq::new(
        (2 * data.len()) as nat,
        |i: int|
            if i % 2 == 0 {
                hex_digit((data[i / 2] / 16) as int)
            } else {
                hex_digit((data[i / 2] % 16) as int)
            },
    )
}

/// Decimal digit of a number below ten.
pub open spec fn decimal_digit(n: int) -> char {
    hex_digit(n)
}

/// Decimal text of a natural number, without leading zeros.
pub open spec fn decimal(n: nat) -> Seq<char>
    decreases n,
{
    if n < 10 {
        seq![decimal_digit(n as int)]
    } else {
        decimal(n / 10).push(decimal_digit((n % 10) as int))
    }
}

/// The four bytes of a `u32`, most significant first.
pub open spec fn u32_be_bytes(n: u32) -> Seq<u8> {
    seq![
        (n / 0x0100_0000) as u8,
        ((n / 0x0001_0000) % 0x100) as u8,
        ((n / 0x100) % 0x100) as u8,
        (n % 0x100) as u8,
    ]
}

/// The natural number that a byte sequence denotes, most significant byte first.
pub open spec fn be_value(bytes: Seq<u8>) -> nat
    decreases bytes.len(),
{
    if bytes.len() == 0 {
        0
    } else {
        (be_value(bytes.drop_last()) * 256 + bytes.last()) as nat
    }
}

fn hex_digit_exec(n: u8) -> (c: char)
    requires
        n < 16,
    ensures
        c == hex_digit(n as int),
{
    match n {
        0 => '0',
        1 => '1',
        2 => '2',
        3 => '3',
        4 => '4',
        5 => '5',
        6 => '6',
        7 => '7',
        8 => '8',
        9 => '9',
        10 => 'a',
        11 => 'b',
        12 => 'c',
        13 => 'd',
        14 => 'e',
        _ => 'f',
    }
}

/// Builds a `String` from its characters (`String::from_iter`).
#[verifier::external_body]
fn string_from_chars(chars: Vec<char>) -> (s: String)
    ensures
        s@ == chars@,
{
    String::from_iter(chars)
}

/// Lowercase hexadecimal text of `data`.
pub fn encode(data: &[u8]) -> (s: String)
    requires
        data@.len() <= usize::MAX / 2,
    ensures
        s@ == hex_lower(data@),
{
    let mut out: Vec<char> = Vec::new();
    let n = data.len();
    for i in 0..n
        invariant
            n == data@.len(),
            out@.len() == 2 * i,
            forall|j: int| 0 <= j < 2 * i ==> out@[j] == #[trigger] hex_lower(data@)[j],
    {
        let b: u8 = data[i];
        out.push(hex_digit_exec(b / 16));
        out.push(hex_digit_exec(b % 16));
        assert(hex_lower(data@)[2 * i as int] == hex_digit((b / 16) as int));
        assert(hex_lower(data@)[2 * i + 1] == hex_digit((b % 16) as int));
    }
    assert(out@ =~= hex_lower(data@));
    string_from_chars(out)
}

fn push_decimal(n: u32, out: &mut Vec<char>)
    ensures
        final(out)@ == old(out)@ + decimal(n as nat),
    decreases n,
{
    if n >= 10 {
        push_decimal(n / 10, out);
    }
    out.push(hex_digit_exec((n % 10) as u8));
    proof {
        if n < 10 {
            assert(decimal(n as nat) =~= seq![decimal_digit(n as int)]);
        }
    }
    assert(final(out)@ =~= old(out)@ + decimal(n as nat));
}

/// Decimal text of `n`, as `n.to_string()` writes it.
pub fn decimal_string(n: u32) -> (s: String)
    ensures
        s@ == decimal(n as nat),
{
    let mut out: Vec<char> = Vec::new();
    push_decimal(n, &mut out);
    assert(out@ =~= decimal(n as nat));
    string_from_chars(out)
}

/// The big-endian bytes of `n`, as `n.to_be_bytes()` gives them.
pub fn u32_to_be_bytes(n: u32) -> (b: [u8; 4])
    ensures
        b@ == u32_be_bytes(n),
{
    let b: [u8; 4] = [
        (n / 0x0100_0000) as u8,
        ((n / 0x0001_0000) % 0x100) as u8,
        ((n / 0x100) % 0x100) as u8,
        (n % 0x100) as u8,
    ];
    assert(b@ =~= u32_be_bytes(n));
    b
}

/// The 32 bytes of a 32-byte slice, as an array.
pub fn to_array_32(data: &[u8]) -> (bytes: [u8; 32])
    requires
        data@.len() == 32,
    ensures
        bytes@ == data@,
{
    let mut bytes: [u8; 32] = [0u8; 32];
    for i in 0..32
        invariant
            data@.len() == 32,
            forall|j: int| 0 <= j < i ==> bytes@[j] == data@[j],
    {
        bytes[i] = data[i];
    }
    assert(bytes@ =~= data@);
    bytes
}

/// Two byte sequences with the same hexadecimal text are equal: the encoding
/// loses nothing.
pub proof fn lemma_hex_lower_injective(a: Seq<u8>, b: Seq<u8>)
    requires
        hex_lower(a) == hex_lower(b),
    ensures
        a == b,
{
    assert(hex_lower(a).len() == 2 * a.len());
    assert(hex_lower(b).len() == 2 * b.len());
    assert(a.len() == b.len());
    assert forall|i: int| 0 <= i < a.len() implies a[i] == b[i] by {
        assert(hex_lower(a)[2 * i] == hex_lower(b)[2 * i]);
        assert(hex_lower(a)[2 * i + 1] == hex_lower(b)[2 * i + 1]);
        assert((2 * i) / 2 == i);
        assert((2 * i + 1) / 2 == i);
        assert((2 * i) % 2 == 0);
        assert((2 * i + 1) % 2 == 1);
        let ah = a[i] / 16;
        let al = a[i] % 16;
        let bh = b[i] / 16;
        let bl = b[i] % 16;
        assert(hex_lower(a)[2 * i] == hex_digit(ah as int));
        assert(hex_lower(b)[2 * i] == hex_digit(bh as int));
        assert(hex_lower(a)[2 * i + 1] == hex_digit(al as int));
        assert(hex_lower(b)[2 * i + 1] == hex_digit(bl as int));
        assert(ah == bh);
        assert(al == bl);
    }
    assert(a =~= b);
}

/// The bytes of `u32::to_be_bytes` read back, most significant first, give
/// the number again.
pub proof fn lemma_u32_be_bytes_value(n: u32)
    ensures
        u32_be_bytes(n).len() == 4,
        be_value(u32_be_bytes(n)) == n,
{
    let s = u32_be_bytes(n);
    assert(s.drop_last().drop_last().drop_last().drop_last() =~= Seq::<u8>::empty());
    reveal_with_fuel(be_value, 5);
    assert(s.drop_last().drop_last().drop_last() =~= seq![s[0]]);
    assert(s.drop_last().drop_last() =~= seq![s[0], s[1]]);
    assert(s.drop_last() =~= seq![s[0], s[1], s[2]]);
}

/// The number that a text of decimal digits denotes: each character's code
/// minus that of `'0'`, most significant first.
pub open spec fn digits_value(text: Seq<char>) -> int
    decreases text.len(),
{
    if text.len() == 0 {
        0
    } else {
        digits_value(text.drop_last()) * 10 + (text.last() as u32 - 48)
    }
}

/// The hexadecimal digits are the ASCII characters `0`..`9` for the values
/// 0 to 9 and `a`..`f` for the values 10 to 15.
pub proof fn lemma_hex_digit_codes(d: int)
    requires
        0 <= d < 16,
    ensures
        d < 10 ==> hex_digit(d) as u32 == 48 + d,
        d >= 10 ==> hex_digit(d) as u32 == 87 + d,
{
}

/// The value of a lowercase hexadecimal digit character.
pub open spec fn hex_char_value(c: char) -> int {
    if (c as u32) < 58 {
        c as u32 - 48
    } else {
        c as u32 - 87
    }
}

/// The hexadecimal text of bytes is two lowercase ASCII hex digits per byte,
/// high nibble first, that read back as the byte.
pub proof fn lemma_hex_lower_reads_back(data: Seq<u8>)
    ensures
        hex_lower(data).len() == 2 * data.len(),
        forall|i: int| 0 <= i < hex_lower(data).len() ==> {
            let code = #[trigger] hex_lower(data)[i] as u32;
            (48 <= code <= 57) || (97 <= code <= 102)
        },
        forall|i: int| 0 <= i < data.len() ==>
            hex_char_value(#[trigger] hex_lower(data)[2 * i]) * 16 + hex_char_value(hex_lower(data)[2 * i + 1])
                == data[i],
{
    let h = hex_lower(data);
    assert forall|i: int| 0 <= i < h.len() implies {
        let code = #[trigger] h[i] as u32;
        (48 <= code <= 57) || (97 <= code <= 102)
    } by {
        let b = data[i / 2];
        lemma_hex_digit_codes((b / 16) as int);
        lemma_hex_digit_codes((b % 16) as int);
    }
    assert forall|i: int| 0 <= i < data.len() implies
        hex_char_value(#[trigger] h[2 * i]) * 16 + hex_char_value(h[2 * i + 1]) == data[i] by {
        assert((2 * i) / 2 == i);
        assert((2 * i + 1) / 2 == i);
        assert((2 * i) % 2 == 0);
        assert((2 * i + 1) % 2 == 1);
        let b = data[i];
        lemma_hex_digit_codes((b / 16) as int);
        lemma_hex_digit_codes((b % 16) as int);
        assert(h[2 * i] == hex_digit((b / 16) as int));
        assert(h[2 * i + 1] == hex_digit((b % 16) as int));
    }
}

/// The decimal digits are the ASCII characters `0`..`9`.
pub proof fn lemma_decimal_digit_codes(d: int)
    requires
        0 <= d < 10,
    ensures
        decimal_digit(d) as u32 == 48 + d,
{
}

/// The decimal text of a number is a nonempty run of ASCII digits, with no
/// leading zero, that reads back as the number.
pub proof fn lemma_decimal_reads_back(n: nat)
    ensures
        decimal(n).len() >= 1,
        forall|i: int| 0 <= i < decimal(n).len() ==> 48 <= #[trigger] decimal(n)[i] as u32 <= 57,
        digits_value(decimal(n)) == n,
        n > 0 ==> decimal(n)[0] != '0',
    decreases n,
{
    if n < 10 {
        lemma_decimal_digit_codes(n as int);
        let t = decimal(n);
        assert(t =~= seq![decimal_digit(n as int)]);
        assert(t.drop_last() =~= Seq::<char>::empty());
        assert(digits_value(t.drop_last()) == 0);
    } else {
        lemma_decimal_reads_back(n / 10);
        lemma_decimal_digit_codes((n % 10) as int);
        let t = decimal(n);
        let h = decimal(n / 10);
        assert(t == h.push(decimal_digit((n % 10) as int)));
        assert(t.drop_last() =~= h);
        assert forall|i: int| 0 <= i < t.len() implies 48 <= #[trigger] t[i] as u32 <= 57 by {
            if i < h.len() {
                assert(t[i] == h[i]);
            }
        }
        assert(t[0] == h[0]);
        assert(digits_value(t) == digits_value(h) * 10 + (n % 10));
    }
}

} // verus!

