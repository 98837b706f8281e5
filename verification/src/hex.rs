//! Bytes in hexadecimal notation.
use vstd::prelude::*;
use vstd::utf8::{encode_utf8, is_ascii_chars};

use crate::text::{copy_text, remove_blanks};

verus! {

/// The value of a hexadecimal digit.
pub open spec fn nibble(b: u8) -> Option<int> {
    if 48 <= b <= 57 {
        Some(b - 48)
    } else if 65 <= b <= 70 {
        Some(b - 55)
    } else if 97 <= b <= 102 {
        Some(b - 87)
    } else {
        None
    }
}

/// The byte that two digits stand for.
pub open spec fn pair(a: u8, b: u8) -> Option<u8> {
    if nibble(a) is None || nibble(b) is None {
        None
    } else {
        Some((nibble(a)->0 * 16 + nibble(b)->0) as u8)
    }
}

/// The byte that two characters stand for where they are read loosely: two digits, or a plus sign and
/// a digit.
pub open spec fn loose_pair(a: u8, b: u8) -> Option<u8> {
    if a == 43 && nibble(b) is Some {
        Some(nibble(b)->0 as u8)
    } else {
        pair(a, b)
    }
}

/// The pairs of a byte string, read loosely. A last odd byte is in none.
pub open spec fn loose_pairs(s: Seq<u8>) -> Seq<Option<u8>> {
    Seq::new((s.len() / 2) as nat, |i: int| loose_pair(s[2 * i], s[2 * i + 1]))
}

/// The pairs of a byte string. A last odd byte is in none.
pub open spec fn pairs(s: Seq<u8>) -> Seq<Option<u8>> {
    Seq::new((s.len() / 2) as nat, |i: int| pair(s[2 * i], s[2 * i + 1]))
}

/// Every pair stands for a byte.
pub open spec fn all_good(p: Seq<Option<u8>>) -> bool {
    forall|i: int| 0 <= i < p.len() ==> (#[trigger] p[i]) is Some
}

/// The bytes of the pairs that stand for one, in their order.
pub open spec fn good_bytes(p: Seq<Option<u8>>) -> Seq<u8>
    decreases p.len(),
{
    if p.len() == 0 {
        Seq::empty()
    } else {
        match p.last() {
            Some(b) => good_bytes(p.drop_last()).push(b),
            None => good_bytes(p.drop_last()),
        }
    }
}

fn nibble_of(b: u8) -> (r: Option<u8>)
    ensures
        match nibble(b) {
            Some(n) => r == Some(n as u8) && 0 <= n < 16,
            None => r is None,
        },
{
    if 48 <= b && b <= 57 {
        Some(b - 48)
    } else if 65 <= b && b <= 70 {
        Some(b - 55)
    } else if 97 <= b && b <= 102 {
        Some(b - 87)
    } else {
        None
    }
}

fn pair_of(a: u8, b: u8) -> (r: Option<u8>)
    ensures
        r == pair(a, b),
{
    match (nibble_of(a), nibble_of(b)) {
        (Some(high), Some(low)) => Some(high * 16 + low),
        _ => None,
    }
}

/// The message for an odd number of digits.
pub open spec fn odd_digits() -> Seq<char> {
    "odd number of hex digits"@
}

/// The message for a pair that stands for no byte.
pub open spec fn bad_digit() -> Seq<char> {
    "invalid digit found in string"@
}

/// The bytes that a hex string stands for, or the reason why it stands for none.
pub open spec fn hex_spec(s: Seq<char>) -> Result<Seq<u8>, Seq<char>> {
    let b = encode_utf8(crate::text::without_blanks(s));
    if b.len() % 2 != 0 {
        Err(odd_digits())
    } else if !all_good(pairs(b)) {
        Err(bad_digit())
    } else {
        Ok(good_bytes(pairs(b)))
    }
}

/// A result with its bytes and its message as sequences.
pub open spec fn bytes_outcome(r: Result<Vec<u8>, String>) -> Result<Seq<u8>, Seq<char>> {
    match r {
        Ok(v) => Ok(v@),
        Err(m) => Err(m@),
    }
}

/// Decode a hex string (without 0x prefix) into bytes. Blanks are ignored. A character that is no
/// digit spoils the pair or the pairs in which its bytes are.
pub fn hex_decode(s: &str) -> (r: Result<Vec<u8>, String>)
    ensures
        bytes_outcome(r) == hex_spec(s@),
{
    let t = remove_blanks(s);
    let bytes = t.as_str().as_bytes();
    if bytes.len() % 2 != 0 {
        return Err(copy_text("odd number of hex digits"));
    }
    let ghost b = encode_utf8(crate::text::without_blanks(s@));
    let n: usize = bytes.len() / 2;
    let mut out: Vec<u8> = Vec::new();
    let mut i: usize = 0;
    while i < n
        invariant
            b == encode_utf8(crate::text::without_blanks(s@)),
            b.len() % 2 == 0,
            bytes@ == b,
            n == b.len() / 2,
            b.len() <= usize::MAX,
            i <= n,
            forall|k: int| 0 <= k < i ==> (#[trigger] pairs(b)[k]) is Some,
            out@ == good_bytes(pairs(b).take(i as int)),
        decreases n - i,
    {
        proof {
            assert(pairs(b).take(i + 1).drop_last() =~= pairs(b).take(i as int));
            assert(pairs(b)[i as int] == pair(b[2 * i], b[2 * i + 1]));
        }
        match pair_of(bytes[2 * i], bytes[2 * i + 1]) {
            Some(v) => out.push(v),
            None => return Err(copy_text("invalid digit found in string")),
        }
        i = i + 1;
    }
    proof {
        assert(pairs(b).take(n as int) =~= pairs(b));
    }
    Ok(out)
}

/// The bytes of the pairs that stand for one, read loosely; the others, and a last odd byte, are
/// passed over.
pub fn decode_good_pairs(s: &str) -> (r: Vec<u8>)
    ensures
        r@ == good_bytes(loose_pairs(encode_utf8(s@))),
{
    let bytes = s.as_bytes();
    let ghost b = encode_utf8(s@);
    let n: usize = bytes.len() / 2;
    let mut out: Vec<u8> = Vec::new();
    let mut i: usize = 0;
    while i < n
        invariant
            bytes@ == b,
            n == b.len() / 2,
            b.len() <= usize::MAX,
            i <= n,
            out@ == good_bytes(loose_pairs(b).take(i as int)),
        decreases n - i,
    {
        proof {
            assert(loose_pairs(b).take(i + 1).drop_last() =~= loose_pairs(b).take(i as int));
            assert(loose_pairs(b)[i as int] == loose_pair(b[2 * i], b[2 * i + 1]));
        }
        let (high, low) = (bytes[2 * i], bytes[2 * i + 1]);
        let v: Option<u8> = if high == 43 && nibble_of(low).is_some() {
            nibble_of(low)
        } else {
            pair_of(high, low)
        };
        if let Some(v) = v {
            out.push(v);
        }
        i = i + 1;
    }
    proof {
        assert(loose_pairs(b).take(n as int) =~= loose_pairs(b));
    }
    out
}

/// Decode a hex string as far as it can be decoded. Blanks are ignored.
pub fn hex_decode_lossy(s: &str) -> (r: Vec<u8>)
    ensures
        r@ == good_bytes(loose_pairs(encode_utf8(crate::text::without_blanks(s@)))),
{
    let t = remove_blanks(s);
    decode_good_pairs(t.as_str())
}

// --- Writing ---

/// The digit with the value `n`, a letter in small or in capital.
pub open spec fn hex_digit(n: int, upper: bool) -> char {
    if n < 10 {
        (48 + n) as char
    } else if upper {
        (55 + n) as char
    } else {
        (87 + n) as char
    }
}

/// A byte in two digits.
pub open spec fn hex_byte(b: u8, upper: bool) -> Seq<char> {
    seq![hex_digit(b as int / 16, upper), hex_digit(b as int % 16, upper)]
}

/// The bytes one after the other, two digits each.
pub open spec fn hex_run(bytes: Seq<u8>, upper: bool) -> Seq<char>
    decreases bytes.len(),
{
    if bytes.len() == 0 {
        Seq::empty()
    } else {
        hex_run(bytes.drop_last(), upper) + hex_byte(bytes.last(), upper)
    }
}

/// The bytes one after the other, two digits each, in small letters.
pub open spec fn hex_text(bytes: Seq<u8>) -> Seq<char> {
    hex_run(bytes, false)
}

/// The bytes in capital letters, a blank between each two, and two blanks after every 16 bytes.
pub open spec fn hex_dump(bytes: Seq<u8>) -> Seq<char>
    decreases bytes.len(),
{
    if bytes.len() == 0 {
        Seq::empty()
    } else if bytes.len() == 1 {
        hex_byte(bytes[0], true)
    } else {
        hex_dump(bytes.drop_last()) + (if (bytes.len() - 1) % 16 == 0 {
            seq![' ', ' ']
        } else {
            seq![' ']
        }) + hex_byte(bytes.last(), true)
    }
}

pub(crate) fn digit_of(n: u8, upper: bool) -> (r: char)
    requires
        n < 16,
    ensures
        r == hex_digit(n as int, upper),
{
    if n < 10 {
        (48 + n) as char
    } else if upper {
        (55 + n) as char
    } else {
        (87 + n) as char
    }
}

fn push_byte(out: &mut String, b: u8, upper: bool)
    ensures
        final(out)@ == old(out)@ + hex_byte(b, upper),
{
    out.push(digit_of(b / 16, upper));
    out.push(digit_of(b % 16, upper));
    proof {
        assert(out@ =~= old(out)@ + hex_byte(b, upper));
    }
}

/// The bytes one after the other, two digits each.
pub fn hex_encode(bytes: &Vec<u8>) -> (r: String)
    ensures
        r@ == hex_text(bytes@),
{
    let mut out = String::new();
    let mut i: usize = 0;
    while i < bytes.len()
        invariant
            i <= bytes@.len(),
            out@ == hex_text(bytes@.take(i as int)),
        decreases bytes@.len() - i,
    {
        proof {
            assert(bytes@.take(i + 1).drop_last() =~= bytes@.take(i as int));
        }
        push_byte(&mut out, bytes[i], false);
        i = i + 1;
    }
    proof {
        assert(bytes@.take(bytes@.len() as int) =~= bytes@);
    }
    out
}

/// The bytes as a dump in groups of 16.
pub fn hex_format(bytes: &[u8]) -> (r: String)
    ensures
        r@ == hex_dump(bytes@),
{
    let mut out = String::new();
    let mut i: usize = 0;
    while i < bytes.len()
        invariant
            i <= bytes@.len(),
            out@ == hex_dump(bytes@.take(i as int)),
        decreases bytes@.len() - i,
    {
        proof {
            assert(bytes@.take(i + 1).drop_last() =~= bytes@.take(i as int));
        }
        let ghost before = out@;
        if i > 0 {
            out.push(' ');
            if i % 16 == 0 {
                out.push(' ');
            }
        }
        let ghost mid = out@;
        push_byte(&mut out, bytes[i], true);
        proof {
            if i == 0 {
                assert(out@ =~= hex_dump(bytes@.take(1)));
            } else {
                assert(mid =~= before + (if i as int % 16 == 0 {
                    seq![' ', ' ']
                } else {
                    seq![' ']
                }));
            }
        }
        i = i + 1;
    }
    proof {
        assert(bytes@.take(bytes@.len() as int) =~= bytes@);
    }
    out
}

// --- Laws ---

/// Hex digits are ASCII, two for each byte.
proof fn hex_run_shape(bytes: Seq<u8>, upper: bool)
    ensures
        hex_run(bytes, upper).len() == 2 * bytes.len(),
        forall|i: int|
            0 <= i < bytes.len() ==> hex_run(bytes, upper)[2 * i] == hex_digit(
                (#[trigger] bytes[i]) as int / 16,
                upper,
            ) && hex_run(bytes, upper)[2 * i + 1] == hex_digit(bytes[i] as int % 16, upper),
        is_ascii_chars(hex_run(bytes, upper)),
        forall|i: int|
            0 <= i < hex_run(bytes, upper).len() ==> #[trigger] hex_run(bytes, upper)[i] != ' ',
    decreases bytes.len(),
{
    if bytes.len() > 0 {
        let front = bytes.drop_last();
        hex_run_shape(front, upper);
        let run = hex_run(bytes, upper);
        assert forall|i: int| 0 <= i < bytes.len() implies run[2 * i] == hex_digit(
            (#[trigger] bytes[i]) as int / 16,
            upper,
        ) && run[2 * i + 1] == hex_digit(bytes[i] as int % 16, upper) by {
            if i < front.len() {
                assert(front[i] == bytes[i]);
            }
        }
    }
}

/// A text without blanks stays as it is when they are taken out.
proof fn nothing_blank(s: Seq<char>)
    requires
        forall|i: int| 0 <= i < s.len() ==> #[trigger] s[i] != ' ',
    ensures
        crate::text::without_blanks(s) == s,
    decreases s.len(),
{
    if s.len() > 0 {
        let f = s.drop_last();
        assert forall|i: int| 0 <= i < f.len() implies #[trigger] f[i] != ' ' by {
            assert(f[i] == s[i]);
        }
        nothing_blank(f);
        assert(s[s.len() - 1] != ' ');
        assert(f.push(s.last()) =~= s);
    } else {
        assert(crate::text::without_blanks(s) =~= s);
    }
}

/// Where every pair is good, there is a byte for each.
proof fn good_bytes_of_good(p: Seq<Option<u8>>, bytes: Seq<u8>)
    requires
        p.len() == bytes.len(),
        forall|i: int| 0 <= i < p.len() ==> #[trigger] p[i] == Some(bytes[i]),
    ensures
        good_bytes(p) == bytes,
    decreases p.len(),
{
    if p.len() > 0 {
        let q = p.drop_last();
        let c = bytes.drop_last();
        assert forall|i: int| 0 <= i < q.len() implies #[trigger] q[i] == Some(c[i]) by {
            assert(q[i] == p[i]);
        }
        good_bytes_of_good(q, c);
        assert(p[p.len() - 1] == Some(bytes[p.len() - 1]));
        assert(c.push(bytes.last()) =~= bytes);
    } else {
        assert(good_bytes(p) =~= bytes);
    }
}

/// Digits in either case are read back.
proof fn run_read_back(bytes: Seq<u8>, upper: bool)
    ensures
        all_good(pairs(encode_utf8(hex_run(bytes, upper)))),
        encode_utf8(hex_run(bytes, upper)).len() == 2 * bytes.len(),
        good_bytes(pairs(encode_utf8(hex_run(bytes, upper)))) == bytes,
        good_bytes(loose_pairs(encode_utf8(hex_run(bytes, upper)))) == bytes,
        crate::text::without_blanks(hex_run(bytes, upper)) == hex_run(bytes, upper),
{
    let t = hex_run(bytes, upper);
    hex_run_shape(bytes, upper);
    nothing_blank(t);
    vstd::utf8::is_ascii_chars_encode_utf8(t);
    let b = encode_utf8(t);
    assert(b.len() == t.len());
    assert forall|i: int| 0 <= i < pairs(b).len() implies #[trigger] pairs(b)[i] == Some(
        bytes[i],
    ) by {
        assert(bytes[i] == bytes[i]);
        assert(b[2 * i] == t[2 * i] as u8);
        assert(b[2 * i + 1] == t[2 * i + 1] as u8);
        assert(t[2 * i] == hex_digit(bytes[i] as int / 16, upper));
    }
    good_bytes_of_good(pairs(b), bytes);
    assert forall|i: int| 0 <= i < loose_pairs(b).len() implies #[trigger] loose_pairs(b)[i]
        == Some(bytes[i]) by {
        assert(pairs(b)[i] == Some(bytes[i]));
        assert(b[2 * i] != 43);
    }
    good_bytes_of_good(loose_pairs(b), bytes);
}

/// What is written in hex is read back: every byte, in its place.
pub proof fn law_hex_round_trip(bytes: Seq<u8>)
    ensures
        hex_spec(hex_text(bytes)) == Ok::<Seq<u8>, Seq<char>>(bytes),
        good_bytes(loose_pairs(encode_utf8(hex_text(bytes)))) == bytes,
{
    run_read_back(bytes, false);
}

/// Taking blanks out goes over to the parts of a text.
proof fn blanks_add(a: Seq<char>, b: Seq<char>)
    ensures
        crate::text::without_blanks(a + b) == crate::text::without_blanks(a)
            + crate::text::without_blanks(b),
    decreases b.len(),
{
    if b.len() == 0 {
        assert(a + b =~= a);
        assert(crate::text::without_blanks(a) + crate::text::without_blanks(b)
            =~= crate::text::without_blanks(a));
    } else {
        blanks_add(a, b.drop_last());
        assert((a + b).drop_last() =~= a + b.drop_last());
        assert(crate::text::without_blanks(a + b) =~= crate::text::without_blanks(a)
            + crate::text::without_blanks(b));
    }
}

/// A dump without its blanks is the digits of its bytes.
proof fn dump_unspaced(bytes: Seq<u8>)
    ensures
        crate::text::without_blanks(hex_dump(bytes)) == hex_run(bytes, true),
    decreases bytes.len(),
{
    reveal_with_fuel(crate::text::without_blanks, 3);
    reveal_with_fuel(hex_run, 2);
    if bytes.len() > 0 {
        let front = bytes.drop_last();
        let gap = if (bytes.len() - 1) % 16 == 0 {
            seq![' ', ' ']
        } else {
            seq![' ']
        };
        let last = hex_byte(bytes.last(), true);
        dump_unspaced(front);
        run_read_back(seq![bytes.last()], true);
        assert(seq![bytes.last()].drop_last() =~= Seq::empty());
        assert(hex_run(seq![bytes.last()], true) =~= last);
        if bytes.len() == 1 {
            assert(front =~= Seq::empty());
            assert(hex_run(bytes, true) =~= last);
        } else {
            assert(seq![' ', ' '].drop_last() =~= seq![' ']);
            assert(seq![' '].drop_last() =~= Seq::empty());
            assert(crate::text::without_blanks(gap) =~= Seq::empty());
            blanks_add(hex_dump(front) + gap, last);
            blanks_add(hex_dump(front), gap);
            assert(crate::text::without_blanks(hex_dump(bytes)) =~= hex_run(front, true) + last);
        }
    } else {
        assert(crate::text::without_blanks(hex_dump(bytes)) =~= hex_run(bytes, true));
    }
}

/// What a dump shows is read back: decoding a dump gives its bytes.
pub proof fn law_dump_round_trip(bytes: Seq<u8>)
    ensures
        good_bytes(loose_pairs(encode_utf8(crate::text::without_blanks(hex_dump(bytes))))) == bytes,
        hex_spec(hex_dump(bytes)) == Ok::<Seq<u8>, Seq<char>>(bytes),
{
    dump_unspaced(bytes);
    run_read_back(bytes, true);
}

/// What a hex digit stands for, or -1 for any other byte.
pub open spec fn digit_value(b: u8) -> int {
    if '0' as int <= b <= '9' as int {
        b - '0' as int
    } else if 'a' as int <= b <= 'f' as int {
        b - 'a' as int + 10
    } else if 'A' as int <= b <= 'F' as int {
        b - 'A' as int + 10
    } else {
        -1
    }
}

proof fn good_all(p: Seq<Option<u8>>)
    requires
        all_good(p),
    ensures
        good_bytes(p).len() == p.len(),
        forall|i: int| 0 <= i < p.len() ==> Some(#[trigger] good_bytes(p)[i]) == p[i],
    decreases p.len(),
{
    if p.len() > 0 {
        let q = p.drop_last();
        assert forall|i: int| 0 <= i < q.len() implies (#[trigger] q[i]) is Some by {
            assert(q[i] == p[i]);
        }
        good_all(q);
        assert(p[p.len() - 1] is Some);
        assert forall|i: int| 0 <= i < p.len() implies Some(#[trigger] good_bytes(p)[i]) == p[i] by {
            if i < q.len() {
                assert(good_bytes(q)[i] == good_bytes(p)[i]);
                assert(q[i] == p[i]);
            }
        }
    }
}

/// A hex text is taken exactly if, blanks aside, it has an even number of bytes and all are hex
/// digits. Each two digits give a byte, the first counting sixteen times. An odd number is refused
/// before a bad digit is.
pub proof fn law_hex_decoding(s: Seq<char>)
    ensures
        ({
            let b = encode_utf8(s.filter(|c: char| c != ' '));
            let digits = forall|i: int| 0 <= i < b.len() ==> digit_value(#[trigger] b[i]) >= 0;
            &&& b.len() % 2 != 0 ==> hex_spec(s) == Err::<Seq<u8>, Seq<char>>(
                "odd number of hex digits"@,
            )
            &&& b.len() % 2 == 0 && !digits ==> hex_spec(s) == Err::<Seq<u8>, Seq<char>>(
                "invalid digit found in string"@,
            )
            &&& b.len() % 2 == 0 && digits ==> hex_spec(s) is Ok
            &&& hex_spec(s) matches Ok(v) ==> v.len() * 2 == b.len() && forall|i: int|
                0 <= i < v.len() ==> #[trigger] v[i] == 16 * digit_value(b[2 * i]) + digit_value(
                    b[2 * i + 1],
                )
        }),
{
    crate::text::law_without_blanks(s);
    let b = encode_utf8(s.filter(|c: char| c != ' '));
    let p = pairs(b);
    let digits = forall|i: int| 0 <= i < b.len() ==> digit_value(#[trigger] b[i]) >= 0;
    if b.len() % 2 == 0 {
        if digits {
            assert forall|i: int| 0 <= i < p.len() implies (#[trigger] p[i]) is Some by {
                assert(digit_value(b[2 * i]) >= 0 && digit_value(b[2 * i + 1]) >= 0);
            }
        } else {
            let k = choose|i: int| 0 <= i < b.len() && digit_value(#[trigger] b[i]) < 0;
            assert(p[k / 2] is None) by {
                assert(k == 2 * (k / 2) || k == 2 * (k / 2) + 1);
            }
        }
        if all_good(p) {
            good_all(p);
            let v = good_bytes(p);
            assert forall|i: int| 0 <= i < v.len() implies #[trigger] v[i] == 16 * digit_value(
                b[2 * i],
            ) + digit_value(b[2 * i + 1]) by {
                assert(Some(v[i]) == p[i]);
                assert(p[i] == pair(b[2 * i], b[2 * i + 1]));
            }
        }
    }
}

/// Reading pairs loosely goes over a text two bytes at a time. Two digits give a byte; a plus sign and
/// a digit give the digit; any other two bytes, or one at the end, give nothing.
pub proof fn law_loose_pairs(a: Seq<u8>, b: Seq<u8>, x: u8, y: u8)
    requires
        a.len() % 2 == 0,
    ensures
        good_bytes(loose_pairs(a + b)) == good_bytes(loose_pairs(a)) + good_bytes(loose_pairs(b)),
        good_bytes(loose_pairs(seq![x, y])) == (if digit_value(x) >= 0 && digit_value(y) >= 0 {
            seq![(16 * digit_value(x) + digit_value(y)) as u8]
        } else if x == '+' as u8 && digit_value(y) >= 0 {
            seq![digit_value(y) as u8]
        } else {
            Seq::empty()
        }),
        good_bytes(loose_pairs(seq![x])).len() == 0,
{
    let p = loose_pairs(a);
    let q = loose_pairs(b);
    assert(loose_pairs(a + b) =~= p + q) by {
        assert forall|i: int| 0 <= i < p.len() + q.len() implies loose_pairs(a + b)[i] == (p
            + q)[i] by {
            if i >= p.len() {
                let k = i - p.len();
                assert((a + b)[2 * i] == b[2 * k]);
                assert((a + b)[2 * i + 1] == b[2 * k + 1]);
            }
        }
    }
    goods_join(p, q);
    let l = loose_pairs(seq![x, y]);
    assert(l =~= seq![loose_pair(x, y)]);
    reveal_with_fuel(good_bytes, 2);
    assert(l.drop_last() =~= Seq::empty());
    assert(good_bytes(l.drop_last()) =~= Seq::<u8>::empty());
    if let Some(v) = loose_pair(x, y) {
        assert(good_bytes(l) =~= seq![v]);
    }
}

proof fn goods_join(p: Seq<Option<u8>>, q: Seq<Option<u8>>)
    ensures
        good_bytes(p + q) == good_bytes(p) + good_bytes(q),
    decreases q.len(),
{
    if q.len() == 0 {
        assert(p + q =~= p);
        assert(good_bytes(p) + good_bytes(q) =~= good_bytes(p));
    } else {
        goods_join(p, q.drop_last());
        assert((p + q).drop_last() =~= p + q.drop_last());
        assert(good_bytes(p + q) =~= good_bytes(p) + good_bytes(q));
    }
}

/// Bytes in hex have two characters each, digits and small letters.
pub proof fn law_hex_text_form(bytes: Seq<u8>)
    ensures
        hex_text(bytes).len() == 2 * bytes.len(),
        forall|i: int|
            0 <= i < hex_text(bytes).len() ==> ('0' <= #[trigger] hex_text(bytes)[i] <= '9' || 'a'
                <= hex_text(bytes)[i] <= 'f'),
    decreases bytes.len(),
{
    if bytes.len() > 0 {
        law_hex_text_form(bytes.drop_last());
    }
}

/// A dump has three characters for each byte but the first, which has two, and one more in front of
/// each group of sixteen but the first. A byte is two digits or capital letters. A byte behind others
/// is set off by a blank, and by two where a group begins.
pub proof fn law_dump_form(bytes: Seq<u8>, b: u8)
    ensures
        hex_dump(Seq::empty()).len() == 0,
        hex_dump(seq![b]).len() == 2,
        digit_value(hex_dump(seq![b])[0] as u8) == b / 16,
        digit_value(hex_dump(seq![b])[1] as u8) == b % 16,
        forall|i: int|
            0 <= i < 2 ==> ('0' <= #[trigger] hex_dump(seq![b])[i] <= '9' || 'A' <= hex_dump(
                seq![b],
            )[i] <= 'F'),
        bytes.len() > 0 && bytes.len() % 16 != 0 ==> hex_dump(bytes.push(b)) == hex_dump(bytes)
            + seq![' '] + hex_dump(seq![b]),
        bytes.len() > 0 && bytes.len() % 16 == 0 ==> hex_dump(bytes.push(b)) == hex_dump(bytes)
            + seq![' ', ' '] + hex_dump(seq![b]),
{
    assert(bytes.push(b).drop_last() =~= bytes);
}

/// A result is seen by its bytes, or by the characters of its message.
pub proof fn law_bytes_outcomes(v: Vec<u8>, m: String)
    ensures
        bytes_outcome(Ok::<Vec<u8>, String>(v)) == Ok::<Seq<u8>, Seq<char>>(v@),
        bytes_outcome(Err::<Vec<u8>, String>(m)) == Err::<Seq<u8>, Seq<char>>(m@),
{
}

} // verus!
