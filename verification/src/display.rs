use vstd::prelude::*;
use vstd::utf8::*;

use crate::codec::{
    binary_decoding, chunk_len, decode_chunks, hex_decoding, is_separator,
    lemma_strip_concat, strip_separators, utf8_width, Decoding,
};
use crate::config::DataFormat;
use crate::text::{
    all_digits, chunk_max, digit_char, digit_char_of, digit_value, digits_value,
    lemma_digit_char_value, lemma_hex_digit_either_case, lower_digit_char, parse_unsigned_spec,
    string_from_chars, unsigned_digits,
};

verus! {

/// What `String::from_utf8_lossy` makes of `bytes`: the text they encode, each invalid
/// sequence replaced by U+FFFD.
pub uninterp spec fn lossy_utf8(bytes: Seq<u8>) -> Seq<char>;

/// `String::from_utf8_lossy(bytes)`, owned. The result is the text named `lossy_utf8(bytes)`;
/// bytes that are valid UTF-8 come back as exactly the text they encode.
#[verifier::external_body]
fn utf8_lossy_text(bytes: &[u8]) -> (r: String)
    ensures
        r@ == lossy_utf8(bytes@),
        valid_utf8(bytes@) ==> r@ == decode_utf8(bytes@),
{
    String::from_utf8_lossy(bytes).into_owned()
}

/// The two upper-case hex digits of `b`, as `{:02X}` writes them.
pub open spec fn hex_byte_chars(b: u8) -> Seq<char> {
    seq![digit_char((b / 16) as nat), digit_char((b % 16) as nat)]
}

/// The lowest `k` bits of `v` as binary digits, most significant first.
pub open spec fn bit_chars(v: nat, k: nat) -> Seq<char>
    decreases k,
{
    if k == 0 {
        seq![]
    } else {
        bit_chars(v / 2, (k - 1) as nat).push(digit_char(v % 2))
    }
}

/// The eight binary digits of `b`, as `{:08b}` writes them.
pub open spec fn binary_byte_chars(b: u8) -> Seq<char> {
    bit_chars(b as nat, 8)
}

/// The text of one byte: binary digits or hex digits.
pub open spec fn byte_token(b: u8, binary: bool) -> Seq<char> {
    if binary {
        binary_byte_chars(b)
    } else {
        hex_byte_chars(b)
    }
}

/// The tokens of the bytes of `data`, one space between two tokens.
pub open spec fn spaced_tokens(data: Seq<u8>, binary: bool) -> Seq<char>
    decreases data.len(),
{
    if data.len() == 0 {
        seq![]
    } else if data.len() == 1 {
        byte_token(data[0], binary)
    } else {
        spaced_tokens(data.drop_last(), binary) + seq![' '] + byte_token(data.last(), binary)
    }
}

/// How data is shown: as text (invalid UTF-8 replaced), as upper-case hex pairs,
/// or as binary octets, the tokens separated by single spaces.
pub open spec fn display_chars(data: Seq<u8>, format: DataFormat) -> Seq<char> {
    match format {
        DataFormat::Text => lossy_utf8(data),
        DataFormat::Hex => spaced_tokens(data, false),
        DataFormat::Binary => spaced_tokens(data, true),
    }
}

fn push_bits(v: u8, k: u8, out: &mut Vec<char>)
    requires
        k <= 8,
    ensures
        final(out)@ == old(out)@ + bit_chars(v as nat, k as nat),
    decreases k,
{
    if k > 0 {
        push_bits(v / 2, k - 1, out);
        let c = digit_char_of(v % 2);
        out.push(c);
        assert(final(out)@ =~= old(out)@ + bit_chars(v as nat, k as nat));
    } else {
        assert(final(out)@ =~= old(out)@ + bit_chars(v as nat, k as nat));
    }
}

fn push_token(b: u8, binary: bool, out: &mut Vec<char>)
    ensures
        final(out)@ == old(out)@ + byte_token(b, binary),
{
    if binary {
        push_bits(b, 8, out);
    } else {
        let hi = digit_char_of(b / 16);
        let lo = digit_char_of(b % 16);
        out.push(hi);
        out.push(lo);
        assert(final(out)@ =~= old(out)@ + byte_token(b, binary));
    }
}

fn spaced_text(data: &[u8], binary: bool) -> (r: String)
    ensures
        r@ == spaced_tokens(data@, binary),
{
    let mut out: Vec<char> = Vec::new();
    let mut i: usize = 0;
    assert(data@.take(0) =~= Seq::<u8>::empty());
    while i < data.len()
        invariant
            i <= data@.len(),
            out@ == spaced_tokens(data@.take(i as int), binary),
        decreases data.len() - i,
    {
        let ghost before = out@;
        if i > 0 {
            out.push(' ');
        }
        push_token(data[i], binary, &mut out);
        proof {
            let d = data@.take(i + 1);
            assert(d.drop_last() =~= data@.take(i as int));
            assert(d.last() == data@[i as int]);
            if i == 0 {
                assert(out@ =~= spaced_tokens(d, binary));
            } else {
                assert(out@ =~= before + seq![' '] + byte_token(data@[i as int], binary));
            }
        }
        i = i + 1;
    }
    assert(data@.take(i as int) =~= data@);
    string_from_chars(&out)
}

/// The text shown for `data` in `format`: UTF-8 text with invalid sequences replaced,
/// upper-case hex pairs (`48 65 6C`), or binary octets (`01001000 01100101`).
pub fn format_data_for_display(data: &[u8], format: &DataFormat) -> (r: String)
    ensures
        r@ == display_chars(data@, *format),
        *format == DataFormat::Text && valid_utf8(data@) ==> r@ == decode_utf8(data@),
{
    match format {
        DataFormat::Text => utf8_lossy_text(data),
        DataFormat::Hex => spaced_text(data, false),
        DataFormat::Binary => spaced_text(data, true),
    }
}

/// The tokens of the bytes of `data` written one after the other.
pub open spec fn joined_tokens(data: Seq<u8>, binary: bool) -> Seq<char>
    decreases data.len(),
{
    if data.len() == 0 {
        seq![]
    } else {
        joined_tokens(data.drop_last(), binary) + byte_token(data.last(), binary)
    }
}

/// `2` to the power `k`.
pub open spec fn bit_limit(k: nat) -> nat
    decreases k,
{
    if k == 0 {
        1
    } else {
        2 * bit_limit((k - 1) as nat)
    }
}

/// Characters that are plain ASCII digits: no separator, no sign, one UTF-8 byte each.
pub open spec fn plain_digits(cs: Seq<char>, radix: nat) -> bool {
    forall|i: int|
        0 <= i < cs.len() ==> {
            &&& !is_separator(#[trigger] cs[i])
            &&& cs[i] != '+'
            &&& '\0' <= cs[i] <= '\u{7f}'
            &&& digit_value(cs[i], radix) is Some
        }
}

proof fn lemma_strip_plain(cs: Seq<char>, radix: nat)
    requires
        plain_digits(cs, radix),
    ensures
        strip_separators(cs) == cs,
    decreases cs.len(),
{
    if cs.len() > 0 {
        assert(plain_digits(cs.drop_last(), radix)) by {
            assert forall|i: int| 0 <= i < cs.drop_last().len() implies #[trigger] cs.drop_last()[i]
                == cs[i] by {}
        }
        lemma_strip_plain(cs.drop_last(), radix);
        assert(!is_separator(cs[cs.len() - 1]));
        assert(cs.drop_last().push(cs.last()) =~= cs);
    }
}

proof fn lemma_bit_chars(v: nat, k: nat)
    requires
        v < bit_limit(k),
    ensures
        bit_chars(v, k).len() == k,
        plain_digits(bit_chars(v, k), 2),
        digits_value(bit_chars(v, k), 2) == v,
    decreases k,
{
    if k > 0 {
        let prev = bit_chars(v / 2, (k - 1) as nat);
        lemma_bit_chars(v / 2, (k - 1) as nat);
        lemma_digit_char_value(v % 2, 2);
        let cs = bit_chars(v, k);
        assert(cs.drop_last() =~= prev);
        assert(cs.last() == digit_char(v % 2));
        assert forall|i: int| 0 <= i < cs.len() implies {
            &&& !is_separator(#[trigger] cs[i])
            &&& cs[i] != '+'
            &&& '\0' <= cs[i] <= '\u{7f}'
            &&& digit_value(cs[i], 2) is Some
        } by {
            if i < k - 1 {
                assert(cs[i] == prev[i]);
            }
        }
    }
}

proof fn lemma_token(b: u8, binary: bool)
    ensures
        byte_token(b, binary).len() == if binary { 8nat } else { 2nat },
        plain_digits(byte_token(b, binary), if binary { 2nat } else { 16nat }),
        digits_value(byte_token(b, binary), if binary { 2nat } else { 16nat }) == b,
{
    if binary {
        assert(bit_limit(8) == 256) by {
            reveal_with_fuel(bit_limit, 9);
        }
        lemma_bit_chars(b as nat, 8);
    } else {
        let hi = (b / 16) as nat;
        let lo = (b % 16) as nat;
        lemma_digit_char_value(hi, 16);
        lemma_digit_char_value(lo, 16);
        let t = byte_token(b, binary);
        assert(t.drop_last() =~= seq![digit_char(hi)]);
        let one = seq![digit_char(hi)];
        assert(one.drop_last() =~= Seq::<char>::empty());
        assert(one.last() == digit_char(hi));
        assert(digits_value(one, 16) == hi) by {
            reveal_with_fuel(digits_value, 2);
        }
        assert forall|i: int| 0 <= i < t.len() implies {
            &&& !is_separator(#[trigger] t[i])
            &&& t[i] != '+'
            &&& '\0' <= t[i] <= '\u{7f}'
            &&& digit_value(t[i], 16) is Some
        } by {}
    }
}

proof fn lemma_plain_concat(a: Seq<char>, b: Seq<char>, radix: nat)
    requires
        plain_digits(a, radix),
        plain_digits(b, radix),
    ensures
        plain_digits(a + b, radix),
{
    assert forall|i: int| 0 <= i < (a + b).len() implies {
        &&& !is_separator(#[trigger] (a + b)[i])
        &&& (a + b)[i] != '+'
        &&& '\0' <= (a + b)[i] <= '\u{7f}'
        &&& digit_value((a + b)[i], radix) is Some
    } by {
        if i < a.len() {
            assert((a + b)[i] == a[i]);
        } else {
            assert((a + b)[i] == b[i - a.len()]);
        }
    }
}

proof fn lemma_joined(data: Seq<u8>, binary: bool)
    ensures
        joined_tokens(data, binary).len() == data.len() * (if binary { 8nat } else { 2nat }),
        plain_digits(joined_tokens(data, binary), if binary { 2nat } else { 16nat }),
        strip_separators(spaced_tokens(data, binary)) == joined_tokens(data, binary),
    decreases data.len(),
{
    let radix: nat = if binary { 2 } else { 16 };
    if data.len() == 0 {
    } else {
        let d = data.drop_last();
        lemma_joined(d, binary);
        lemma_token(data.last(), binary);
        lemma_plain_concat(joined_tokens(d, binary), byte_token(data.last(), binary), radix);
        lemma_strip_plain(byte_token(data.last(), binary), radix);
        if data.len() == 1 {
            assert(d =~= Seq::<u8>::empty());
            assert(joined_tokens(d, binary) + byte_token(data.last(), binary) =~= byte_token(
                data.last(),
                binary,
            ));
            assert(data[0] == data.last());
        } else {
            let sp = spaced_tokens(d, binary);
            lemma_strip_concat(sp + seq![' '], byte_token(data.last(), binary));
            lemma_strip_concat(sp, seq![' ']);
            assert(seq![' '].drop_last() =~= Seq::<char>::empty());
            assert(seq![' '].last() == ' ');
            assert(strip_separators(seq![' ']) =~= Seq::<char>::empty()) by {
                reveal_with_fuel(strip_separators, 2);
            }
            assert(strip_separators(sp) + Seq::<char>::empty() =~= strip_separators(sp));
        }
        assert(data.len() * (if binary { 8nat } else { 2nat }) == d.len() * (if binary {
            8nat
        } else {
            2nat
        }) + (if binary { 8nat } else { 2nat }));
    }
}

proof fn lemma_joined_front(data: Seq<u8>, binary: bool)
    requires
        data.len() > 0,
    ensures
        joined_tokens(data, binary) == byte_token(data[0], binary) + joined_tokens(
            data.drop_first(),
            binary,
        ),
    decreases data.len(),
{
    if data.len() == 1 {
        assert(data.drop_last() =~= Seq::<u8>::empty());
        assert(data.drop_first() =~= Seq::<u8>::empty());
        assert(joined_tokens(data, binary) =~= byte_token(data[0], binary) + joined_tokens(
            data.drop_first(),
            binary,
        ));
    } else {
        let d = data.drop_last();
        lemma_joined_front(d, binary);
        assert(d.drop_first() =~= data.drop_first().drop_last());
        assert(data.drop_first().last() == data.last());
        assert(d[0] == data[0]);
        assert(joined_tokens(data, binary) =~= byte_token(data[0], binary) + joined_tokens(
            data.drop_first(),
            binary,
        ));
    }
}

proof fn lemma_chunk_ascii(cs: Seq<char>, n: nat)
    requires
        n <= cs.len(),
        forall|i: int| 0 <= i < n ==> '\0' <= #[trigger] cs[i] <= '\u{7f}',
    ensures
        chunk_len(cs, n as int) == Some(n),
    decreases n,
{
    if n > 0 {
        assert(utf8_width(cs[0]) == 1);
        let rest = cs.drop_first();
        assert forall|i: int| 0 <= i < n - 1 implies '\0' <= #[trigger] rest[i] <= '\u{7f}' by {
            assert(rest[i] == cs[i + 1]);
        }
        lemma_chunk_ascii(rest, (n - 1) as nat);
    }
}

proof fn lemma_decode_joined(data: Seq<u8>, binary: bool, bad_prefix: Seq<char>)
    ensures
        decode_chunks(
            joined_tokens(data, binary),
            if binary { 8nat } else { 2nat },
            if binary { 2nat } else { 16nat },
            bad_prefix,
        ) == Decoding::Bytes(data),
    decreases data.len(),
{
    let width: nat = if binary { 8 } else { 2 };
    let radix: nat = if binary { 2 } else { 16 };
    let cs = joined_tokens(data, binary);
    if data.len() == 0 {
        assert(data =~= Seq::<u8>::empty());
    } else {
        lemma_joined_front(data, binary);
        let tok = byte_token(data[0], binary);
        let rest = joined_tokens(data.drop_first(), binary);
        lemma_token(data[0], binary);
        lemma_joined(data.drop_first(), binary);
        lemma_plain_concat(tok, rest, radix);
        lemma_chunk_ascii(cs, width);
        assert(cs.take(width as int) =~= tok);
        assert(cs.skip(width as int) =~= rest);
        assert(unsigned_digits(tok) == tok);
        assert(all_digits(tok, radix));
        assert(parse_unsigned_spec(tok, radix, chunk_max()) == Some(data[0] as nat));
        lemma_decode_joined(data.drop_first(), binary, bad_prefix);
        assert(seq![data[0]] + data.drop_first() =~= data);
    }
}

proof fn lemma_round_trip(data: Seq<u8>, binary: bool)
    ensures
        strip_separators(spaced_tokens(data, binary)) == joined_tokens(data, binary),
        encode_utf8(joined_tokens(data, binary)).len() % (if binary { 8nat } else { 2nat }) == 0,
{
    let cs = joined_tokens(data, binary);
    lemma_joined(data, binary);
    assert(is_ascii_chars(cs)) by {
        assert forall|i: int| 0 <= i < cs.len() implies '\0' <= #[trigger] cs[i] <= '\u{7f}' by {
            assert('\0' <= cs[i] <= '\u{7f}');
        }
    }
    is_ascii_chars_encode_utf8(cs);
    if binary {
        assert((data.len() * 8) % 8 == 0) by (nonlinear_arith);
    } else {
        assert((data.len() * 2) % 2 == 0) by (nonlinear_arith);
    }
}

/// Reading back the hex text that shows `data` gives `data` again.
pub proof fn lemma_hex_round_trip(data: Seq<u8>)
    ensures
        hex_decoding(display_chars(data, DataFormat::Hex)) == Decoding::Bytes(data),
{
    lemma_round_trip(data, false);
    lemma_decode_joined(data, false, "无效的十六进制字符: "@);
}

/// Reading back the binary text that shows `data` gives `data` again.
pub proof fn lemma_binary_round_trip(data: Seq<u8>)
    ensures
        binary_decoding(display_chars(data, DataFormat::Binary)) == Decoding::Bytes(data),
{
    lemma_round_trip(data, true);
    lemma_decode_joined(data, true, "无效的二进制字符: "@);
}

/// The two lower-case hex digits of `b`, as `{:02x}` writes them.
pub open spec fn lower_hex_byte_chars(b: u8) -> Seq<char> {
    seq![lower_digit_char((b / 16) as nat), lower_digit_char((b % 16) as nat)]
}

/// The lower-case hex pairs of the bytes of `data`, written one after the other.
pub open spec fn lower_hex_pairs(data: Seq<u8>) -> Seq<char>
    decreases data.len(),
{
    if data.len() == 0 {
        seq![]
    } else {
        lower_hex_byte_chars(data[0]) + lower_hex_pairs(data.drop_first())
    }
}

proof fn lemma_lower_pair(b: u8)
    ensures
        lower_hex_byte_chars(b).len() == 2,
        plain_digits(lower_hex_byte_chars(b), 16),
        parse_unsigned_spec(lower_hex_byte_chars(b), 16, chunk_max()) == Some(b as nat),
{
    let hi = (b / 16) as nat;
    let lo = (b % 16) as nat;
    lemma_hex_digit_either_case(hi, 16);
    lemma_hex_digit_either_case(lo, 16);
    let t = lower_hex_byte_chars(b);
    let one = seq![lower_digit_char(hi)];
    assert(t.drop_last() =~= one);
    assert(one.drop_last() =~= Seq::<char>::empty());
    assert(one.last() == lower_digit_char(hi));
    assert(digits_value(one, 16) == hi) by {
        reveal_with_fuel(digits_value, 2);
    }
    assert(digits_value(t, 16) == b);
    assert forall|i: int| 0 <= i < t.len() implies {
        &&& !is_separator(#[trigger] t[i])
        &&& t[i] != '+'
        &&& '\0' <= t[i] <= '\u{7f}'
        &&& digit_value(t[i], 16) is Some
    } by {}
    assert(unsigned_digits(t) == t);
    assert(all_digits(t, 16));
}

proof fn lemma_lower_pairs(data: Seq<u8>)
    ensures
        lower_hex_pairs(data).len() == 2 * data.len(),
        plain_digits(lower_hex_pairs(data), 16),
        decode_chunks(lower_hex_pairs(data), 2, 16, "无效的十六进制字符: "@) == Decoding::Bytes(data),
    decreases data.len(),
{
    if data.len() == 0 {
        assert(data =~= Seq::<u8>::empty());
    } else {
        let cs = lower_hex_pairs(data);
        let tok = lower_hex_byte_chars(data[0]);
        let rest = lower_hex_pairs(data.drop_first());
        lemma_lower_pair(data[0]);
        lemma_lower_pairs(data.drop_first());
        lemma_plain_concat(tok, rest, 16);
        lemma_chunk_ascii(cs, 2);
        assert(cs.take(2) =~= tok);
        assert(cs.skip(2) =~= rest);
        assert(seq![data[0]] + data.drop_first() =~= data);
    }
}

/// Hex text is read in either case: the lower-case hex pairs of any bytes, as `{:02x}`
/// writes them, read back as exactly those bytes.
pub proof fn lemma_lower_hex_round_trip(data: Seq<u8>)
    ensures
        hex_decoding(lower_hex_pairs(data)) == Decoding::Bytes(data),
{
    let cs = lower_hex_pairs(data);
    lemma_lower_pairs(data);
    lemma_strip_plain(cs, 16);
    assert(is_ascii_chars(cs)) by {
        assert forall|i: int| 0 <= i < cs.len() implies '\0' <= #[trigger] cs[i] <= '\u{7f}' by {
            assert('\0' <= cs[i] <= '\u{7f}');
        }
    }
    is_ascii_chars_encode_utf8(cs);
    assert((data.len() * 2) % 2 == 0) by (nonlinear_arith);
}

} // verus!
