use vstd::prelude::*;
use vstd::utf8::*;

use crate::text::{chars_of, chunk_max, parse_unsigned, parse_unsigned_spec, string_from_chars};

verus! {

broadcast use vstd::string::group_string_axioms;

/// Characters that are dropped from hex and binary input before it is read:
/// space, line feed and carriage return.
pub open spec fn is_separator(c: char) -> bool {
    c == ' ' || c == '\n' || c == '\r'
}

/// `cs` without its separators, the other characters kept in order.
pub open spec fn strip_separators(cs: Seq<char>) -> Seq<char>
    decreases cs.len(),
{
    if cs.len() == 0 {
        seq![]
    } else {
        let rest = strip_separators(cs.drop_last());
        if is_separator(cs.last()) {
            rest
        } else {
            rest.push(cs.last())
        }
    }
}

/// Number of bytes that `c` takes in UTF-8.
pub open spec fn utf8_width(c: char) -> nat {
    encode_scalar(c as u32).len()
}

/// The number of leading characters of `cs` that take exactly `n` bytes in UTF-8,
/// or `None` when no prefix does (byte `n` falls inside a character, or `cs` is too short).
pub open spec fn chunk_len(cs: Seq<char>, n: int) -> Option<nat>
    decreases cs.len(),
{
    if n <= 0 {
        Some(0)
    } else if cs.len() == 0 {
        None
    } else if utf8_width(cs[0]) > n {
        None
    } else {
        match chunk_len(cs.drop_first(), n - utf8_width(cs[0])) {
            Some(k) => Some(k + 1),
            None => None,
        }
    }
}

/// The outcome of reading text as fixed-width chunks of digits.
pub ghost enum Decoding {
    /// Every chunk was a number; these are the bytes, in order.
    Bytes(Seq<u8>),
    /// The input was refused, with this message.
    Rejected(Seq<char>),
    /// A chunk boundary falls inside a multi-byte character: slicing the text there panics.
    SplitsChar,
}

/// Reads `cs` from the front, `width` bytes at a time, each chunk a number in `radix`
/// no larger than 255; the first chunk that is no such number is refused with
/// `bad_prefix` followed by that chunk.
pub open spec fn decode_chunks(cs: Seq<char>, width: nat, radix: nat, bad_prefix: Seq<char>) -> Decoding
    decreases cs.len(),
{
    if cs.len() == 0 {
        Decoding::Bytes(seq![])
    } else {
        match chunk_len(cs, width as int) {
            Some(k) => if 0 < k <= cs.len() {
                let chunk = cs.take(k as int);
                match parse_unsigned_spec(chunk, radix, chunk_max()) {
                    Some(v) => match decode_chunks(cs.skip(k as int), width, radix, bad_prefix) {
                        Decoding::Bytes(rest) => Decoding::Bytes(seq![v as u8] + rest),
                        other => other,
                    },
                    None => Decoding::Rejected(bad_prefix + chunk),
                }
            } else {
                Decoding::SplitsChar
            },
            None => Decoding::SplitsChar,
        }
    }
}

/// Reading text `s` as bytes written in `radix`, `width` digits each: separators are
/// dropped, a remainder whose UTF-8 length is no multiple of `width` is refused with
/// `odd_msg`, and the rest is read chunk by chunk.
pub open spec fn text_decoding(
    s: Seq<char>,
    width: nat,
    radix: nat,
    odd_msg: Seq<char>,
    bad_prefix: Seq<char>,
) -> Decoding {
    let cs = strip_separators(s);
    if encode_utf8(cs).len() % width != 0 {
        Decoding::Rejected(odd_msg)
    } else {
        decode_chunks(cs, width, radix, bad_prefix)
    }
}

/// What reading hex text gives: two hex digits per byte.
pub open spec fn hex_decoding(s: Seq<char>) -> Decoding {
    text_decoding(s, 2, 16, "十六进制字符串长度必须是偶数"@, "无效的十六进制字符: "@)
}

/// What reading binary text gives: eight binary digits per byte.
pub open spec fn binary_decoding(s: Seq<char>) -> Decoding {
    text_decoding(s, 8, 2, "二进制字符串长度必须是8的倍数"@, "无效的二进制字符: "@)
}

/// Dropping separators distributes over concatenation.
pub proof fn lemma_strip_concat(a: Seq<char>, b: Seq<char>)
    ensures
        strip_separators(a + b) == strip_separators(a) + strip_separators(b),
    decreases b.len(),
{
    if b.len() == 0 {
        assert(a + b =~= a);
        assert(strip_separators(a) + strip_separators(b) =~= strip_separators(a));
    } else {
        assert((a + b).drop_last() =~= a + b.drop_last());
        assert((a + b).last() == b.last());
        lemma_strip_concat(a, b.drop_last());
        if is_separator(b.last()) {
        } else {
            assert(strip_separators(a + b) =~= strip_separators(a) + strip_separators(b));
        }
    }
}

/// Inserting one separator anywhere leaves the text without separators unchanged.
pub proof fn lemma_strip_insert_separator(a: Seq<char>, b: Seq<char>, c: char)
    requires
        is_separator(c),
    ensures
        strip_separators(a + seq![c] + b) == strip_separators(a + b),
{
    lemma_strip_concat(a + seq![c], b);
    lemma_strip_concat(a, seq![c]);
    lemma_strip_concat(a, b);
    assert(seq![c].drop_last() =~= Seq::<char>::empty());
    assert(seq![c].last() == c);
    assert(strip_separators(seq![c]) =~= Seq::<char>::empty()) by {
        reveal_with_fuel(strip_separators, 2);
    }
    assert(strip_separators(a) + Seq::<char>::empty() =~= strip_separators(a));
}

/// Texts that agree once their separators are dropped read the same.
pub proof fn lemma_same_digits_same_reading(s1: Seq<char>, s2: Seq<char>)
    requires
        strip_separators(s1) == strip_separators(s2),
    ensures
        hex_decoding(s1) == hex_decoding(s2),
        binary_decoding(s1) == binary_decoding(s2),
{
}

/// Inserting a space, line feed or carriage return anywhere in hex or binary text, even
/// between the digits of one byte, does not change what it reads as.
pub proof fn lemma_separators_ignored(a: Seq<char>, b: Seq<char>, c: char)
    requires
        c == ' ' || c == '\n' || c == '\r',
    ensures
        hex_decoding(a + seq![c] + b) == hex_decoding(a + b),
        binary_decoding(a + seq![c] + b) == binary_decoding(a + b),
{
    lemma_strip_insert_separator(a, b, c);
    lemma_same_digits_same_reading(a + seq![c] + b, a + b);
}

/// `prefix` put in front of the bytes of a decoding; other outcomes pass unchanged.
pub open spec fn prepend_bytes(prefix: Seq<u8>, d: Decoding) -> Decoding {
    match d {
        Decoding::Bytes(rest) => Decoding::Bytes(prefix + rest),
        other => other,
    }
}

pub proof fn lemma_encode_utf8_push(cs: Seq<char>, c: char)
    ensures
        encode_utf8(cs.push(c)) == encode_utf8(cs) + encode_scalar(c as u32),
    decreases cs.len(),
{
    let p = cs.push(c);
    assert(p.len() > 0);
    assert(p[0] == if cs.len() == 0 { c } else { cs[0] });
    assert(encode_utf8(p) == encode_scalar(p[0] as u32) + encode_utf8(p.drop_first()));
    if cs.len() == 0 {
        assert(p.drop_first() =~= Seq::<char>::empty());
        assert(encode_utf8(Seq::<char>::empty()) =~= Seq::<u8>::empty());
        assert(encode_utf8(p) =~= encode_utf8(cs) + encode_scalar(c as u32));
    } else {
        assert(p.drop_first() =~= cs.drop_first().push(c));
        lemma_encode_utf8_push(cs.drop_first(), c);
        assert(encode_utf8(cs) == encode_scalar(cs[0] as u32) + encode_utf8(cs.drop_first()));
        assert(encode_utf8(p) =~= encode_utf8(cs) + encode_scalar(c as u32));
    }
}

/// The number of bytes that `c` takes in UTF-8.
pub fn utf8_width_of(c: char) -> (w: usize)
    ensures
        w == utf8_width(c),
        1 <= w <= 4,
{
    proof {
        char_is_scalar(c);
    }
    let u = c as u32;
    if u <= 0x7F {
        1
    } else if u <= 0x7FF {
        2
    } else if u <= 0xFFFF {
        3
    } else {
        4
    }
}

/// `s` without its separators.
fn strip_separators_of(s: &str) -> (r: Vec<char>)
    ensures
        r@ == strip_separators(s@),
{
    let all = chars_of(s);
    let mut out: Vec<char> = Vec::new();
    let mut i: usize = 0;
    while i < all.len()
        invariant
            i <= all@.len(),
            out@ == strip_separators(all@.take(i as int)),
        decreases all.len() - i,
    {
        let c = all[i];
        assert(all@.take(i + 1).drop_last() =~= all@.take(i as int));
        assert(all@.take(i + 1).last() == c);
        if !(c == ' ' || c == '\n' || c == '\r') {
            out.push(c);
        }
        i = i + 1;
    }
    assert(all@.take(i as int) =~= all@);
    out
}

/// Length in UTF-8 bytes of `cs`, modulo `width`.
fn utf8_len_mod(cs: &Vec<char>, width: usize) -> (r: usize)
    requires
        0 < width <= 8,
    ensures
        r == encode_utf8(cs@).len() % (width as nat),
{
    let mut rem: usize = 0;
    let mut i: usize = 0;
    assert(cs@.take(0) =~= Seq::<char>::empty());
    assert(encode_utf8(Seq::<char>::empty()).len() == 0);
    while i < cs.len()
        invariant
            i <= cs@.len(),
            0 < width <= 8,
            rem < width,
            rem == encode_utf8(cs@.take(i as int)).len() % (width as nat),
        decreases cs.len() - i,
    {
        let w = utf8_width_of(cs[i]);
        proof {
            assert(cs@.take(i + 1) =~= cs@.take(i as int).push(cs@[i as int]));
            lemma_encode_utf8_push(cs@.take(i as int), cs@[i as int]);
            let a = encode_utf8(cs@.take(i as int)).len() as int;
            vstd::arithmetic::div_mod::lemma_add_mod_noop_right(w as int, a, width as int);
        }
        rem = (rem + w) % width;
        i = i + 1;
    }
    assert(cs@.take(i as int) =~= cs@);
    rem
}

/// Counts the characters of `cs[start..]` that make up the next `width` bytes, or
/// `None` when byte `width` of that rest falls inside a character or past its end.
fn next_chunk_len(cs: &Vec<char>, start: usize, width: usize) -> (k: Option<usize>)
    requires
        start <= cs@.len(),
        0 < width <= 8,
    ensures
        match k {
            Some(k) => chunk_len(cs@.skip(start as int), width as int) == Some(k as nat) && start
                + k <= cs@.len(),
            None => chunk_len(cs@.skip(start as int), width as int) is None,
        },
{
    let ghost rest = cs@.skip(start as int);
    let n = cs.len();
    let mut j: usize = 0;
    let mut left: usize = width;
    assert(rest.skip(0) =~= rest);
    while left > 0
        invariant
            n == cs@.len(),
            start + j <= cs@.len(),
            left <= width <= 8,
            rest == cs@.skip(start as int),
            chunk_len(rest, width as int) == match chunk_len(rest.skip(j as int), left as int) {
                Some(k) => Some((k + j) as nat),
                None => None::<nat>,
            },
        decreases left,
    {
        let ghost here = rest.skip(j as int);
        assert(here.len() == cs@.len() - start - j);
        if start + j == n {
            return None;
        }
        let w = utf8_width_of(cs[start + j]);
        assert(here[0] == cs@[start + j]);
        assert(here.drop_first() =~= rest.skip(j + 1));
        if w > left {
            return None;
        }
        left = left - w;
        j = j + 1;
    }
    Some(j)
}

proof fn lemma_decode_step(cs: Seq<char>, width: nat, radix: nat, bad_prefix: Seq<char>, k: nat)
    requires
        cs.len() > 0,
        chunk_len(cs, width as int) == Some(k),
        0 < k <= cs.len(),
    ensures
        parse_unsigned_spec(cs.take(k as int), radix, chunk_max()) matches Some(v) ==> decode_chunks(
            cs,
            width,
            radix,
            bad_prefix,
        ) == prepend_bytes(seq![v as u8], decode_chunks(cs.skip(k as int), width, radix, bad_prefix)),
        parse_unsigned_spec(cs.take(k as int), radix, chunk_max()) is None ==> decode_chunks(
            cs,
            width,
            radix,
            bad_prefix,
        ) == Decoding::Rejected(bad_prefix + cs.take(k as int)),
{
}

proof fn lemma_prepend_twice(a: Seq<u8>, b: Seq<u8>, d: Decoding)
    ensures
        prepend_bytes(a, prepend_bytes(b, d)) == prepend_bytes(a + b, d),
{
    match d {
        Decoding::Bytes(t) => {
            assert(a + (b + t) =~= (a + b) + t);
        },
        _ => {},
    }
}

proof fn lemma_chunk_len_positive(cs: Seq<char>, n: int)
    requires
        n > 0,
        chunk_len(cs, n) is Some,
    ensures
        chunk_len(cs, n)->0 > 0,
        chunk_len(cs, n)->0 <= cs.len(),
    decreases cs.len(),
{
    let w = utf8_width(cs[0]);
    if n - w > 0 {
        lemma_chunk_len_positive(cs.drop_first(), n - w);
    } else {
        assert(chunk_len(cs.drop_first(), n - w) == Some(0nat));
    }
}

/// What reading radix text gave, in executable form.
#[derive(Debug)]
pub enum RadixDecode {
    /// The bytes read.
    Bytes(Vec<u8>),
    /// The message the input was refused with.
    Rejected(String),
    /// A chunk boundary falls inside a character.
    SplitsChar,
}

/// `r` is the executable form of `d`.
pub open spec fn decode_matches(r: RadixDecode, d: Decoding) -> bool {
    match r {
        RadixDecode::Bytes(b) => d == Decoding::Bytes(b@),
        RadixDecode::Rejected(e) => d == Decoding::Rejected(e@),
        RadixDecode::SplitsChar => d is SplitsChar,
    }
}

/// Reads text as bytes, `width` digits of `radix` each, as `hex_to_bytes` and
/// `binary_to_bytes` do, and tells where they would slice through a character.
fn decode_radix_text(
    s: &str,
    width: usize,
    radix: u32,
    odd_msg: &str,
    bad_prefix: &str,
) -> (r: RadixDecode)
    requires
        (width == 2 && radix == 16) || (width == 8 && radix == 2),
    ensures
        decode_matches(r, text_decoding(s@, width as nat, radix as nat, odd_msg@, bad_prefix@)),
{
    let cs = strip_separators_of(s);
    assert(cs@ == strip_separators(s@));
    let m = utf8_len_mod(&cs, width);
    if m != 0 {
        return RadixDecode::Rejected(String::from_str(odd_msg));
    }
    assert(text_decoding(s@, width as nat, radix as nat, odd_msg@, bad_prefix@) == decode_chunks(
        cs@,
        width as nat,
        radix as nat,
        bad_prefix@,
    ));
    let ghost whole = decode_chunks(cs@, width as nat, radix as nat, bad_prefix@);
    let mut out: Vec<u8> = Vec::new();
    let mut pos: usize = 0;
    assert(cs@.skip(0) =~= cs@);
    while pos < cs.len()
        invariant
            pos <= cs@.len(),
            (width == 2 && radix == 16) || (width == 8 && radix == 2),
            whole == decode_chunks(cs@, width as nat, radix as nat, bad_prefix@),
            whole == text_decoding(s@, width as nat, radix as nat, odd_msg@, bad_prefix@),
            whole == prepend_bytes(
                out@,
                decode_chunks(cs@.skip(pos as int), width as nat, radix as nat, bad_prefix@),
            ),
        decreases cs.len() - pos,
    {
        let ghost rest = cs@.skip(pos as int);
        let k = match next_chunk_len(&cs, pos, width) {
            Some(k) => k,
            None => {
                assert(decode_chunks(rest, width as nat, radix as nat, bad_prefix@) is SplitsChar);
                return RadixDecode::SplitsChar;
            },
        };
        let end = pos + k;
        proof {
            lemma_chunk_len_positive(rest, width as int);
            lemma_decode_step(rest, width as nat, radix as nat, bad_prefix@, k as nat);
            assert(rest.take(k as int) =~= cs@.subrange(pos as int, end as int));
            assert(rest.skip(k as int) =~= cs@.skip(end as int));
        }
        match parse_unsigned(&cs, pos, end, radix, 255) {
            Some(v) => {
                proof {
                    lemma_prepend_twice(
                        out@,
                        seq![v as u8],
                        decode_chunks(cs@.skip(end as int), width as nat, radix as nat, bad_prefix@),
                    );
                }
                let ghost old_out = out@;
                out.push(v as u8);
                assert(old_out + seq![v as u8] =~= out@);
                pos = end;
            },
            None => {
                let mut piece: Vec<char> = Vec::new();
                let mut i = pos;
                while i < end
                    invariant
                        pos <= i <= end <= cs@.len(),
                        piece@ =~= cs@.subrange(pos as int, i as int),
                    decreases end - i,
                {
                    piece.push(cs[i]);
                    i = i + 1;
                }
                let mut msg = String::from_str(bad_prefix);
                let piece_text = string_from_chars(&piece);
                msg.append(piece_text.as_str());
                assert(msg@ =~= bad_prefix@ + rest.take(k as int));
                return RadixDecode::Rejected(msg);
            },
        }
    }
    assert(cs@.skip(pos as int) =~= Seq::<char>::empty());
    assert(out@ + Seq::<u8>::empty() =~= out@);
    RadixDecode::Bytes(out)
}

/// Hex text to bytes, or `None` where reading it would slice through a character
/// (the input on which `hex_to_bytes` panics).
pub fn try_hex_to_bytes(hex_str: &str) -> (r: Option<Result<Vec<u8>, String>>)
    ensures
        match r {
            None => hex_decoding(hex_str@) is SplitsChar,
            Some(Ok(b)) => hex_decoding(hex_str@) == Decoding::Bytes(b@),
            Some(Err(e)) => hex_decoding(hex_str@) == Decoding::Rejected(e@),
        },
{
    match decode_radix_text(hex_str, 2, 16, "十六进制字符串长度必须是偶数", "无效的十六进制字符: ") {
        RadixDecode::Bytes(b) => Some(Ok(b)),
        RadixDecode::Rejected(e) => Some(Err(e)),
        RadixDecode::SplitsChar => None,
    }
}

/// Binary text to bytes, or `None` where reading it would slice through a character
/// (the input on which `binary_to_bytes` panics).
pub fn try_binary_to_bytes(binary_str: &str) -> (r: Option<Result<Vec<u8>, String>>)
    ensures
        match r {
            None => binary_decoding(binary_str@) is SplitsChar,
            Some(Ok(b)) => binary_decoding(binary_str@) == Decoding::Bytes(b@),
            Some(Err(e)) => binary_decoding(binary_str@) == Decoding::Rejected(e@),
        },
{
    match decode_radix_text(binary_str, 8, 2, "二进制字符串长度必须是8的倍数", "无效的二进制字符: ") {
        RadixDecode::Bytes(b) => Some(Ok(b)),
        RadixDecode::Rejected(e) => Some(Err(e)),
        RadixDecode::SplitsChar => None,
    }
}

/// Hex text to bytes: spaces, line feeds and carriage returns are dropped, then each
/// pair of hex digits (either case, optionally `+` and one digit) is one byte.
pub fn hex_to_bytes(hex_str: &str) -> (r: Result<Vec<u8>, String>)
    requires
        !(hex_decoding(hex_str@) is SplitsChar),
    ensures
        match r {
            Ok(b) => hex_decoding(hex_str@) == Decoding::Bytes(b@),
            Err(e) => hex_decoding(hex_str@) == Decoding::Rejected(e@),
        },
{
    match try_hex_to_bytes(hex_str) {
        Some(r) => r,
        None => {
            assert(false);
            Err(String::new())
        },
    }
}

/// Binary text to bytes: spaces, line feeds and carriage returns are dropped, then each
/// run of eight binary digits (or `+` and seven) is one byte.
pub fn binary_to_bytes(binary_str: &str) -> (r: Result<Vec<u8>, String>)
    requires
        !(binary_decoding(binary_str@) is SplitsChar),
    ensures
        match r {
            Ok(b) => binary_decoding(binary_str@) == Decoding::Bytes(b@),
            Err(e) => binary_decoding(binary_str@) == Decoding::Rejected(e@),
        },
{
    match try_binary_to_bytes(binary_str) {
        Some(r) => r,
        None => {
            assert(false);
            Err(String::new())
        },
    }
}

} // verus!
