use vstd::prelude::*;
use vstd::utf8::*;

verus! {

broadcast use vstd::string::group_string_axioms;

/// Numeric value of `c` read as a digit of `radix`, the way `char::to_digit` reads it:
/// `0-9`, then `a-z` or `A-Z` for 10 to 35, and only below `radix`.
pub open spec fn digit_value(c: char, radix: nat) -> Option<nat> {
    let u = c as u32;
    let v: Option<nat> = if 48 <= u <= 57 {
        Some((u - 48) as nat)
    } else if 97 <= u <= 122 {
        Some((u - 87) as nat)
    } else if 65 <= u <= 90 {
        Some((u - 55) as nat)
    } else {
        None
    };
    match v {
        Some(d) => if d < radix {
            Some(d)
        } else {
            None
        },
        None => None,
    }
}

/// Every character of `ds` is a digit of `radix`.
pub open spec fn all_digits(ds: Seq<char>, radix: nat) -> bool {
    forall|i: int| 0 <= i < ds.len() ==> (#[trigger] digit_value(ds[i], radix)) is Some
}

/// The number that the digits `ds` denote in `radix`, most significant first
/// (a character that is no digit counts as 0).
pub open spec fn digits_value(ds: Seq<char>, radix: nat) -> nat
    decreases ds.len(),
{
    if ds.len() == 0 {
        0
    } else {
        let d = match digit_value(ds.last(), radix) {
            Some(d) => d,
            None => 0,
        };
        digits_value(ds.drop_last(), radix) * radix + d
    }
}

/// The digits of an unsigned number's text: the text without one leading `+`.
pub open spec fn unsigned_digits(cs: Seq<char>) -> Seq<char> {
    if cs.len() > 0 && cs[0] == '+' {
        cs.drop_first()
    } else {
        cs
    }
}

/// What `from_str_radix` gives for an unsigned type whose largest value is `max`:
/// an optional `+`, then at least one digit of `radix`, and a value no larger than `max`.
pub open spec fn parse_unsigned_spec(cs: Seq<char>, radix: nat, max: nat) -> Option<nat> {
    let ds = unsigned_digits(cs);
    if ds.len() > 0 && all_digits(ds, radix) && digits_value(ds, radix) <= max {
        Some(digits_value(ds, radix))
    } else {
        None
    }
}

/// Adding digits never makes the value smaller.
pub proof fn lemma_digits_value_prefix(ds: Seq<char>, k: int, radix: nat)
    requires
        0 <= k <= ds.len(),
        radix >= 1,
    ensures
        digits_value(ds.take(k), radix) <= digits_value(ds, radix),
    decreases ds.len(),
{
    if k < ds.len() {
        let p = ds.drop_last();
        lemma_digits_value_prefix(p, k, radix);
        assert(p.take(k) =~= ds.take(k));
        let v = digits_value(p, radix);
        assert(v * radix >= v) by (nonlinear_arith)
            requires
                radix >= 1,
        ;
    } else {
        assert(ds.take(k) =~= ds);
    }
}

/// The digit of `c` in `radix`, as `char::to_digit` reads it.
pub fn digit_of(c: char, radix: u32) -> (r: Option<u32>)
    requires
        2 <= radix <= 36,
    ensures
        match r {
            Some(d) => digit_value(c, radix as nat) == Some(d as nat),
            None => digit_value(c, radix as nat) is None,
        },
{
    let u = c as u32;
    let v: u32 = if 48 <= u && u <= 57 {
        u - 48
    } else if 97 <= u && u <= 122 {
        u - 87
    } else if 65 <= u && u <= 90 {
        u - 55
    } else {
        return None;
    };
    if v < radix {
        Some(v)
    } else {
        None
    }
}

/// Reads `cs[start..end]` as an unsigned number in `radix` no larger than `max`,
/// exactly as `from_str_radix` reads the text of those characters.
pub fn parse_unsigned(cs: &Vec<char>, start: usize, end: usize, radix: u32, max: u64) -> (r:
    Option<u64>)
    requires
        start <= end <= cs@.len(),
        2 <= radix <= 36,
        max <= u32::MAX,
    ensures
        match r {
            Some(v) => parse_unsigned_spec(cs@.subrange(start as int, end as int), radix as nat, max as nat)
                == Some(v as nat),
            None => parse_unsigned_spec(
                cs@.subrange(start as int, end as int),
                radix as nat,
                max as nat,
            ) is None,
        },
{
    let ghost text = cs@.subrange(start as int, end as int);
    let mut i = start;
    if start < end && cs[start] == '+' {
        i = start + 1;
    }
    let ghost ds = unsigned_digits(text);
    assert(ds =~= cs@.subrange(i as int, end as int));
    if i == end {
        return None;
    }
    let first = i;
    let mut acc: u64 = 0;
    while i < end
        invariant
            first <= i <= end <= cs@.len(),
            ds =~= cs@.subrange(first as int, end as int),
            ds == unsigned_digits(cs@.subrange(start as int, end as int)),
            ds.len() > 0,
            2 <= radix <= 36,
            max <= u32::MAX,
            acc <= max,
            acc as nat == digits_value(ds.take(i - first), radix as nat),
            all_digits(ds.take(i - first), radix as nat),
        decreases end - i,
    {
        let k: Ghost<int> = Ghost(i - first);
        let c = cs[i];
        assert(c == ds[k@]);
        let d = match digit_of(c, radix) {
            Some(d) => d,
            None => {
                assert(!all_digits(ds, radix as nat)) by {
                    assert(digit_value(ds[k@], radix as nat) is None);
                }
                return None;
            },
        };
        assert(ds.take(k@ + 1).drop_last() =~= ds.take(k@));
        assert(ds.take(k@ + 1).last() == c);
        assert(acc * radix <= u32::MAX * 36) by (nonlinear_arith)
            requires
                acc <= u32::MAX,
                radix <= 36,
        ;
        let next: u64 = acc * (radix as u64) + (d as u64);
        assert(next as nat == digits_value(ds.take(k@ + 1), radix as nat));
        if next > max {
            proof {
                lemma_digits_value_prefix(ds, k@ + 1, radix as nat);
            }
            return None;
        }
        assert forall|j: int| 0 <= j < k@ + 1 implies (#[trigger] digit_value(
            ds.take(k@ + 1)[j],
            radix as nat,
        )) is Some by {
            if j < k@ {
                assert(ds.take(k@ + 1)[j] == ds.take(k@)[j]);
            }
        }
        acc = next;
        i = i + 1;
    }
    assert(ds.take(i - first) =~= ds);
    Some(acc)
}

/// Largest value the widest chunk (eight binary digits) can hold.
pub open spec fn chunk_max() -> nat {
    255
}

/// The decimal digits of `n`, most significant first, without sign or padding:
/// the text that `{}` prints for an unsigned integer.
pub open spec fn decimal_chars(n: nat) -> Seq<char>
    decreases n,
{
    if n < 10 {
        seq![digit_char(n)]
    } else {
        decimal_chars(n / 10).push(digit_char(n % 10))
    }
}

/// The upper-case digit character for a value below 16.
pub open spec fn digit_char(d: nat) -> char {
    if d == 0 {
        '0'
    } else if d == 1 {
        '1'
    } else if d == 2 {
        '2'
    } else if d == 3 {
        '3'
    } else if d == 4 {
        '4'
    } else if d == 5 {
        '5'
    } else if d == 6 {
        '6'
    } else if d == 7 {
        '7'
    } else if d == 8 {
        '8'
    } else if d == 9 {
        '9'
    } else if d == 10 {
        'A'
    } else if d == 11 {
        'B'
    } else if d == 12 {
        'C'
    } else if d == 13 {
        'D'
    } else if d == 14 {
        'E'
    } else {
        'F'
    }
}

/// The upper-case digit character for a value below 16.
pub fn digit_char_of(d: u8) -> (c: char)
    requires
        d < 16,
    ensures
        c == digit_char(d as nat),
{
    if d == 0 {
        '0'
    } else if d == 1 {
        '1'
    } else if d == 2 {
        '2'
    } else if d == 3 {
        '3'
    } else if d == 4 {
        '4'
    } else if d == 5 {
        '5'
    } else if d == 6 {
        '6'
    } else if d == 7 {
        '7'
    } else if d == 8 {
        '8'
    } else if d == 9 {
        '9'
    } else if d == 10 {
        'A'
    } else if d == 11 {
        'B'
    } else if d == 12 {
        'C'
    } else if d == 13 {
        'D'
    } else if d == 14 {
        'E'
    } else {
        'F'
    }
}

/// A digit character reads back as the value it was made from.
pub proof fn lemma_digit_char_value(d: nat, radix: nat)
    requires
        d < radix <= 36,
        d < 16,
    ensures
        digit_value(digit_char(d), radix) == Some(d),
        digit_char(d) != '+',
        digit_char(d) != ' ' && digit_char(d) != '\n' && digit_char(d) != '\r',
        '\0' <= digit_char(d) <= '\u{7f}',
{
}

/// The lower-case digit character for a value below 16, as `{:x}` writes it.
pub open spec fn lower_digit_char(d: nat) -> char {
    if d == 10 {
        'a'
    } else if d == 11 {
        'b'
    } else if d == 12 {
        'c'
    } else if d == 13 {
        'd'
    } else if d == 14 {
        'e'
    } else if d == 15 {
        'f'
    } else {
        digit_char(d)
    }
}

/// `c` with an ASCII capital letter turned into its small letter.
pub open spec fn ascii_lowercase(c: char) -> char {
    if 'A' <= c <= 'Z' {
        ((c as u32) + 32) as char
    } else {
        c
    }
}

/// Digits are read in either case: a capital letter and its small letter have the same
/// value in every radix (`a` and `A` are 10, `f` and `F` are 15, `z` and `Z` are 35).
pub proof fn lemma_digit_value_ignores_case(c: char, radix: nat)
    ensures
        digit_value(ascii_lowercase(c), radix) == digit_value(c, radix),
{
}

/// `c` with an ASCII small letter turned into its capital letter.
pub open spec fn ascii_uppercase(c: char) -> char {
    if 'a' <= c <= 'z' {
        ((c as u32) - 32) as char
    } else {
        c
    }
}

/// The thirty-six digits of radix 36 in order of value: `0` to `9`, then `a` to `z`.
pub open spec fn base36_digit_chars() -> Seq<char> {
    seq![
        '0', '1', '2', '3', '4', '5', '6', '7', '8', '9', 'a', 'b', 'c', 'd', 'e', 'f', 'g',
        'h', 'i', 'j', 'k', 'l', 'm', 'n', 'o', 'p', 'q', 'r', 's', 't', 'u', 'v', 'w', 'x',
        'y', 'z',
    ]
}

/// The digit of value `i` reads as `i` in every radix above `i`, and as no digit in a
/// smaller one; its capital letter reads the same.
pub proof fn lemma_base36_digit(i: int, radix: nat)
    requires
        0 <= i < 36,
    ensures
        digit_value(base36_digit_chars()[i], radix) == if i < radix {
            Some(i as nat)
        } else {
            None::<nat>
        },
        digit_value(base36_digit_chars()[i], radix) == digit_value(
            ascii_uppercase(base36_digit_chars()[i]),
            radix,
        ),
{
    let cs = base36_digit_chars();
    assert(cs[i] as u32 == if i < 10 { 48 + i } else { 87 + i });
}

/// A hex digit in either case reads back as the value it was written for.
pub proof fn lemma_hex_digit_either_case(d: nat, radix: nat)
    requires
        d < 16,
        d < radix <= 36,
    ensures
        digit_value(lower_digit_char(d), radix) == Some(d),
        digit_value(digit_char(d), radix) == Some(d),
        lower_digit_char(d) != '+',
        lower_digit_char(d) != ' ' && lower_digit_char(d) != '\n' && lower_digit_char(d) != '\r',
        '\0' <= lower_digit_char(d) <= '\u{7f}',
{
}

/// Appends the decimal digits of `n` to `out`.
fn push_decimal(n: u64, out: &mut Vec<char>)
    ensures
        final(out)@ == old(out)@ + decimal_chars(n as nat),
    decreases n,
{
    if n >= 10 {
        push_decimal(n / 10, out);
        let c = digit_char_of((n % 10) as u8);
        out.push(c);
        assert(final(out)@ =~= old(out)@ + decimal_chars(n as nat));
    } else {
        let c = digit_char_of(n as u8);
        out.push(c);
        assert(final(out)@ =~= old(out)@ + decimal_chars(n as nat));
    }
}

/// The decimal text of `n`, as `n.to_string()` writes it.
pub fn decimal_string(n: u64) -> (r: String)
    ensures
        r@ == decimal_chars(n as nat),
{
    let mut out: Vec<char> = Vec::new();
    push_decimal(n, &mut out);
    assert(out@ =~= decimal_chars(n as nat));
    string_from_chars(&out)
}

/// The string made of the characters `cs`, in order.
#[verifier::external_body]
pub(crate) fn string_from_chars(cs: &Vec<char>) -> (r: String)
    ensures
        r@ == cs@,
{
    String::from_iter(cs.iter())
}

/// The characters of a string slice, in order.
pub fn chars_of(s: &str) -> (r: Vec<char>)
    ensures
        r@ == s@,
{
    let mut out: Vec<char> = Vec::new();
    for c in it: s.chars()
        invariant
            out@ == it.seq().take(it.index()),
    {
        out.push(c);
    }
    out
}

/// What `s.parse::<u32>()` gives: an optional `+` and decimal digits, at most `u32::MAX`.
pub fn parse_u32(s: &str) -> (r: Option<u32>)
    ensures
        match r {
            Some(v) => parse_unsigned_spec(s@, 10, u32::MAX as nat) == Some(v as nat),
            None => parse_unsigned_spec(s@, 10, u32::MAX as nat) is None,
        },
{
    let cs = chars_of(s);
    assert(cs@.subrange(0, cs@.len() as int) =~= s@);
    match parse_unsigned(&cs, 0, cs.len(), 10, 0xFFFF_FFFF) {
        Some(v) => Some(v as u32),
        None => None,
    }
}

/// What `s.parse::<u8>()` gives: an optional `+` and decimal digits, at most 255.
pub fn parse_u8(s: &str) -> (r: Option<u8>)
    ensures
        match r {
            Some(v) => parse_unsigned_spec(s@, 10, u8::MAX as nat) == Some(v as nat),
            None => parse_unsigned_spec(s@, 10, u8::MAX as nat) is None,
        },
{
    let cs = chars_of(s);
    assert(cs@.subrange(0, cs@.len() as int) =~= s@);
    match parse_unsigned(&cs, 0, cs.len(), 10, 255) {
        Some(v) => Some(v as u8),
        None => None,
    }
}

/// Whether `a` and `b` are the same text.
pub fn same_text(a: &str, b: &str) -> (r: bool)
    ensures
        r == (a@ == b@),
{
    let x = String::from_str(a);
    let y = String::from_str(b);
    x == y
}

proof fn lemma_decimal_chars(n: nat)
    ensures
        decimal_chars(n).len() > 0,
        decimal_chars(n)[0] != '+',
        all_digits(decimal_chars(n), 10),
        digits_value(decimal_chars(n), 10) == n,
    decreases n,
{
    if n < 10 {
        lemma_digit_char_value(n, 10);
        let cs = decimal_chars(n);
        assert(cs.drop_last() =~= Seq::<char>::empty());
        assert(cs.last() == digit_char(n));
        assert(digits_value(cs, 10) == n) by {
            reveal_with_fuel(digits_value, 2);
        }
    } else {
        lemma_decimal_chars(n / 10);
        lemma_digit_char_value(n % 10, 10);
        let prev = decimal_chars(n / 10);
        let cs = decimal_chars(n);
        assert(cs.drop_last() =~= prev);
        assert(cs.last() == digit_char(n % 10));
        assert(cs[0] == prev[0]);
        assert forall|i: int| 0 <= i < cs.len() implies (#[trigger] digit_value(cs[i], 10)) is Some by {
            if i < prev.len() {
                assert(cs[i] == prev[i]);
            }
        }
    }
}

/// Reading back the decimal text of `n` gives `n`, for any `n` the target type holds.
pub proof fn lemma_decimal_round_trip(n: nat, max: nat)
    requires
        n <= max,
    ensures
        parse_unsigned_spec(decimal_chars(n), 10, max) == Some(n),
{
    lemma_decimal_chars(n);
}

/// A number's text may start with one `+`, never with `-`: `+` followed by the decimal
/// digits of `n` reads as `n`, a `-` in front is refused, and so is a lone `+`.
pub proof fn lemma_unsigned_sign(n: nat, max: nat)
    requires
        n <= max,
    ensures
        parse_unsigned_spec(seq!['+'] + decimal_chars(n), 10, max) == Some(n),
        parse_unsigned_spec(seq!['-'] + decimal_chars(n), 10, max) is None,
        parse_unsigned_spec(seq!['+'], 10, max) is None,
{
    lemma_decimal_chars(n);
    let plus = seq!['+'] + decimal_chars(n);
    let minus = seq!['-'] + decimal_chars(n);
    assert(plus.drop_first() =~= decimal_chars(n));
    assert(seq!['+'].drop_first() =~= Seq::<char>::empty());
    assert(minus[0] == '-');
    assert(digit_value(minus[0], 10) is None);
}

} // verus!
