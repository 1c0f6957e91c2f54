//! Request identifiers on the wire: the canonical lowercase hyphenated hex
//! text form of a 128-bit identifier, with a verified formatter and a strict
//! parser that accepts exactly the canonical form.
use vstd::prelude::*;

verus! {

use crate::text::push_char;
use vstd::string::StrSliceExecFns;

/// The lowercase hex digit character for a value below 16.
pub open spec fn hex_digit(n: int) -> char {
    if n == 0 {
        '0'
    } else if n == 1 {
        '1'
    } else if n == 2 {
        '2'
    } else if n == 3 {
        '3'
    } else if n == 4 {
        '4'
    } else if n == 5 {
        '5'
    } else if n == 6 {
        '6'
    } else if n == 7 {
        '7'
    } else if n == 8 {
        '8'
    } else if n == 9 {
        '9'
    } else if n == 10 {
        'a'
    } else if n == 11 {
        'b'
    } else if n == 12 {
        'c'
    } else if n == 13 {
        'd'
    } else if n == 14 {
        'e'
    } else {
        'f'
    }
}

/// The value of a lowercase hex digit character; 16 for any other character.
pub open spec fn hex_val(c: char) -> int {
    if c == '0' {
        0
    } else if c == '1' {
        1
    } else if c == '2' {
        2
    } else if c == '3' {
        3
    } else if c == '4' {
        4
    } else if c == '5' {
        5
    } else if c == '6' {
        6
    } else if c == '7' {
        7
    } else if c == '8' {
        8
    } else if c == '9' {
        9
    } else if c == 'a' {
        10
    } else if c == 'b' {
        11
    } else if c == 'c' {
        12
    } else if c == 'd' {
        13
    } else if c == 'e' {
        14
    } else if c == 'f' {
        15
    } else {
        16
    }
}

pub open spec fn is_lower_hex(c: char) -> bool {
    hex_val(c) < 16
}

/// The last `k` lowercase hex digits of `n`, most significant first.
pub open spec fn hex_digits(n: nat, k: nat) -> Seq<char>
    decreases k,
{
    if k == 0 {
        Seq::empty()
    } else {
        hex_digits(n / 16, (k - 1) as nat) + seq![hex_digit((n % 16) as int)]
    }
}

/// The value of a sequence of hex digit characters, most significant first.
pub open spec fn hex_value(d: Seq<char>) -> nat
    decreases d.len(),
{
    if d.len() == 0 {
        0nat
    } else {
        hex_value(d.drop_last()) * 16 + hex_val(d.last()) as nat
    }
}

pub open spec fn pow16(k: nat) -> nat
    decreases k,
{
    if k == 0 {
        1nat
    } else {
        16 * pow16((k - 1) as nat)
    }
}

/// The canonical text form of an identifier: 32 lowercase hex digits in five
/// hyphen-separated groups of 8, 4, 4, 4 and 12.
pub open spec fn uuid_str_spec(id: u128) -> Seq<char> {
    let d = hex_digits(id as nat, 32);
    d.subrange(0, 8) + seq!['-'] + d.subrange(8, 12) + seq!['-'] + d.subrange(12, 16)
        + seq!['-'] + d.subrange(16, 20) + seq!['-'] + d.subrange(20, 32)
}

/// How many hyphens of the canonical form lie before position `i`.
pub open spec fn hyphens_before(i: int) -> int {
    if i <= 8 {
        0
    } else if i <= 13 {
        1
    } else if i <= 18 {
        2
    } else if i <= 23 {
        3
    } else {
        4
    }
}

pub open spec fn is_hyphen_pos(i: int) -> bool {
    i == 8 || i == 13 || i == 18 || i == 23
}

proof fn lemma_hex_digits_props(n: nat, k: nat)
    ensures
        hex_digits(n, k).len() == k,
        forall|i: int| 0 <= i < k ==> is_lower_hex(#[trigger] hex_digits(n, k)[i]),
    decreases k,
{
    if k > 0 {
        lemma_hex_digits_props(n / 16, (k - 1) as nat);
    }
}

proof fn lemma_pow16_monotone(k1: nat, k2: nat)
    requires
        k1 <= k2,
    ensures
        pow16(k1) <= pow16(k2),
    decreases k2,
{
    if k1 < k2 && k2 > 0 {
        lemma_pow16_monotone(k1, (k2 - 1) as nat);
        assert(pow16((k2 - 1) as nat) <= 16 * pow16((k2 - 1) as nat)) by (nonlinear_arith);
    }
}

proof fn lemma_pow16_32()
    ensures
        pow16(32) == 0x100000000000000000000000000000000,
{
    reveal_with_fuel(pow16, 33);
}

proof fn lemma_hex_value_bound(d: Seq<char>)
    requires
        forall|i: int| 0 <= i < d.len() ==> is_lower_hex(#[trigger] d[i]),
    ensures
        hex_value(d) < pow16(d.len() as nat),
    decreases d.len(),
{
    if d.len() > 0 {
        lemma_hex_value_bound(d.drop_last());
        assert(is_lower_hex(d.last()));
        assert(hex_value(d.drop_last()) < pow16((d.len() - 1) as nat));
        assert(hex_value(d.drop_last()) * 16 + hex_val(d.last()) < 16 * pow16(
            (d.len() - 1) as nat,
        )) by (nonlinear_arith)
            requires
                hex_value(d.drop_last()) < pow16((d.len() - 1) as nat),
                hex_val(d.last()) < 16,
        ;
    }
}

/// Formatting the value of a sequence of lowercase hex digits gives back
/// exactly that sequence.
proof fn lemma_hex_digits_of_value(d: Seq<char>)
    requires
        forall|i: int| 0 <= i < d.len() ==> is_lower_hex(#[trigger] d[i]),
    ensures
        hex_digits(hex_value(d), d.len() as nat) == d,
    decreases d.len(),
{
    if d.len() > 0 {
        let front = d.drop_last();
        assert(forall|i: int| 0 <= i < front.len() ==> is_lower_hex(#[trigger] front[i]));
        lemma_hex_digits_of_value(front);
        let v = hex_value(d);
        let vf = hex_value(front);
        let last_val = hex_val(d.last());
        assert(v == vf * 16 + last_val);
        assert(v % 16 == last_val && v / 16 == vf) by (nonlinear_arith)
            requires
                v == vf * 16 + last_val,
                0 <= last_val < 16,
        ;
        assert(is_lower_hex(d.last()));
        assert(hex_digit(hex_val(d.last())) == d.last());
        assert(hex_digits(v, d.len() as nat) =~= d);
    }
}

/// The shape of the canonical form: 36 characters, hyphens exactly at
/// positions 8, 13, 18 and 23, lowercase hex digits everywhere else, and the
/// digit at any other position `p` is digit number `p - hyphens_before(p)`.
proof fn lemma_uuid_str_shape(id: u128)
    ensures
        uuid_str_spec(id).len() == 36,
        forall|p: int|
            0 <= p < 36 && is_hyphen_pos(p) ==> #[trigger] uuid_str_spec(id)[p] == '-',
        forall|p: int|
            0 <= p < 36 && !is_hyphen_pos(p) ==> #[trigger] uuid_str_spec(id)[p] == hex_digits(
                id as nat,
                32,
            )[p - hyphens_before(p)],
        forall|p: int|
            0 <= p < 36 && !is_hyphen_pos(p) ==> is_lower_hex(#[trigger] uuid_str_spec(id)[p]),
{
    let d = hex_digits(id as nat, 32);
    lemma_hex_digits_props(id as nat, 32);
    let s = uuid_str_spec(id);
    assert(s.len() == 36);
    assert forall|p: int| 0 <= p < 36 && !is_hyphen_pos(p) implies #[trigger] s[p] == d[p
        - hyphens_before(p)] by {
        if p < 8 {
            assert(s[p] == d.subrange(0, 8)[p]);
        } else if p < 13 {
            assert(s[p] == d.subrange(8, 12)[p - 9]);
        } else if p < 18 {
            assert(s[p] == d.subrange(12, 16)[p - 14]);
        } else if p < 23 {
            assert(s[p] == d.subrange(16, 20)[p - 19]);
        } else {
            assert(s[p] == d.subrange(20, 32)[p - 24]);
        }
    }
}

/// The lowercase hex digit character for a value below 16.
pub fn hex_digit_char(n: u8) -> (c: char)
    requires
        n < 16,
    ensures
        c == hex_digit(n as int),
{
    match n {
        0 => '0',
        1 => '1',
        2 => '2',
        3 => '3',
        4 => '4',
        5 => '5',
        6 => '6',
        7 => '7',
        8 => '8',
        9 => '9',
        10 => 'a',
        11 => 'b',
        12 => 'c',
        13 => 'd',
        14 => 'e',
        _ => 'f',
    }
}

/// The value of a lowercase hex digit character; 16 for any other character.
pub fn hex_val_of(c: char) -> (n: u8)
    ensures
        n as int == hex_val(c),
{
    match c {
        '0' => 0,
        '1' => 1,
        '2' => 2,
        '3' => 3,
        '4' => 4,
        '5' => 5,
        '6' => 6,
        '7' => 7,
        '8' => 8,
        '9' => 9,
        'a' => 10,
        'b' => 11,
        'c' => 12,
        'd' => 13,
        'e' => 14,
        'f' => 15,
        _ => 16,
    }
}

/// Appends `d[from..to]` to a string.
fn push_range(out: &mut String, d: &Vec<char>, from: usize, to: usize)
    requires
        from <= to <= d@.len(),
    ensures
        final(out)@ == old(out)@ + d@.subrange(from as int, to as int),
{
    let mut i: usize = from;
    while i < to
        invariant
            from <= i <= to <= d@.len(),
            out@ == old(out)@ + d@.subrange(from as int, i as int),
        decreases to - i,
    {
        push_char(out, d[i]);
        proof {
            assert(d@.subrange(from as int, i as int + 1) =~= d@.subrange(from as int, i as int)
                + seq![d@[i as int]]);
        }
        i = i + 1;
    }
    proof {
        assert(out@ =~= old(out)@ + d@.subrange(from as int, to as int));
    }
}

/// Formats an identifier in its canonical text form.
pub fn uuid_to_string(id: u128) -> (r: String)
    ensures
        r@ == uuid_str_spec(id),
{
    // Least significant digit first, with the big-endian digit string as the
    // ghost `suffix`.
    let mut tmp: Vec<char> = Vec::new();
    let ghost mut suffix: Seq<char> = Seq::empty();
    let mut m = id;
    let mut i: usize = 0;
    proof {
        assert(hex_digits(id as nat, 32) =~= hex_digits(m as nat, 32) + suffix);
    }
    while i < 32
        invariant
            0 <= i <= 32,
            suffix.len() == i as int,
            tmp@.len() == i as int,
            hex_digits(id as nat, 32) == hex_digits(m as nat, (32 - i) as nat) + suffix,
            forall|j: int| 0 <= j < i ==> tmp@[j] == suffix[i - 1 - j],
        decreases 32 - i,
    {
        let digit = (m % 16) as u8;
        let c = hex_digit_char(digit);
        proof {
            assert(hex_digits(m as nat, (32 - i) as nat) == hex_digits(
                (m as nat) / 16,
                (32 - i - 1) as nat,
            ) + seq![hex_digit(((m as nat) % 16) as int)]);
            assert(hex_digits(m as nat, (32 - i) as nat) + suffix =~= hex_digits(
                (m as nat) / 16,
                (32 - i - 1) as nat,
            ) + (seq![c] + suffix));
        }
        tmp.push(c);
        proof {
            suffix = seq![c] + suffix;
        }
        m = m / 16;
        i = i + 1;
    }
    proof {
        assert(hex_digits(m as nat, 0) =~= Seq::empty());
        assert(hex_digits(id as nat, 32) =~= suffix);
    }
    // Reverse into the big-endian digit vector.
    let mut d: Vec<char> = Vec::new();
    let mut j: usize = 0;
    while j < 32
        invariant
            0 <= j <= 32,
            tmp@.len() == 32,
            suffix.len() == 32,
            d@.len() == j as int,
            forall|x: int| 0 <= x < 32 ==> tmp@[x] == suffix[31 - x],
            forall|x: int| 0 <= x < j ==> d@[x] == suffix[x],
        decreases 32 - j,
    {
        d.push(tmp[31 - j]);
        j = j + 1;
    }
    proof {
        assert(d@ =~= hex_digits(id as nat, 32));
    }
    let mut out = String::new();
    push_range(&mut out, &d, 0, 8);
    push_char(&mut out, '-');
    push_range(&mut out, &d, 8, 12);
    push_char(&mut out, '-');
    push_range(&mut out, &d, 12, 16);
    push_char(&mut out, '-');
    push_range(&mut out, &d, 16, 20);
    push_char(&mut out, '-');
    push_range(&mut out, &d, 20, 32);
    proof {
        assert(out@ =~= uuid_str_spec(id));
    }
    out
}

/// Parses the canonical text form of an identifier, and nothing else:
/// `Some(v)` exactly when the input is the canonical form of `v`.
pub fn uuid_from_str(s: &str) -> (r: Option<u128>)
    ensures
        match r {
            Some(v) => s@ == uuid_str_spec(v),
            None => forall|v: u128| s@ != uuid_str_spec(v),
        },
{
    if s.unicode_len() != 36 {
        proof {
            assert forall|v: u128| s@ != uuid_str_spec(v) by {
                lemma_uuid_str_shape(v);
            }
        }
        return None;
    }
    let mut v: u128 = 0;
    let ghost mut digits: Seq<char> = Seq::empty();
    let mut p: usize = 0;
    while p < 36
        invariant
            0 <= p <= 36,
            s@.len() == 36,
            digits.len() == p - hyphens_before(p as int),
            v as nat == hex_value(digits),
            forall|q: int| 0 <= q < digits.len() ==> is_lower_hex(#[trigger] digits[q]),
            forall|q: int|
                0 <= q < p && is_hyphen_pos(q) ==> s@[q] == '-',
            forall|q: int|
                0 <= q < p && !is_hyphen_pos(q) ==> s@[q] == digits[q - hyphens_before(q)],
        decreases 36 - p,
    {
        let c = s.get_char(p);
        if p == 8 || p == 13 || p == 18 || p == 23 {
            if c != '-' {
                proof {
                    assert forall|w: u128| s@ != uuid_str_spec(w) by {
                        lemma_uuid_str_shape(w);
                        assert(uuid_str_spec(w)[p as int] == '-');
                    }
                }
                return None;
            }
        } else {
            let dv = hex_val_of(c);
            if dv >= 16 {
                proof {
                    assert forall|w: u128| s@ != uuid_str_spec(w) by {
                        lemma_uuid_str_shape(w);
                        assert(is_lower_hex(uuid_str_spec(w)[p as int]));
                    }
                }
                return None;
            }
            proof {
                lemma_hex_value_bound(digits);
                lemma_pow16_monotone(digits.len() as nat, 31);
                lemma_pow16_32();
                assert(pow16(31) * 16 == pow16(32)) by {
                    assert(16 * pow16(31) == pow16(32));
                }
                assert((v as nat) * 16 + (dv as nat) < pow16(32)) by (nonlinear_arith)
                    requires
                        (v as nat) < pow16(31),
                        dv < 16,
                        pow16(31) * 16 == pow16(32),
                ;
            }
            v = v * 16 + (dv as u128);
            proof {
                let newdigits = digits.push(c);
                assert(newdigits.drop_last() =~= digits);
                assert(hex_value(newdigits) == hex_value(digits) * 16 + hex_val(c));
                digits = newdigits;
            }
        }
        p = p + 1;
    }
    proof {
        assert(digits.len() == 32);
        lemma_hex_digits_of_value(digits);
        lemma_hex_value_bound(digits);
        lemma_pow16_32();
        assert(hex_digits(v as nat, 32) == digits);
        lemma_uuid_str_shape(v);
        assert forall|q: int| 0 <= q < 36 implies s@[q] == uuid_str_spec(v)[q] by {
            if !is_hyphen_pos(q) {
                assert(s@[q] == digits[q - hyphens_before(q)]);
            }
        }
        assert(s@ =~= uuid_str_spec(v));
    }
    Some(v)
}

/// Law: the canonical text form round-trips — parsing the formatted form of
/// any identifier yields that identifier. (Follows from the two exact
/// contracts above; stated over the spec form they share.)
pub proof fn lemma_uuid_text_injective(a: u128, b: u128)
    requires
        uuid_str_spec(a) == uuid_str_spec(b),
    ensures
        a == b,
{
    let da = hex_digits(a as nat, 32);
    let db = hex_digits(b as nat, 32);
    lemma_uuid_str_shape(a);
    lemma_uuid_str_shape(b);
    lemma_hex_digits_props(a as nat, 32);
    lemma_hex_digits_props(b as nat, 32);
    assert forall|i: int| 0 <= i < 32 implies da[i] == db[i] by {
        let p: int = if i < 8 {
            i
        } else if i < 12 {
            i + 1
        } else if i < 16 {
            i + 2
        } else if i < 20 {
            i + 3
        } else {
            i + 4
        };
        assert(!is_hyphen_pos(p));
        assert(uuid_str_spec(a)[p] == da[p - hyphens_before(p)]);
        assert(uuid_str_spec(b)[p] == db[p - hyphens_before(p)]);
        assert(p - hyphens_before(p) == i);
    }
    assert(da =~= db);
    lemma_hex_digits_of_value(da);
    lemma_hex_digits_of_value(db);
    lemma_pow16_32();
    lemma_value_of_hex_digits(a as nat, 32);
    lemma_value_of_hex_digits(b as nat, 32);
}

/// The value of the formatted digits of `n` is `n` again, for `n` below the
/// digit count's range.
proof fn lemma_value_of_hex_digits(n: nat, k: nat)
    requires
        n < pow16(k),
    ensures
        hex_value(hex_digits(n, k)) == n,
    decreases k,
{
    if k == 0 {
    } else {
        let front = n / 16;
        assert(front < pow16((k - 1) as nat)) by (nonlinear_arith)
            requires
                n < pow16(k),
                pow16(k) == 16 * pow16((k - 1) as nat),
                front == n / 16,
        ;
        lemma_value_of_hex_digits(front, (k - 1) as nat);
        let d = hex_digits(n, k);
        assert(d.drop_last() =~= hex_digits(front, (k - 1) as nat));
        assert(d.last() == hex_digit((n % 16) as int));
        assert(hex_val(hex_digit((n % 16) as int)) == n % 16);
        assert((n / 16) * 16 + n % 16 == n) by (nonlinear_arith);
    }
}

} // verus!
