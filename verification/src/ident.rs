use vstd::arithmetic::div_mod::lemma_basic_div;
use vstd::arithmetic::div_mod::lemma_div_denominator;
use vstd::arithmetic::div_mod::lemma_fundamental_div_mod;
use vstd::prelude::*;

verus! {

// Module identifiers are opaque 128-bit values. Their canonical textual form
// is the hyphenated hexadecimal rendering: eight, four, four, four and twelve
// hex digits, separated by hyphens. Parsing accepts either letter case;
// formatting produces lower case.

/// The value of a hexadecimal digit, or `None` for any other character.
pub open spec fn hex_digit_value(c: char) -> Option<u8> {
    if c == '0' {
        Some(0u8)
    } else if c == '1' {
        Some(1u8)
    } else if c == '2' {
        Some(2u8)
    } else if c == '3' {
        Some(3u8)
    } else if c == '4' {
        Some(4u8)
    } else if c == '5' {
        Some(5u8)
    } else if c == '6' {
        Some(6u8)
    } else if c == '7' {
        Some(7u8)
    } else if c == '8' {
        Some(8u8)
    } else if c == '9' {
        Some(9u8)
    } else if c == 'a' || c == 'A' {
        Some(10u8)
    } else if c == 'b' || c == 'B' {
        Some(11u8)
    } else if c == 'c' || c == 'C' {
        Some(12u8)
    } else if c == 'd' || c == 'D' {
        Some(13u8)
    } else if c == 'e' || c == 'E' {
        Some(14u8)
    } else if c == 'f' || c == 'F' {
        Some(15u8)
    } else {
        None
    }
}

/// The lower-case hexadecimal digit for a value below sixteen.
pub open spec fn hex_char_of(n: u8) -> char {
    if n == 0 {
        '0'
    } else if n == 1 {
        '1'
    } else if n == 2 {
        '2'
    } else if n == 3 {
        '3'
    } else if n == 4 {
        '4'
    } else if n == 5 {
        '5'
    } else if n == 6 {
        '6'
    } else if n == 7 {
        '7'
    } else if n == 8 {
        '8'
    } else if n == 9 {
        '9'
    } else if n == 10 {
        'a'
    } else if n == 11 {
        'b'
    } else if n == 12 {
        'c'
    } else if n == 13 {
        'd'
    } else if n == 14 {
        'e'
    } else {
        'f'
    }
}

/// Whether `c` is a lower-case hexadecimal digit.
pub open spec fn is_lower_hex(c: char) -> bool {
    hex_digit_value(c) is Some && !(c == 'A' || c == 'B' || c == 'C' || c == 'D' || c == 'E'
        || c == 'F')
}

/// Sixteen to the power `k`.
pub open spec fn pow16(k: nat) -> nat
    decreases k,
{
    if k == 0 {
        1nat
    } else {
        16 * pow16((k - 1) as nat)
    }
}

/// The value of a sequence of hexadecimal digits, most significant first.
pub open spec fn hex_seq_value(s: Seq<char>) -> nat
    decreases s.len(),
{
    if s.len() == 0 {
        0nat
    } else {
        hex_seq_value(s.drop_last()) * 16 + (match hex_digit_value(s.last()) {
            Some(d) => d as nat,
            None => 0nat,
        })
    }
}

/// The sequence with every hyphen removed, order kept.
pub open spec fn strip_hyphens(s: Seq<char>) -> Seq<char>
    decreases s.len(),
{
    if s.len() == 0 {
        Seq::empty()
    } else if s.last() == '-' {
        strip_hyphens(s.drop_last())
    } else {
        strip_hyphens(s.drop_last()).push(s.last())
    }
}

/// The positions that hold a hyphen in the canonical textual form.
pub open spec fn is_hyphen_pos(i: int) -> bool {
    i == 8 || i == 13 || i == 18 || i == 23
}

/// A well-formed identifier text: thirty-six characters, hyphens exactly at
/// their canonical positions, hexadecimal digits everywhere else.
pub open spec fn is_well_formed_uuid(s: Seq<char>) -> bool {
    &&& s.len() == 36
    &&& forall|i: int|
        0 <= i < 36 ==> (if is_hyphen_pos(i) {
            s[i] == '-'
        } else {
            hex_digit_value(s[i]) is Some
        })
}

/// The identifier denoted by a text: the value of its thirty-two hexadecimal
/// digits if the text is well formed, nothing otherwise.
pub open spec fn spec_parse_uuid(s: Seq<char>) -> Option<u128> {
    if is_well_formed_uuid(s) {
        Some(hex_seq_value(strip_hyphens(s)) as u128)
    } else {
        None
    }
}

/// `pow16` never increases when the exponent shrinks.
proof fn lemma_pow16_mono(a: nat, b: nat)
    requires
        a <= b,
    ensures
        pow16(a) <= pow16(b),
    decreases b,
{
    if a < b {
        lemma_pow16_mono(a, (b - 1) as nat);
        assert(pow16(b) == 16 * pow16((b - 1) as nat));
    }
}

/// A sequence of hexadecimal digits has a value below `pow16` of its length.
proof fn lemma_hex_seq_value_bound(s: Seq<char>)
    ensures
        hex_seq_value(s) < pow16(s.len()),
    decreases s.len(),
{
    if s.len() > 0 {
        lemma_hex_seq_value_bound(s.drop_last());
    }
}

/// The value of a hexadecimal digit, or `None` for any other character.
fn hex_value(c: char) -> (r: Option<u8>)
    ensures
        r == hex_digit_value(c),
{
    match c {
        '0' => Some(0),
        '1' => Some(1),
        '2' => Some(2),
        '3' => Some(3),
        '4' => Some(4),
        '5' => Some(5),
        '6' => Some(6),
        '7' => Some(7),
        '8' => Some(8),
        '9' => Some(9),
        'a' | 'A' => Some(10),
        'b' | 'B' => Some(11),
        'c' | 'C' => Some(12),
        'd' | 'D' => Some(13),
        'e' | 'E' => Some(14),
        'f' | 'F' => Some(15),
        _ => None,
    }
}

/// Parse an identifier from its hyphenated textual form, either letter case.
/// Returns `None` exactly on texts that are not well formed.
pub fn parse_module_id(s: &str) -> (r: Option<u128>)
    ensures
        r == spec_parse_uuid(s@),
{
    let n = s.unicode_len();
    if n != 36 {
        return None;
    }
    let mut acc: u128 = 0;
    let mut i: usize = 0;
    proof {
        assert(s@.take(0int) =~= Seq::<char>::empty());
    }
    while i < 36
        invariant
            s@.len() == 36,
            i <= 36,
            forall|j: int|
                0 <= j < i ==> (if is_hyphen_pos(j) {
                    s@[j] == '-'
                } else {
                    hex_digit_value(s@[j]) is Some
                }),
            acc == hex_seq_value(strip_hyphens(s@.take(i as int))),
            acc < pow16(strip_hyphens(s@.take(i as int)).len()),
            strip_hyphens(s@.take(i as int)).len() == i - hyphens_before(i as int),
        decreases 36 - i,
    {
        let ghost prefix = s@.take(i as int);
        let ghost stripped = strip_hyphens(prefix);
        let c = s.get_char(i);
        proof {
            assert(s@.take(i + 1 as int).drop_last() =~= prefix);
            assert(s@.take(i + 1 as int).last() == s@[i as int]);
        }
        if i == 8 || i == 13 || i == 18 || i == 23 {
            if c != '-' {
                return None;
            }
            proof {
                assert(strip_hyphens(s@.take(i + 1 as int)) =~= stripped);
                assert(hyphens_before(i + 1 as int) == hyphens_before(i as int) + 1);
            }
        } else {
            match hex_value(c) {
                None => {
                    return None;
                },
                Some(d) => {
                    proof {
                        assert(strip_hyphens(s@.take(i + 1 as int)) =~= stripped.push(c));
                        assert(stripped.push(c).drop_last() =~= stripped);
                        assert(stripped.push(c).last() == c);
                        assert(hyphens_before(i + 1 as int) == hyphens_before(i as int));
                        assert(stripped.push(c).len() <= 32);
                        lemma_pow16_mono(stripped.push(c).len(), 32);
                        lemma_pow16_values();
                        assert(acc * 16 + d < pow16(stripped.push(c).len())) by {
                            assert(pow16(stripped.push(c).len()) == 16 * pow16(stripped.len()));
                        };
                    }
                    acc = acc * 16 + (d as u128);
                },
            }
        }
        i += 1;
    }
    proof {
        assert(s@.take(36int) =~= s@);
        assert(is_well_formed_uuid(s@));
    }
    Some(acc)
}

/// How many canonical hyphen positions lie strictly below `i`.
spec fn hyphens_before(i: int) -> int {
    (if i > 8 {
        1int
    } else {
        0int
    }) + (if i > 13 {
        1int
    } else {
        0int
    }) + (if i > 18 {
        1int
    } else {
        0int
    }) + (if i > 23 {
        1int
    } else {
        0int
    })
}

/// The one-character text of a lower-case hexadecimal digit.
fn hex_char_str(d: u8) -> (r: &'static str)
    requires
        d < 16,
    ensures
        r@ =~= seq![hex_char_of(d)],
{
    proof {
        reveal_strlit("0");
        reveal_strlit("1");
        reveal_strlit("2");
        reveal_strlit("3");
        reveal_strlit("4");
        reveal_strlit("5");
        reveal_strlit("6");
        reveal_strlit("7");
        reveal_strlit("8");
        reveal_strlit("9");
        reveal_strlit("a");
        reveal_strlit("b");
        reveal_strlit("c");
        reveal_strlit("d");
        reveal_strlit("e");
        reveal_strlit("f");
    }
    match d {
        0 => "0",
        1 => "1",
        2 => "2",
        3 => "3",
        4 => "4",
        5 => "5",
        6 => "6",
        7 => "7",
        8 => "8",
        9 => "9",
        10 => "a",
        11 => "b",
        12 => "c",
        13 => "d",
        14 => "e",
        _ => "f",
    }
}

/// Render an identifier in its canonical textual form: hyphenated, lower
/// case. The result is well formed and parses back to the same identifier.
pub fn module_id_text(id: u128) -> (r: String)
    ensures
        is_well_formed_uuid(r@),
        forall|j: int| 0 <= j < r@.len() ==> r@[j] == '-' || is_lower_hex(#[trigger] r@[j]),
        spec_parse_uuid(r@) == Some(id),
{
    let mut out = String::new();
    let mut p: u128 = 0x10000000000000000000000000000000;
    let mut i: usize = 0;
    proof {
        lemma_pow16_values();
        assert(strip_hyphens(out@) =~= Seq::<char>::empty());
        lemma_basic_div(id as int, pow16(32) as int);
    }
    while i < 36
        invariant
            i <= 36,
            out@.len() == i,
            forall|j: int|
                0 <= j < i ==> (if is_hyphen_pos(j) {
                    out@[j] == '-'
                } else {
                    hex_digit_value(out@[j]) is Some
                }),
            forall|j: int| 0 <= j < i ==> out@[j] == '-' || is_lower_hex(#[trigger] out@[j]),
            i - hyphens_before(i as int) <= 32,
            (i - hyphens_before(i as int) < 32 ==> p == pow16(
                (31 - (i - hyphens_before(i as int))) as nat,
            )),
            (i - hyphens_before(i as int) == 32 ==> p == 1),
            strip_hyphens(out@).len() == i - hyphens_before(i as int),
            hex_seq_value(strip_hyphens(out@)) == (id as nat) / pow16(
                (32 - (i - hyphens_before(i as int))) as nat,
            ),
        decreases 36 - i,
    {
        let ghost old_out = out@;
        let ghost stripped = strip_hyphens(old_out);
        let ghost j = i - hyphens_before(i as int);
        if i == 8 || i == 13 || i == 18 || i == 23 {
            out.append("-");
            proof {
                reveal_strlit("-");
                assert(out@.drop_last() =~= old_out);
                assert(out@.last() == '-');
                assert(strip_hyphens(out@) =~= stripped);
                assert(hyphens_before(i + 1 as int) == hyphens_before(i as int) + 1);
            }
        } else {
            proof {
                assert(j < 32) by {
                    assert(i <= 35 && !is_hyphen_pos(i as int));
                };
                assert(p == pow16((31 - j) as nat));
                assert(p > 0) by {
                    lemma_pow16_pos((31 - j) as nat);
                };
            }
            let q = id / p;
            let d = (q % 16) as u8;
            proof {
                let idn = id as int;
                let pn = p as int;
                assert(pow16((32 - j) as nat) == 16 * pow16((31 - j) as nat));
                lemma_div_denominator(idn, pn, 16);
                assert(idn / (pn * 16) == (idn / pn) / 16);
                assert(pn * 16 == 16 * pn) by (nonlinear_arith);
                lemma_fundamental_div_mod(q as int, 16);
                assert((q as int / 16) * 16 + (q as int % 16) == q as int);
                assert(hex_digit_value(hex_char_of(d)) == Some(d));
                assert(is_lower_hex(hex_char_of(d)));
                assert(hex_char_of(d) != '-');
            }
            out.append(hex_char_str(d));
            if p > 1 {
                p = p / 16;
            }
            proof {
                assert(out@.drop_last() =~= old_out);
                assert(out@.last() == hex_char_of(d));
                assert(strip_hyphens(out@) =~= stripped.push(hex_char_of(d)));
                assert(stripped.push(hex_char_of(d)).drop_last() =~= stripped);
                assert(hex_seq_value(strip_hyphens(out@)) == hex_seq_value(stripped) * 16 + d);
                assert(hyphens_before(i + 1 as int) == hyphens_before(i as int));
                if j + 1 < 32 {
                    assert(pow16((31 - j) as nat) == 16 * pow16((30 - j) as nat));
                    assert(p == pow16((31 - (j + 1)) as nat)) by {
                        lemma_pow16_pos((30 - j) as nat);
                    };
                } else {
                    assert(p == 1);
                }
            }
        }
        i += 1;
    }
    proof {
        assert(is_well_formed_uuid(out@));
        assert(hex_seq_value(strip_hyphens(out@)) == (id as nat) / pow16(0nat));
        assert((id as nat) / 1 == id as nat);
    }
    out
}

/// The two powers of sixteen that bound an identifier's digits.
proof fn lemma_pow16_values()
    ensures
        pow16(31) == 0x10000000000000000000000000000000nat,
        pow16(32) == 0x100000000000000000000000000000000nat,
{
    reveal_with_fuel(pow16, 33);
}

/// `pow16` is always positive.
proof fn lemma_pow16_pos(k: nat)
    ensures
        pow16(k) >= 1,
    decreases k,
{
    if k > 0 {
        lemma_pow16_pos((k - 1) as nat);
    }
}

} // verus!
