//! Rendering 32-bit values: the binary expansion grouped in octets with a
//! prefix/host boundary marker, and the dotted-decimal form.

use vstd::prelude::*;

verus! {

/// The character for bit `i` of `v`, bit 0 being the most significant.
pub open spec fn bit_char(v: u32, i: int) -> char
    recommends
        0 <= i < 32,
{
    if (v >> ((31 - i) as u32)) & 1 == 1 {
        '1'
    } else {
        '0'
    }
}

/// The 32-character binary expansion of `v`, most significant bit first.
pub open spec fn bin32(v: u32) -> Seq<char> {
    Seq::new(32, |i: int| bit_char(v, i))
}

/// The marker that precedes bit `i`: `"| "` exactly at a non-zero boundary.
pub open spec fn marker_at(boundary: u32, i: int) -> Seq<char> {
    if i == boundary && boundary != 0 {
        seq!['|', ' ']
    } else {
        Seq::empty()
    }
}

/// The octet separator that precedes bit `i`: `"."` before bits 8, 16 and 24.
pub open spec fn separator_at(i: int) -> Seq<char> {
    if i != 0 && i % 8 == 0 {
        seq!['.']
    } else {
        Seq::empty()
    }
}

/// The first `n` bits of the rendering of `v`: before each bit come the
/// boundary marker and the octet separator that fall at its position.
pub open spec fn rendered_prefix(v: u32, boundary: u32, n: int) -> Seq<char>
    recommends
        0 <= n <= 32,
        boundary <= 32,
    decreases n,
{
    if n <= 0 {
        Seq::empty()
    } else {
        rendered_prefix(v, boundary, n - 1) + marker_at(boundary, n - 1) + separator_at(n - 1)
            + seq![bit_char(v, n - 1)]
    }
}

/// The full rendering of `v` with the marker at `boundary`.
pub open spec fn rendered(v: u32, boundary: u32) -> Seq<char>
    recommends
        boundary <= 32,
{
    rendered_prefix(v, boundary, 32)
}

/// The characters of `s` that are neither marker characters (`'|'`, `' '`)
/// nor the octet separator (`'.'`).
pub open spec fn visible_chars(s: Seq<char>) -> Seq<char> {
    s.filter(|c: char| c != '|' && c != ' ' && c != '.')
}

/// Renders `value` as four dot-separated groups of 8 binary digits, with the
/// marker `"| "` inserted before the bit at index `boundary` — except when
/// `boundary` is 0, where no marker appears at all.
pub fn render(value: u32, boundary: u8) -> (s: String)
    requires
        boundary <= 32,
    ensures
        s@ == rendered(value, boundary as u32),
{
    let mut s = String::new();
    let mut i: u32 = 0;
    while i < 32
        invariant
            i <= 32,
            boundary <= 32,
            s@ == rendered_prefix(value, boundary as u32, i as int),
        decreases 32 - i,
    {
        proof {
            reveal_strlit("| ");
            reveal_strlit(".");
            reveal_strlit("0");
            reveal_strlit("1");
        }
        let ghost before = s@;
        if i == boundary as u32 && boundary != 0 {
            s.append("| ");
        }
        if i % 8 == 0 && i != 0 {
            s.append(".");
        }
        let sh: u32 = 31 - i;
        let b = (value >> sh) & 1;
        proof {
            assert((value >> sh) & 1 <= 1) by (bit_vector);
        }
        if b == 1 {
            s.append("1");
        } else {
            s.append("0");
        }
        proof {
            assert(s@ =~= before + marker_at(boundary as u32, i as int) + separator_at(i as int)
                + seq![bit_char(value, i as int)]);
        }
        i = i + 1;
    }
    s
}

proof fn lemma_visible_prefix(v: u32, b: u32, n: int)
    requires
        0 <= n <= 32,
        b <= 32,
    ensures
        visible_chars(rendered_prefix(v, b, n)) =~= Seq::new(n as nat, |i: int| bit_char(v, i)),
    decreases n,
{
    broadcast use Seq::filter_distributes_over_add;

    reveal_with_fuel(Seq::filter, 4);
    if n > 0 {
        lemma_visible_prefix(v, b, n - 1);
        assert(visible_chars(marker_at(b, n - 1)) =~= Seq::empty());
        assert(visible_chars(separator_at(n - 1)) =~= Seq::empty());
        assert(visible_chars(seq![bit_char(v, n - 1)]) =~= seq![bit_char(v, n - 1)]);
    }
}

/// Law: stripped of the marker and separator characters, the rendering of
/// `value` is exactly its 32-bit binary expansion.
pub proof fn lemma_rendered_visible_bits(value: u32, boundary: u32)
    requires
        boundary <= 32,
    ensures
        visible_chars(rendered(value, boundary)) == bin32(value),
{
    lemma_visible_prefix(value, boundary, 32);
    assert(visible_chars(rendered(value, boundary)) =~= bin32(value));
}

/// The decimal digit character for `d`.
pub open spec fn digit_char(d: int) -> char
    recommends
        0 <= d <= 9,
{
    if d == 0 {
        '0'
    } else if d == 1 {
        '1'
    } else if d == 2 {
        '2'
    } else if d == 3 {
        '3'
    } else if d == 4 {
        '4'
    } else if d == 5 {
        '5'
    } else if d == 6 {
        '6'
    } else if d == 7 {
        '7'
    } else if d == 8 {
        '8'
    } else {
        '9'
    }
}

/// The decimal expansion of an octet value, without leading zeros.
pub open spec fn dec_octet(n: int) -> Seq<char>
    recommends
        0 <= n < 256,
{
    if n < 10 {
        seq![digit_char(n)]
    } else if n < 100 {
        seq![digit_char(n / 10), digit_char(n % 10)]
    } else {
        seq![digit_char(n / 100), digit_char((n / 10) % 10), digit_char(n % 10)]
    }
}

/// Octet `k` of `v`, octet 0 the most significant.
pub open spec fn octet_of(v: u32, k: int) -> int
    recommends
        0 <= k < 4,
{
    ((v >> ((24 - 8 * k) as u32)) & 0xFF) as int
}

/// The dotted-decimal form of `v`.
pub open spec fn dotted_of(v: u32) -> Seq<char> {
    dec_octet(octet_of(v, 0)) + seq!['.'] + dec_octet(octet_of(v, 1)) + seq!['.'] + dec_octet(
        octet_of(v, 2),
    ) + seq!['.'] + dec_octet(octet_of(v, 3))
}

fn digit_str(d: u32) -> (r: &'static str)
    requires
        d <= 9,
    ensures
        r@ == seq![digit_char(d as int)],
{
    proof {
        reveal_strlit("0");
        reveal_strlit("1");
        reveal_strlit("2");
        reveal_strlit("3");
        reveal_strlit("4");
        reveal_strlit("5");
        reveal_strlit("6");
        reveal_strlit("7");
        reveal_strlit("8");
        reveal_strlit("9");
    }
    if d == 0 {
        proof {
            assert(("0")@ =~= seq![digit_char(0)]);
        }
        "0"
    } else if d == 1 {
        proof {
            assert(("1")@ =~= seq![digit_char(1)]);
        }
        "1"
    } else if d == 2 {
        proof {
            assert(("2")@ =~= seq![digit_char(2)]);
        }
        "2"
    } else if d == 3 {
        proof {
            assert(("3")@ =~= seq![digit_char(3)]);
        }
        "3"
    } else if d == 4 {
        proof {
            assert(("4")@ =~= seq![digit_char(4)]);
        }
        "4"
    } else if d == 5 {
        proof {
            assert(("5")@ =~= seq![digit_char(5)]);
        }
        "5"
    } else if d == 6 {
        proof {
            assert(("6")@ =~= seq![digit_char(6)]);
        }
        "6"
    } else if d == 7 {
        proof {
            assert(("7")@ =~= seq![digit_char(7)]);
        }
        "7"
    } else if d == 8 {
        proof {
            assert(("8")@ =~= seq![digit_char(8)]);
        }
        "8"
    } else {
        proof {
            assert(("9")@ =~= seq![digit_char(9)]);
        }
        "9"
    }
}

fn push_octet(s: &mut String, n: u32)
    requires
        n <= 255,
    ensures
        final(s)@ == old(s)@ + dec_octet(n as int),
{
    if n < 10 {
        s.append(digit_str(n));
        proof {
            assert(s@ =~= old(s)@ + dec_octet(n as int));
        }
    } else if n < 100 {
        s.append(digit_str(n / 10));
        s.append(digit_str(n % 10));
        proof {
            assert(s@ =~= old(s)@ + dec_octet(n as int));
        }
    } else {
        s.append(digit_str(n / 100));
        s.append(digit_str((n / 10) % 10));
        s.append(digit_str(n % 10));
        proof {
            assert(s@ =~= old(s)@ + dec_octet(n as int));
        }
    }
}

/// Renders `value` in dotted-decimal form, `"A.B.C.D"`.
pub fn dotted(value: u32) -> (s: String)
    ensures
        s@ == dotted_of(value),
{
    proof {
        reveal_strlit(".");
        assert((value >> 24u32) & 0xFF <= 255) by (bit_vector);
        assert((value >> 16u32) & 0xFF <= 255) by (bit_vector);
        assert((value >> 8u32) & 0xFF <= 255) by (bit_vector);
        assert(value & 0xFF <= 255) by (bit_vector);
    }
    let mut s = String::new();
    push_octet(&mut s, (value >> 24) & 0xFF);
    s.append(".");
    push_octet(&mut s, (value >> 16) & 0xFF);
    s.append(".");
    push_octet(&mut s, (value >> 8) & 0xFF);
    s.append(".");
    push_octet(&mut s, value & 0xFF);
    proof {
        assert(value >> 0u32 == value) by (bit_vector);
        assert(s@ =~= dotted_of(value));
    }
    s
}

} // verus!
