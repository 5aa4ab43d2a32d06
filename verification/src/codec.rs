//! Exact arithmetic behind the decimal codec: powers of two and ten, the
//! byte length of the two's-complement staging area, and the big-endian
//! two's-complement encoding itself.

use vstd::prelude::*;

verus! {

/// 10^e, as a mathematical value.
pub open spec fn pow10(e: nat) -> nat
    decreases e,
{
    if e == 0 {
        1
    } else {
        10 * pow10((e - 1) as nat)
    }
}

/// 2^e, as a mathematical value.
pub open spec fn pow2(e: nat) -> nat
    decreases e,
{
    if e == 0 {
        1
    } else {
        2 * pow2((e - 1) as nat)
    }
}

pub proof fn lemma_pow10_positive(e: nat)
    ensures
        pow10(e) >= 1,
    decreases e,
{
    if e > 0 {
        lemma_pow10_positive((e - 1) as nat);
    }
}

pub proof fn lemma_pow2_positive(e: nat)
    ensures
        pow2(e) >= 1,
    decreases e,
{
    if e > 0 {
        lemma_pow2_positive((e - 1) as nat);
    }
}

pub proof fn lemma_pow10_increases(a: nat, b: nat)
    requires
        a <= b,
    ensures
        pow10(a) <= pow10(b),
    decreases b,
{
    if a < b {
        lemma_pow10_increases(a, (b - 1) as nat);
        lemma_pow10_positive((b - 1) as nat);
    }
}

pub proof fn lemma_pow2_increases(a: nat, b: nat)
    requires
        a <= b,
    ensures
        pow2(a) <= pow2(b),
    decreases b,
{
    if a < b {
        lemma_pow2_increases(a, (b - 1) as nat);
        lemma_pow2_positive((b - 1) as nat);
    }
}

pub proof fn lemma_pow2_adds(a: nat, b: nat)
    ensures
        pow2(a + b) == pow2(a) * pow2(b),
    decreases a,
{
    if a == 0 {
        assert(pow2(a) == 1);
        assert(pow2(a + b) == pow2(b));
        assert(pow2(a + b) == pow2(a) * pow2(b));
    } else {
        lemma_pow2_adds((a - 1) as nat, b);
        assert((a - 1) as nat + b == (a + b - 1) as nat);
        assert(pow2(a + b) == 2 * pow2((a + b - 1) as nat));
        assert(pow2(a) == 2 * pow2((a - 1) as nat));
        assert(pow2(a + b) == pow2(a) * pow2(b)) by (nonlinear_arith)
            requires
                pow2(a + b) == 2 * (pow2((a - 1) as nat) * pow2(b)),
                pow2(a) == 2 * pow2((a - 1) as nat),
        ;
    }
}

/// 2^127 as a literal, for bounding 128-bit arithmetic.
pub proof fn lemma_pow2_127_value()
    ensures
        pow2(127) == 0x8000_0000_0000_0000_0000_0000_0000_0000u128,
{
    assert(pow2(63) == 0x8000_0000_0000_0000u64) by {
        reveal_with_fuel(pow2, 64);
    }
    assert(pow2(64) == 0x1_0000_0000_0000_0000u128) by {
        reveal_with_fuel(pow2, 65);
    }
    lemma_pow2_adds(64, 63);
}

pub proof fn lemma_pow2_strictly_increases(a: nat, b: nat)
    requires
        a < b,
    ensures
        pow2(a) < pow2(b),
    decreases b,
{
    if a < b - 1 {
        lemma_pow2_strictly_increases(a, (b - 1) as nat);
        lemma_pow2_positive((b - 1) as nat);
    } else {
        lemma_pow2_positive(a);
    }
}

/// Every number with `p` decimal digits fits in `4 * p` bits.
proof fn lemma_pow10_le_pow2_4p(p: nat)
    ensures
        pow10(p) <= pow2(4 * p),
    decreases p,
{
    if p > 0 {
        lemma_pow10_le_pow2_4p((p - 1) as nat);
        assert(pow2(4 * p) == pow2(4) * pow2((4 * (p - 1)) as nat)) by {
            lemma_pow2_adds(4, (4 * (p - 1)) as nat);
        }
        assert(pow2(4) == 16) by {
            reveal_with_fuel(pow2, 5);
        }
    }
}

/// Three decimal digits fit in ten bits: 10^(3k) < 2^(10k) for k >= 1.
proof fn lemma_pow10_3k_lt_pow2_10k(k: nat)
    requires
        k >= 1,
    ensures
        pow10(3 * k) < pow2(10 * k),
    decreases k,
{
    if k == 1 {
        assert(pow10(3) == 1000) by {
            reveal_with_fuel(pow10, 4);
        }
        assert(pow2(10) == 1024) by {
            reveal_with_fuel(pow2, 11);
        }
    } else {
        lemma_pow10_3k_lt_pow2_10k((k - 1) as nat);
        lemma_pow2_positive((10 * (k - 1)) as nat);
        assert(pow10(3 * k) == 1000 * pow10((3 * (k - 1)) as nat)) by {
            reveal_with_fuel(pow10, 4);
        }
        assert(pow2(10 * k) == 1024 * pow2((10 * (k - 1)) as nat)) by {
            lemma_pow2_adds(10, (10 * (k - 1)) as nat);
            assert(pow2(10) == 1024) by {
                reveal_with_fuel(pow2, 11);
            }
        }
        assert(1000 * pow10((3 * (k - 1)) as nat) < 1000 * pow2((10 * (k - 1)) as nat))
            by (nonlinear_arith)
            requires
                pow10((3 * (k - 1)) as nat) < pow2((10 * (k - 1)) as nat),
        ;
    }
}

/// The largest supported precision still fits the sign bit into 16 bytes.
pub proof fn lemma_pow10_38_lt_pow2_127()
    ensures
        pow10(38) < pow2(127),
{
    lemma_pow10_3k_lt_pow2_10k(12);
    assert(pow10(38) == 100 * pow10(36)) by {
        reveal_with_fuel(pow10, 3);
    }
    assert(pow2(127) == 128 * pow2(120)) by {
        lemma_pow2_adds(7, 120);
        assert(pow2(7) == 128) by {
            reveal_with_fuel(pow2, 8);
        }
    }
    assert(100 * pow10(36) < 128 * pow2(120)) by (nonlinear_arith)
        requires
            pow10(36) < pow2(120),
            pow10(36) >= 0,
    ;
}

/// Search upward from `l` for the smallest byte count whose two's complement
/// (one bit reserved for the sign) can hold every `p`-digit number.
pub open spec fn dec_len_from(p: nat, l: nat, fuel: nat) -> nat
    decreases fuel,
{
    if fuel == 0 {
        l
    } else if pow10(p) <= pow2((8 * l - 1) as nat) {
        l
    } else {
        dec_len_from(p, l + 1, (fuel - 1) as nat)
    }
}

/// Byte length of the two's-complement representation that holds every
/// decimal value of `p` digits: the smallest `l >= 1` with
/// `10^p <= 2^(8*l - 1)`.
pub open spec fn dec_len(p: nat) -> nat {
    dec_len_from(p, 1, p + 1)
}

proof fn lemma_dec_len_from_min(p: nat, l: nat, fuel: nat)
    requires
        l >= 1,
        fuel + l >= p + 2,
    ensures
        dec_len_from(p, l, fuel) >= l,
        pow10(p) <= pow2((8 * dec_len_from(p, l, fuel) - 1) as nat),
        forall|j: nat| l <= j < dec_len_from(p, l, fuel) ==> pow10(p) > #[trigger] pow2((8 * j - 1) as nat),
    decreases fuel,
{
    if pow10(p) <= pow2((8 * l - 1) as nat) {
    } else if fuel == 0 {
        // The search cannot run out of fuel: at l >= p + 2 the bound
        // 10^p <= 2^(4p) <= 2^(8l - 1) already holds.
        lemma_pow10_le_pow2_4p(p);
        lemma_pow2_increases(4 * p, (8 * l - 1) as nat);
        assert(false);
    } else {
        lemma_dec_len_from_min(p, l + 1, (fuel - 1) as nat);
    }
}

/// `dec_len(p)` is at least one byte, holds every `p`-digit value, and is
/// the smallest such byte count.
pub proof fn lemma_dec_len_min(p: nat)
    ensures
        dec_len(p) >= 1,
        pow10(p) <= pow2((8 * dec_len(p) - 1) as nat),
        forall|j: nat| 1 <= j < dec_len(p) ==> pow10(p) > #[trigger] pow2((8 * j - 1) as nat),
{
    lemma_dec_len_from_min(p, 1, p + 1);
}

pub proof fn lemma_dec_len_unique(p: nat, l: nat)
    requires
        l >= 1,
        pow10(p) <= pow2((8 * l - 1) as nat),
        l > 1 ==> pow10(p) > pow2((8 * (l - 1) - 1) as nat),
    ensures
        l == dec_len(p),
{
    lemma_dec_len_min(p);
    let d = dec_len(p);
    if d < l {
        lemma_pow2_increases((8 * d - 1) as nat, (8 * (l - 1) - 1) as nat);
    } else if d > l {
        assert(pow10(p) > pow2((8 * l - 1) as nat));
    }
}

/// The staging length never shrinks as the declared precision grows.
pub proof fn lemma_dec_len_monotonic(p1: nat, p2: nat)
    requires
        p1 <= p2,
    ensures
        dec_len(p1) <= dec_len(p2),
{
    lemma_dec_len_min(p1);
    lemma_dec_len_min(p2);
    if dec_len(p2) < dec_len(p1) {
        lemma_pow10_increases(p1, p2);
        assert(pow10(p1) > pow2((8 * dec_len(p2) - 1) as nat));
    }
}

/// Number of bytes of the big-endian two's complement that the binary
/// decimal strategy writes for a column of `precision` digits: the smallest
/// count whose bit width (less the sign bit) holds every such value.
pub fn length_in_bytes(precision: usize) -> (l: usize)
    requires
        precision <= 38,
    ensures
        l == dec_len(precision as nat),
        1 <= l <= 16,
{
    proof {
        lemma_pow10_38_lt_pow2_127();
        lemma_pow10_increases(precision as nat, 38);
        lemma_pow2_127_value();
    }
    let mut p10: u128 = 1;
    let mut i: usize = 0;
    while i < precision
        invariant
            i <= precision <= 38,
            p10 == pow10(i as nat),
            pow10(precision as nat) < pow2(127),
        decreases precision - i,
    {
        proof {
            lemma_pow10_increases((i + 1) as nat, precision as nat);
            lemma_pow2_127_value();
        }
        p10 = p10 * 10;
        i = i + 1;
    }
    let mut l: usize = 1;
    let mut t: u128 = 128;
    proof {
        assert(pow2(7) == 128) by {
            reveal_with_fuel(pow2, 8);
        }
    }
    while t < p10
        invariant
            1 <= l <= 16,
            t == pow2((8 * l - 1) as nat),
            p10 == pow10(precision as nat),
            pow10(precision as nat) < pow2(127),
            l > 1 ==> pow10(precision as nat) > pow2((8 * (l - 1) - 1) as nat),
        decreases 16 - l,
    {
        proof {
            // t < p10 < 2^127, so 8*l - 1 <= 126, hence l <= 15 and the
            // next threshold 2^(8*l + 7) still fits in a u128.
            lemma_pow2_127_value();
            if 8 * l - 1 >= 127 {
                lemma_pow2_increases(127, (8 * l - 1) as nat);
            }
            lemma_pow2_adds(8, (8 * l - 1) as nat);
            assert(pow2(8) == 256) by {
                reveal_with_fuel(pow2, 9);
            }
            lemma_pow2_increases((8 * (l + 1) - 1) as nat, 127);
        }
        t = t * 256;
        l = l + 1;
    }
    proof {
        lemma_dec_len_unique(precision as nat, l as nat);
    }
    l
}

/// Unsigned value of a big-endian byte string.
pub open spec fn be_value(s: Seq<u8>) -> nat
    decreases s.len(),
{
    if s.len() == 0 {
        0
    } else {
        be_value(s.drop_last()) * 256 + s.last() as nat
    }
}

/// Signed value of a big-endian two's-complement byte string: the top bit
/// of the first byte carries the sign.
pub open spec fn twos_complement_value(s: Seq<u8>) -> int {
    if s.len() > 0 && s[0] >= 128 {
        be_value(s) - pow2(8 * s.len())
    } else {
        be_value(s) as int
    }
}

/// The first byte fixes the value up to one unit of its place value.
pub proof fn lemma_be_value_first(s: Seq<u8>)
    requires
        s.len() >= 1,
    ensures
        s[0] * pow2(8 * (s.len() - 1) as nat) <= be_value(s),
        be_value(s) < (s[0] + 1) * pow2(8 * (s.len() - 1) as nat),
    decreases s.len(),
{
    if s.len() == 1 {
        assert(s.drop_last().len() == 0);
        assert(be_value(s.drop_last()) == 0);
        assert(s.last() == s[0]);
        assert(pow2(0) == 1);
        assert(be_value(s) == s[0]);
        assert(s[0] * pow2(8 * (s.len() - 1) as nat) == s[0]) by (nonlinear_arith)
            requires
                pow2(8 * (s.len() - 1) as nat) == 1,
        ;
        assert((s[0] + 1) as nat * pow2(8 * (s.len() - 1) as nat) == s[0] + 1) by (nonlinear_arith)
            requires
                pow2(8 * (s.len() - 1) as nat) == 1,
        ;
    } else {
        lemma_be_value_first(s.drop_last());
        assert(s.drop_last()[0] == s[0]);
        let y = pow2((8 * (s.len() - 2)) as nat);
        lemma_pow2_adds((8 * (s.len() - 2)) as nat, 8);
        assert(pow2(8) == 256) by {
            reveal_with_fuel(pow2, 9);
        }
        assert(pow2((8 * (s.len() - 1)) as nat) == y * 256);
        assert(be_value(s) == be_value(s.drop_last()) * 256 + s.last());
        assert(s[0] * (y * 256) <= (s[0] * y) * 256) by (nonlinear_arith);
        assert((s[0] * y) * 256 <= be_value(s.drop_last()) * 256) by (nonlinear_arith)
            requires
                s[0] * y <= be_value(s.drop_last()),
        ;
        assert(be_value(s.drop_last()) * 256 + 256 <= ((s[0] + 1) as nat * y) * 256)
            by (nonlinear_arith)
            requires
                be_value(s.drop_last()) < (s[0] + 1) as nat * y,
        ;
        assert(((s[0] + 1) as nat * y) * 256 == (s[0] + 1) as nat * (y * 256)) by (nonlinear_arith);
    }
}

/// Prepending a byte adds its place value at the top.
pub proof fn lemma_be_prepend(b: u8, s: Seq<u8>)
    ensures
        be_value(seq![b] + s) == b * pow2(8 * s.len()) + be_value(s),
    decreases s.len(),
{
    if s.len() == 0 {
        let t = seq![b] + s;
        assert(t =~= seq![b]);
        assert(t.len() == 1 && t.last() == b);
        assert(t.drop_last().len() == 0);
        assert(be_value(t.drop_last()) == 0);
        assert(be_value(t) == b);
        assert(pow2(0) == 1);
        assert(be_value(s) == 0);
        assert(b * pow2(8 * s.len()) == b) by (nonlinear_arith)
            requires
                pow2(8 * s.len()) == 1,
        ;
    } else {
        let t = seq![b] + s;
        assert(t.drop_last() =~= seq![b] + s.drop_last());
        assert(t.last() == s.last());
        lemma_be_prepend(b, s.drop_last());
        let y = pow2((8 * (s.len() - 1)) as nat);
        lemma_pow2_adds((8 * (s.len() - 1)) as nat, 8);
        assert(pow2(8) == 256) by {
            reveal_with_fuel(pow2, 9);
        }
        assert(pow2(8 * s.len()) == y * 256);
        assert(be_value(t) == (b * y + be_value(s.drop_last())) * 256 + s.last());
        assert((b * y + be_value(s.drop_last())) * 256 == b * (y * 256) + be_value(s.drop_last())
            * 256) by (nonlinear_arith);
        assert(be_value(s) == be_value(s.drop_last()) * 256 + s.last() as nat);
        assert(b * pow2(8 * s.len()) == b * (y * 256)) by (nonlinear_arith)
            requires
                pow2(8 * s.len()) == y * 256,
        ;
    }
}

/// 256^l, computed in 128-bit arithmetic.
fn pow256(l: usize) -> (p: u128)
    requires
        l <= 15,
    ensures
        p == pow2((8 * l) as nat),
{
    let mut p: u128 = 1;
    let mut j: usize = 0;
    while j < l
        invariant
            j <= l <= 15,
            p == pow2((8 * j) as nat),
        decreases l - j,
    {
        proof {
            lemma_pow2_adds((8 * j) as nat, 8);
            assert(pow2(8) == 256) by {
                reveal_with_fuel(pow2, 9);
            }
            lemma_pow2_increases((8 * (j + 1)) as nat, 120);
            lemma_pow2_increases(120, 127);
            lemma_pow2_127_value();
        }
        p = p * 256;
        j = j + 1;
    }
    p
}

/// Renders `v` as exactly `l` big-endian two's-complement bytes.
pub fn encode_twos_complement(v: i128, l: usize) -> (r: Vec<u8>)
    requires
        1 <= l <= 16,
        -(pow2((8 * l - 1) as nat) as int) <= v < pow2((8 * l - 1) as nat),
    ensures
        r@.len() == l,
        twos_complement_value(r@) == v,
{
    proof {
        lemma_pow2_127_value();
        lemma_pow2_increases((8 * l - 1) as nat, 127);
    }
    let ghost uval: nat = if v >= 0 {
        v as nat
    } else {
        (v + pow2((8 * l) as nat)) as nat
    };
    proof {
        // 2^(8l) == 2 * 2^(8l - 1), so uval < 2^(8l), and for negative v
        // the sign half is reached: uval >= 2^(8l - 1).
        assert(pow2((8 * l) as nat) == 2 * pow2((8 * l - 1) as nat));
    }
    let u: u128 = if v >= 0 {
        v as u128
    } else if l == 16 {
        let mag: u128 = if v == i128::MIN {
            0x8000_0000_0000_0000_0000_0000_0000_0000u128
        } else {
            (-v) as u128
        };
        proof {
            assert(pow2(128) == 2 * pow2(127));
        }
        (u128::MAX - mag) + 1
    } else {
        proof {
            lemma_pow2_increases((8 * l - 1) as nat, 119);
            lemma_pow2_strictly_increases(119, 127);
        }
        let po: u128 = pow256(l);
        let mag: u128 = (-v) as u128;
        po - mag
    };
    assert(u == uval);
    proof {
        assert(be_value(Seq::<u8>::empty()) == 0);
        assert(pow2(0) == 1);
    }
    let mut out: Vec<u8> = Vec::new();
    let mut acc: u128 = u;
    let mut k: usize = 0;
    proof {
        assert(out@.len() == 0);
        assert(be_value(out@) == 0);
        assert(pow2((8 * k) as nat) == 1);
        assert(acc * pow2((8 * k) as nat) == acc) by (nonlinear_arith)
            requires
                pow2((8 * k) as nat) == 1,
        ;
    }
    while k < l
        invariant
            k <= l <= 16,
            out@.len() == k,
            be_value(out@) + acc * pow2((8 * k) as nat) == uval,
            acc < pow2((8 * (l - k)) as nat),
        decreases l - k,
    {
        let b: u8 = (acc % 256) as u8;
        let ghost old_out = out@;
        let ghost old_acc = acc;
        out.insert(0, b);
        acc = acc / 256;
        proof {
            assert(out@ =~= seq![b] + old_out);
            lemma_be_prepend(b, old_out);
            lemma_pow2_adds(8, (8 * k) as nat);
            lemma_pow2_adds(8, (8 * (l - k - 1)) as nat);
            assert(pow2(8) == 256) by {
                reveal_with_fuel(pow2, 9);
            }
            assert(old_acc == acc * 256 + b);
            assert(pow2((8 * (k + 1)) as nat) == 256 * pow2((8 * k) as nat)) by (nonlinear_arith)
                requires
                    pow2((8 * (k + 1)) as nat) == pow2(8) * pow2((8 * k) as nat),
                    pow2(8) == 256,
            ;
            assert(pow2((8 * (l - k)) as nat) == 256 * pow2((8 * (l - k - 1)) as nat))
                by (nonlinear_arith)
                requires
                    pow2((8 * (l - k)) as nat) == pow2(8) * pow2((8 * (l - k - 1)) as nat),
                    pow2(8) == 256,
            ;
            assert(be_value(out@) + acc * pow2((8 * (k + 1)) as nat) == uval) by (nonlinear_arith)
                requires
                    be_value(out@) == b * pow2((8 * k) as nat) + be_value(old_out),
                    be_value(old_out) + old_acc * pow2((8 * k) as nat) == uval,
                    old_acc == acc * 256 + b,
                    pow2((8 * (k + 1)) as nat) == 256 * pow2((8 * k) as nat),
            ;
            assert(acc < pow2((8 * (l - k - 1)) as nat));
        }
        k = k + 1;
    }
    proof {
        assert(acc == 0);
        assert(be_value(out@) == uval);
        lemma_be_value_first(out@);
        let y = pow2((8 * (l - 1)) as nat);
        lemma_pow2_positive((8 * (l - 1)) as nat);
        lemma_pow2_adds(7, (8 * (l - 1)) as nat);
        assert(pow2(7) == 128) by {
            reveal_with_fuel(pow2, 8);
        }
        assert(pow2((8 * l - 1) as nat) == 128 * y);
        if v >= 0 {
            assert(out@[0] < 128) by (nonlinear_arith)
                requires
                    out@[0] * y <= uval,
                    uval < 128 * y,
                    y >= 1,
            ;
        } else {
            assert(uval >= 128 * y);
            assert(out@[0] >= 128) by (nonlinear_arith)
                requires
                    uval < (out@[0] + 1) as nat * y,
                    uval >= 128 * y,
                    y >= 1,
            ;
        }
    }
    out
}

/// Reads back the signed value of `l` big-endian two's-complement bytes.
pub fn decode_twos_complement(bytes: &Vec<u8>) -> (v: i128)
    requires
        1 <= bytes@.len() <= 16,
    ensures
        v == twos_complement_value(bytes@),
{
    let l = bytes.len();
    let mut acc: u128 = 0;
    let mut i: usize = 0;
    while i < l
        invariant
            i <= l == bytes@.len() <= 16,
            acc == be_value(bytes@.take(i as int)),
            acc < pow2((8 * i) as nat),
        decreases l - i,
    {
        proof {
            assert(bytes@.take(i + 1).drop_last() =~= bytes@.take(i as int));
            assert(bytes@.take(i + 1).last() == bytes@[i as int]);
            lemma_pow2_adds((8 * i) as nat, 8);
            assert(pow2(8) == 256) by {
                reveal_with_fuel(pow2, 9);
            }
            lemma_pow2_increases((8 * i) as nat, 120);
            lemma_pow2_adds(120, 8);
            lemma_pow2_127_value();
            assert(pow2(128) == 2 * pow2(127));
        }
        acc = acc * 256 + (bytes[i] as u128);
        i = i + 1;
    }
    proof {
        assert(bytes@.take(l as int) =~= bytes@);
    }
    let b0 = bytes[0];
    proof {
        lemma_be_value_first(bytes@);
        lemma_pow2_positive((8 * (l - 1)) as nat);
        lemma_pow2_adds(7, (8 * (l - 1)) as nat);
        assert(pow2(7) == 128) by {
            reveal_with_fuel(pow2, 8);
        }
        assert(pow2((8 * l - 1) as nat) == 128 * pow2((8 * (l - 1)) as nat));
        lemma_pow2_127_value();
    }
    if b0 >= 128 {
        proof {
            assert(acc >= 128 * pow2((8 * (l - 1)) as nat)) by (nonlinear_arith)
                requires
                    acc >= b0 * pow2((8 * (l - 1)) as nat),
                    b0 >= 128,
                    pow2((8 * (l - 1)) as nat) >= 1,
            ;
        }
        if l == 16 {
            proof {
                assert(pow2(128) == 2 * pow2(127));
            }
            let d: u128 = acc - 0x8000_0000_0000_0000_0000_0000_0000_0000u128;
            i128::MIN + (d as i128)
        } else {
            let po: u128 = pow256(l);
            proof {
                lemma_pow2_increases((8 * l) as nat, 120);
                lemma_pow2_increases(120, 127);
            }
            -((po - acc) as i128)
        }
    } else {
        proof {
            assert(acc < 128 * pow2((8 * (l - 1)) as nat)) by (nonlinear_arith)
                requires
                    acc < (b0 + 1) as nat * pow2((8 * (l - 1)) as nat),
                    b0 < 128,
                    pow2((8 * (l - 1)) as nat) >= 1,
            ;
            lemma_pow2_increases((8 * l - 1) as nat, 127);
        }
        acc as i128
    }
}

/// ASCII decimal digit.
pub open spec fn is_dec_digit(b: u8) -> bool {
    48 <= b <= 57
}

/// Body of a rendered decimal: digit bytes with radix points in between.
pub open spec fn digits_and_dots(s: Seq<u8>) -> bool {
    forall|i: int| 0 <= i < s.len() ==> is_dec_digit(#[trigger] s[i]) || s[i] == 46
}

/// Number of digit bytes; radix points do not count.
pub open spec fn digit_count(s: Seq<u8>) -> nat
    decreases s.len(),
{
    if s.len() == 0 {
        0
    } else if s.last() == 46 {
        digit_count(s.drop_last())
    } else {
        digit_count(s.drop_last()) + 1
    }
}

/// Unsigned value of the digits with the radix point stripped: the decimal
/// scaled to an integer, as the binary encoding stores it.
pub open spec fn magnitude_value(s: Seq<u8>) -> nat
    decreases s.len(),
{
    if s.len() == 0 {
        0
    } else if s.last() == 46 {
        magnitude_value(s.drop_last())
    } else {
        magnitude_value(s.drop_last()) * 10 + (s.last() - 48) as nat
    }
}

/// Signed value of rendered decimal text, radix point stripped.
pub open spec fn decimal_text_value(s: Seq<u8>) -> int {
    if s.len() > 0 && s[0] == 45 {
        -(magnitude_value(s.skip(1)) as int)
    } else if s.len() > 0 && s[0] == 43 {
        magnitude_value(s.skip(1)) as int
    } else {
        magnitude_value(s) as int
    }
}

/// Well-formed rendering of a decimal of the given precision: an optional
/// sign, then digits and radix points, with at most `precision` digits.
/// The source's own rendering of a declared decimal column is trusted to
/// have this shape.
pub open spec fn wf_decimal_text(s: Seq<u8>, precision: nat) -> bool {
    s.len() > 0 && if s[0] == 45 || s[0] == 43 {
        s.len() > 1 && digits_and_dots(s.skip(1)) && digit_count(s.skip(1)) <= precision
    } else {
        digits_and_dots(s) && digit_count(s) <= precision
    }
}

/// Integer text: an optional sign, then only digits.
pub open spec fn wf_integer_text(s: Seq<u8>, max_digits: nat) -> bool {
    s.len() > 0 && if s[0] == 45 || s[0] == 43 {
        s.len() > 1 && digit_count(s.skip(1)) <= max_digits && forall|i: int|
            1 <= i < s.len() ==> is_dec_digit(#[trigger] s[i])
    } else {
        digit_count(s) <= max_digits && forall|i: int|
            0 <= i < s.len() ==> is_dec_digit(#[trigger] s[i])
    }
}

/// `p` digits denote a value below 10^p, radix points notwithstanding.
pub proof fn lemma_magnitude_bound(s: Seq<u8>)
    requires
        digits_and_dots(s),
    ensures
        magnitude_value(s) < pow10(digit_count(s)),
    decreases s.len(),
{
    if s.len() == 0 {
    } else {
        assert(digits_and_dots(s.drop_last())) by {
            assert(forall|i: int| 0 <= i < s.len() - 1 ==> s.drop_last()[i] == #[trigger] s[i]);
        }
        lemma_magnitude_bound(s.drop_last());
        if s.last() == 46 {
        } else {
            assert(pow10(digit_count(s.drop_last()) + 1) == 10 * pow10(digit_count(s.drop_last())));
        }
    }
}

/// A prefix never holds more digits than the whole.
pub proof fn lemma_digit_count_take(s: Seq<u8>, i: int)
    requires
        0 <= i <= s.len(),
    ensures
        digit_count(s.take(i)) <= digit_count(s),
    decreases s.len() - i,
{
    if i == s.len() {
        assert(s.take(i) =~= s);
    } else {
        lemma_digit_count_take(s, i + 1);
        assert(s.take(i + 1).drop_last() =~= s.take(i));
    }
}

/// Up to the largest supported precision, the staging length stays within
/// the sixteen bytes that 128-bit arithmetic covers.
pub proof fn lemma_dec_len_le_16(p: nat)
    requires
        p <= 38,
    ensures
        1 <= dec_len(p) <= 16,
{
    lemma_dec_len_min(p);
    if dec_len(p) > 16 {
        lemma_pow10_38_lt_pow2_127();
        lemma_pow10_increases(p, 38);
        assert(pow10(p) > pow2((8 * 16 - 1) as nat));
    }
}

/// Integer text of at most 18 digits denotes a value inside the signed
/// 64-bit range.
pub proof fn lemma_integer_text_fits_i64(s: Seq<u8>)
    requires
        wf_integer_text(s, 18),
    ensures
        i64::MIN <= decimal_text_value(s) <= i64::MAX,
{
    assert(pow10(18) == 1_000_000_000_000_000_000) by {
        reveal_with_fuel(pow10, 19);
    }
    if s[0] == 45 || s[0] == 43 {
        assert(digits_and_dots(s.skip(1)));
        lemma_magnitude_bound(s.skip(1));
        lemma_pow10_increases(digit_count(s.skip(1)), 18);
    } else {
        assert(digits_and_dots(s));
        lemma_magnitude_bound(s);
        lemma_pow10_increases(digit_count(s), 18);
    }
}

/// Parses rendered decimal text into the integer it denotes once the radix
/// point is stripped: digits are read left to right, the optional leading
/// sign is applied.
pub fn parse_decimal_text(text: &Vec<u8>, precision: usize) -> (v: i128)
    requires
        precision <= 38,
        wf_decimal_text(text@, precision as nat),
    ensures
        v == decimal_text_value(text@),
{
    proof {
        lemma_pow10_38_lt_pow2_127();
        lemma_pow2_127_value();
    }
    let n = text.len();
    let first = text[0];
    let neg = first == 45;
    let start: usize = if first == 45 || first == 43 {
        1
    } else {
        0
    };
    let ghost body = text@.skip(start as int);
    let mut acc: u128 = 0;
    let mut i: usize = start;
    proof {
        assert(body.take(0).len() == 0);
        assert(magnitude_value(body.take(0)) == 0);
        if start == 0 {
            assert(text@.skip(0) =~= text@);
        }
    }
    while i < n
        invariant
            start <= i <= n == text@.len(),
            start <= 1,
            n >= 1,
            precision <= 38,
            body == text@.skip(start as int),
            digits_and_dots(body),
            digit_count(body) <= precision,
            acc == magnitude_value(body.take(i - start)),
            pow10(38) < pow2(127),
            pow2(127) == 0x8000_0000_0000_0000_0000_0000_0000_0000u128,
        decreases n - i,
    {
        let b = text[i];
        proof {
            let pre = body.take(i - start);
            let pre1 = body.take(i + 1 - start);
            assert(pre1.drop_last() =~= pre);
            assert(pre1.last() == body[i - start]);
            assert(body[i - start] == text@[i as int]);
            assert(digits_and_dots(pre)) by {
                assert(forall|j: int| 0 <= j < pre.len() ==> pre[j] == #[trigger] body[j]);
            }
            lemma_magnitude_bound(pre);
            lemma_digit_count_take(body, i + 1 - start);
            if text@[i as int] != 46 {
                assert(digit_count(pre1) == digit_count(pre) + 1);
                lemma_pow10_increases(digit_count(pre) + 1, 38);
                assert(pow10(digit_count(pre) + 1) == 10 * pow10(digit_count(pre)));
            }
        }
        if b != 46 {
            acc = acc * 10 + ((b - 48) as u128);
        }
        i = i + 1;
    }
    proof {
        assert(body.take(n - start) =~= body);
        lemma_magnitude_bound(body);
        lemma_pow10_increases(digit_count(body), 38);
    }
    if neg {
        -(acc as i128)
    } else {
        acc as i128
    }
}

/// Encodes one rendered decimal value into exactly `l` big-endian
/// two's-complement bytes, `l` being the staging length for `precision`.
pub fn encode_decimal(text: &Vec<u8>, precision: usize, l: usize) -> (r: Vec<u8>)
    requires
        precision <= 38,
        wf_decimal_text(text@, precision as nat),
        l == dec_len(precision as nat),
    ensures
        r@.len() == l,
        twos_complement_value(r@) == decimal_text_value(text@),
{
    proof {
        lemma_dec_len_min(precision as nat);
        lemma_pow10_38_lt_pow2_127();
        // Were 16 bytes not enough, byte count 16 would be among the
        // failing lengths, contradicting 10^precision <= 10^38 < 2^127.
        if dec_len(precision as nat) > 16 {
            lemma_pow10_increases(precision as nat, 38);
            assert(pow10(precision as nat) > pow2((8 * 16 - 1) as nat));
        }
        // The encoded value is bounded by the staged precision.
        if text@[0] == 45 || text@[0] == 43 {
            lemma_magnitude_bound(text@.skip(1));
            lemma_pow10_increases(digit_count(text@.skip(1)), precision as nat);
        } else {
            lemma_magnitude_bound(text@);
            lemma_pow10_increases(digit_count(text@), precision as nat);
        }
        lemma_pow10_increases(precision as nat, 38);
    }
    let v = parse_decimal_text(text, precision);
    encode_twos_complement(v, l)
}

} // verus!
