//! Bits in octets: how a run of bit fields is packed, eight bits to an
//! octet with the first in the lowest bit, and what the writer's and the
//! reader's bit masks say.

use vstd::prelude::*;

verus! {

/// Two to the power `k`, for the bit positions of an octet.
pub open spec fn weight(k: int) -> int {
    if k == 0 {
        1
    } else if k == 1 {
        2
    } else if k == 2 {
        4
    } else if k == 3 {
        8
    } else if k == 4 {
        16
    } else if k == 5 {
        32
    } else if k == 6 {
        64
    } else {
        128
    }
}

/// Bit `k` of the octet `x`, bit 0 being the lowest.
pub open spec fn bit_at(x: u8, k: int) -> bool {
    (x / weight(k) as u8) % 2 == 1
}

/// What the bit at `k` adds to an octet that holds `bits` from bit 0 up.
pub open spec fn bit_value(bits: Seq<bool>, k: int) -> int {
    if k < bits.len() && bits[k] {
        weight(k)
    } else {
        0
    }
}

/// The octet that holds up to eight bits, the first in bit 0.
pub open spec fn octet_of(bits: Seq<bool>) -> u8 {
    (bit_value(bits, 0) + bit_value(bits, 1) + bit_value(bits, 2) + bit_value(bits, 3) + bit_value(
        bits,
        4,
    ) + bit_value(bits, 5) + bit_value(bits, 6) + bit_value(bits, 7)) as u8
}

/// The octets that hold a run of bits: eight to an octet, the first bit of
/// each eight in bit 0, the last octet filled up with zero bits.
#[verifier::opaque]
pub open spec fn pack_bits(bits: Seq<bool>) -> Seq<u8> {
    Seq::new(
        ((bits.len() + 7) / 8) as nat,
        |j: int|
            octet_of(
                bits.subrange(
                    8 * j,
                    if 8 * j + 8 <= bits.len() {
                        8 * j + 8
                    } else {
                        bits.len() as int
                    },
                ),
            ),
    )
}

/// Whether the octets `out` start with the bits of `run`, eight to an octet,
/// lowest bit first.
pub open spec fn holds_bits(out: Seq<u8>, run: Seq<bool>) -> bool {
    &&& (run.len() + 7) / 8 <= out.len()
    &&& forall|i: int| 0 <= i < run.len() ==> bit_at(out[i / 8], i % 8) == #[trigger] run[i]
}

/// Whether `mask` is a power of two below 256, or 0 for a full accumulator.
pub open spec fn mask_ok(mask: u8) -> bool {
    mask == 0 || mask == 1 || mask == 2 || mask == 4 || mask == 8 || mask == 16 || mask == 32
        || mask == 64 || mask == 128
}

/// The number of bits that an accumulator holds, by the mask of its next bit.
pub open spec fn held(mask: u8) -> nat {
    if mask == 1 {
        0
    } else if mask == 2 {
        1
    } else if mask == 4 {
        2
    } else if mask == 8 {
        3
    } else if mask == 16 {
        4
    } else if mask == 32 {
        5
    } else if mask == 64 {
        6
    } else if mask == 128 {
        7
    } else {
        8
    }
}

/// The number of bits that a reader has taken from the octet it holds, by
/// the mask of the next bit.
pub open spec fn taken(mask: u8) -> int {
    if mask == 2 {
        1
    } else if mask == 4 {
        2
    } else if mask == 8 {
        3
    } else if mask == 16 {
        4
    } else if mask == 32 {
        5
    } else if mask == 64 {
        6
    } else if mask == 128 {
        7
    } else {
        0
    }
}

/// The first `n` bits of the octet `x`, lowest first.
pub open spec fn bits_of(x: u8, n: nat) -> Seq<bool> {
    Seq::new(n, |k: int| bit_at(x, k))
}

/// The binary digit at `k` of a number that is written with eight digits.
#[verifier::rlimit(40)]
proof fn lemma_digit(c: Seq<int>, k: int)
    requires
        c.len() == 8,
        forall|i: int| 0 <= i < 8 ==> 0 <= #[trigger] c[i] <= 1,
        0 <= k < 8,
    ensures
        ((c[0] + 2 * c[1] + 4 * c[2] + 8 * c[3] + 16 * c[4] + 32 * c[5] + 64 * c[6] + 128 * c[7])
            / weight(k)) % 2 == c[k],
{
    let x = c[0] + 2 * c[1] + 4 * c[2] + 8 * c[3] + 16 * c[4] + 32 * c[5] + 64 * c[6] + 128 * c[7];
    assert(0 <= c[0] <= 1 && 0 <= c[1] <= 1 && 0 <= c[2] <= 1 && 0 <= c[3] <= 1);
    assert(0 <= c[4] <= 1 && 0 <= c[5] <= 1 && 0 <= c[6] <= 1 && 0 <= c[7] <= 1);
    if k == 0 {
        assert(x / 1 == c[0] + 2 * (c[1] + 2 * c[2] + 4 * c[3] + 8 * c[4] + 16 * c[5] + 32 * c[6]
            + 64 * c[7]));
    } else if k == 1 {
        let high = c[1] + 2 * (c[2] + 2 * c[3] + 4 * c[4] + 8 * c[5] + 16 * c[6] + 32 * c[7]);
        assert(x == 2 * high + c[0]);
        assert(x / 2 == high);
    } else if k == 2 {
        let high = c[2] + 2 * (c[3] + 2 * c[4] + 4 * c[5] + 8 * c[6] + 16 * c[7]);
        assert(x == 4 * high + (c[0] + 2 * c[1]));
        assert(x / 4 == high);
    } else if k == 3 {
        let high = c[3] + 2 * (c[4] + 2 * c[5] + 4 * c[6] + 8 * c[7]);
        assert(x == 8 * high + (c[0] + 2 * c[1] + 4 * c[2]));
        assert(x / 8 == high);
    } else if k == 4 {
        let high = c[4] + 2 * (c[5] + 2 * c[6] + 4 * c[7]);
        assert(x == 16 * high + (c[0] + 2 * c[1] + 4 * c[2] + 8 * c[3]));
        assert(x / 16 == high);
    } else if k == 5 {
        let high = c[5] + 2 * (c[6] + 2 * c[7]);
        assert(x == 32 * high + (c[0] + 2 * c[1] + 4 * c[2] + 8 * c[3] + 16 * c[4]));
        assert(x / 32 == high);
    } else if k == 6 {
        let high = c[6] + 2 * c[7];
        assert(x == 64 * high + (c[0] + 2 * c[1] + 4 * c[2] + 8 * c[3] + 16 * c[4] + 32 * c[5]));
        assert(x / 64 == high);
    } else {
        let high = c[7];
        assert(x == 128 * high + (c[0] + 2 * c[1] + 4 * c[2] + 8 * c[3] + 16 * c[4] + 32 * c[5]
            + 64 * c[6]));
        assert(x / 128 == high);
    }
}

/// Bit `k` of the octet that holds `bits` is `bits[k]`.
pub proof fn lemma_octet_bit(bits: Seq<bool>, k: int)
    requires
        bits.len() <= 8,
        0 <= k < bits.len(),
    ensures
        bit_at(octet_of(bits), k) == bits[k],
{
    let c = Seq::new(
        8,
        |i: int|
            if i < bits.len() && bits[i] {
                1int
            } else {
                0int
            },
    );
    lemma_digit(c, k);
    assert(bit_value(bits, 0) == c[0]);
    assert(bit_value(bits, 1) == 2 * c[1]);
    assert(bit_value(bits, 2) == 4 * c[2]);
    assert(bit_value(bits, 3) == 8 * c[3]);
    assert(bit_value(bits, 4) == 16 * c[4]);
    assert(bit_value(bits, 5) == 32 * c[5]);
    assert(bit_value(bits, 6) == 64 * c[6]);
    assert(bit_value(bits, 7) == 128 * c[7]);
}

/// The octet of a run of bits holds nothing above the run.
pub proof fn lemma_octet_bound(bits: Seq<bool>)
    requires
        bits.len() < 8,
    ensures
        octet_of(bits) < weight(bits.len() as int),
{
}

/// One more bit adds its weight to the octet.
pub proof fn lemma_octet_push(bits: Seq<bool>, b: bool)
    requires
        bits.len() < 8,
    ensures
        octet_of(bits.push(b)) == octet_of(bits) + (if b {
            weight(bits.len() as int)
        } else {
            0
        }),
{
    let more = bits.push(b);
    assert forall|k: int| 0 <= k < 8 implies bit_value(more, k) == bit_value(bits, k) + (if b && k
        == bits.len() {
        weight(k)
    } else {
        0
    }) by {
        if k < bits.len() {
            assert(more[k] == bits[k]);
        }
    }
}

/// A run of one to eight bits fills one octet; an empty run fills none.
pub proof fn lemma_pack_octet(bits: Seq<bool>)
    requires
        bits.len() <= 8,
    ensures
        pack_bits(bits) == if bits.len() == 0 {
            Seq::<u8>::empty()
        } else {
            seq![octet_of(bits)]
        },
{
    reveal(pack_bits);
    if bits.len() > 0 {
        assert(bits.subrange(0, bits.len() as int) =~= bits);
        assert(pack_bits(bits) =~= seq![octet_of(bits)]);
    } else {
        assert(pack_bits(bits) =~= Seq::<u8>::empty());
    }
}

/// A run that is cut at a multiple of eight bits is packed piece by piece.
pub proof fn lemma_pack_split(bits: Seq<bool>, m: int)
    requires
        0 <= m <= bits.len(),
        m % 8 == 0,
    ensures
        pack_bits(bits) == pack_bits(bits.take(m)) + pack_bits(bits.skip(m)),
{
    reveal(pack_bits);
    let head = bits.take(m);
    let tail = bits.skip(m);
    let q = m / 8;
    let whole = pack_bits(bits);
    let parts = pack_bits(head) + pack_bits(tail);
    assert(whole.len() == parts.len());
    assert forall|j: int| 0 <= j < whole.len() implies whole[j] == parts[j] by {
        if j < q {
            assert(bits.subrange(8 * j, 8 * j + 8) =~= head.subrange(8 * j, 8 * j + 8));
        } else {
            let i = j - q;
            let hi = if 8 * j + 8 <= bits.len() {
                8 * j + 8
            } else {
                bits.len() as int
            };
            assert(bits.subrange(8 * j, hi) =~= tail.subrange(8 * i, hi - m));
            assert(parts[j] == pack_bits(tail)[i]);
        }
    }
    assert(whole =~= parts);
}

/// The octets of a run hold its bits.
pub proof fn lemma_pack_holds(run: Seq<bool>)
    ensures
        holds_bits(pack_bits(run), run),
        pack_bits(run).len() == (run.len() + 7) / 8,
{
    reveal(pack_bits);
    let out = pack_bits(run);
    assert forall|i: int| 0 <= i < run.len() implies bit_at(out[i / 8], i % 8)
        == #[trigger] run[i] by {
        let j = i / 8;
        let hi = if 8 * j + 8 <= run.len() {
            8 * j + 8
        } else {
            run.len() as int
        };
        let sub = run.subrange(8 * j, hi);
        lemma_octet_bit(sub, i % 8);
        assert(sub[i % 8] == run[8 * j + i % 8]);
    }
}

/// How the count of octets and the bit cursor move on by one bit.
pub proof fn lemma_bit_step(j: int)
    requires
        j >= 0,
    ensures
        j % 8 == 0 ==> (j + 7) / 8 == j / 8 && (j + 8) / 8 == j / 8 + 1 && (j + 1) % 8 == 1,
        j % 8 != 0 ==> (j + 7) / 8 == j / 8 + 1 && (j + 8) / 8 == j / 8 + 1 && (j + 1) % 8 == (j
            % 8 + 1) % 8,
{
}

} // verus!
