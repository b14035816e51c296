use vstd::prelude::*;

verus! {

/// The plain sum of `b` viewed as big-endian 16-bit words, starting at
/// byte index `i`; a trailing odd byte counts as the high byte of a final
/// word. This is the word sum that the ICMP checksum folds and complements.
pub open spec fn ones_sum_from(b: Seq<u8>, i: int) -> int
    decreases b.len() - i,
{
    if i < 0 || i >= b.len() {
        0
    } else if i + 1 == b.len() {
        (b[i] as int) * 256
    } else {
        (b[i] as int) * 256 + (b[i + 1] as int) + ones_sum_from(b, i + 2)
    }
}

/// The word sum of the whole buffer.
pub open spec fn ones_sum(b: Seq<u8>) -> int {
    ones_sum_from(b, 0)
}

/// Folds the carries of a word sum back into the low 16 bits until the
/// value fits, as one's-complement addition requires.
pub open spec fn fold16(n: int) -> int
    decreases n,
{
    if n <= 0xffff {
        n
    } else {
        fold16(n % 0x10000 + n / 0x10000)
    }
}

/// The ICMP checksum of `b`: the one's complement of the folded word sum.
pub open spec fn checksum16(b: Seq<u8>) -> int {
    0xffff - fold16(ones_sum(b))
}

pub proof fn lemma_ones_sum_from_bounds(b: Seq<u8>, i: int)
    requires
        0 <= i <= b.len(),
    ensures
        0 <= ones_sum_from(b, i) <= (b.len() - i) * 65535,
    decreases b.len() - i,
{
    if i < b.len() && i + 1 < b.len() {
        lemma_ones_sum_from_bounds(b, i + 2);
    }
}

pub proof fn lemma_fold16_bounds(n: int)
    requires
        n >= 0,
    ensures
        0 <= fold16(n) <= 0xffff,
    decreases n,
{
    if n > 0xffff {
        lemma_fold16_bounds(n % 0x10000 + n / 0x10000);
    }
}

/// The checksum always fits an unsigned 16-bit field.
pub proof fn lemma_checksum16_bounds(b: Seq<u8>)
    ensures
        0 <= checksum16(b) <= 0xffff,
{
    lemma_ones_sum_from_bounds(b, 0);
    lemma_fold16_bounds(ones_sum(b));
}

/// Computes the ICMP checksum over `b`: the one's complement of the
/// end-around-carry sum of the big-endian 16-bit words of `b`.
pub fn icmp_checksum(b: &[u8]) -> (r: u16)
    requires
        b@.len() <= 0xffff,
    ensures
        r as int == checksum16(b@),
{
    let n: usize = b.len();
    let mut acc: u64 = 0;
    let mut i: usize = 0;
    proof {
        lemma_ones_sum_from_bounds(b@, 0);
    }
    while i + 1 < n
        invariant
            b@.len() == n,
            n <= 0xffff,
            i <= n,
            acc as int + ones_sum_from(b@, i as int) == ones_sum(b@),
            0 <= acc as int <= ones_sum(b@),
        decreases n - i,
    {
        proof {
            lemma_ones_sum_from_bounds(b@, 0);
            lemma_ones_sum_from_bounds(b@, i as int);
            lemma_ones_sum_from_bounds(b@, i as int + 2);
        }
        acc = acc + (b[i] as u64) * 256 + (b[i + 1] as u64);
        i = i + 2;
    }
    if i < n {
        proof {
            lemma_ones_sum_from_bounds(b@, 0);
            lemma_ones_sum_from_bounds(b@, i as int);
        }
        acc = acc + (b[i] as u64) * 256;
    }
    assert(acc as int == ones_sum(b@));
    let ghost total = ones_sum(b@);
    let mut sum: u64 = acc;
    while sum > 0xffff
        invariant
            fold16(sum as int) == fold16(total),
            sum >= 0,
        decreases sum,
    {
        sum = sum % 0x10000 + sum / 0x10000;
    }
    proof {
        lemma_fold16_bounds(total);
    }
    assert(fold16(sum as int) == sum as int);
    0xffffu16 - (sum as u16)
}

} // verus!
