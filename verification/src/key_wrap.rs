//! AES key unwrapping as RFC 3394 defines it, over a 256-bit key-encryption key.

use vstd::prelude::*;
use crate::error::ExportError;
use crate::primitives::{aes256_decrypt, aes256_decrypt_block};

verus! {

/// The bytes of `a` combined with those of `b` by exclusive or.
pub open spec fn xor_bytes(a: Seq<u8>, b: Seq<u8>) -> Seq<u8> {
    Seq::new(a.len(), |i: int| a[i] ^ b[i])
}

/// The eight bytes of `t`, big-endian.
pub open spec fn be_bytes_u64(t: u64) -> Seq<u8> {
    seq![
        (t >> 56u64) as u8,
        (t >> 48u64) as u8,
        (t >> 40u64) as u8,
        (t >> 32u64) as u8,
        (t >> 24u64) as u8,
        (t >> 16u64) as u8,
        (t >> 8u64) as u8,
        t as u8,
    ]
}

/// The initial value that RFC 3394 expects in the integrity register.
pub open spec fn rfc3394_iv() -> Seq<u8> {
    Seq::new(8, |i: int| 0xA6u8)
}

/// One unwrapping step with counter `t` on block `idx` (counted from 0):
/// the register, xored with the counter, and the block are decrypted together;
/// the first half becomes the register, the second half the block.
pub open spec fn unwrap_step(kek: Seq<u8>, a: Seq<u8>, r: Seq<Seq<u8>>, t: u64, idx: int) -> (
    Seq<u8>,
    Seq<Seq<u8>>,
) {
    let b = aes256_decrypt(kek, xor_bytes(a, be_bytes_u64(t)) + r[idx]);
    (b.subrange(0, 8), r.update(idx, b.subrange(8, 16)))
}

/// The state after the first `steps` steps of round `j` over `n` blocks; the
/// round takes the blocks from the last to the first, with counter `n * j + i`
/// for block `i` counted from 1.
pub open spec fn unwrap_round(kek: Seq<u8>, a: Seq<u8>, r: Seq<Seq<u8>>, n: nat, j: nat, steps: nat) -> (
    Seq<u8>,
    Seq<Seq<u8>>,
)
    decreases steps,
{
    if steps == 0 {
        (a, r)
    } else {
        let prev = unwrap_round(kek, a, r, n, j, (steps - 1) as nat);
        let i = n - (steps - 1);
        unwrap_step(kek, prev.0, prev.1, (n * j + i) as u64, i - 1)
    }
}

/// The state after the first `done` rounds, which run `j` from 5 down.
pub open spec fn unwrap_rounds(kek: Seq<u8>, a: Seq<u8>, r: Seq<Seq<u8>>, n: nat, done: nat) -> (
    Seq<u8>,
    Seq<Seq<u8>>,
)
    decreases done,
{
    if done == 0 {
        (a, r)
    } else {
        let prev = unwrap_rounds(kek, a, r, n, (done - 1) as nat);
        unwrap_round(kek, prev.0, prev.1, n, (6 - done) as nat, n)
    }
}

/// The 64-bit blocks of a wrapped key after its first.
pub open spec fn wrapped_blocks(wrapped: Seq<u8>) -> Seq<Seq<u8>> {
    Seq::new((wrapped.len() / 8 - 1) as nat, |i: int| wrapped.subrange(8 + 8 * i, 16 + 8 * i))
}

/// The register and blocks at the end of the six rounds.
pub open spec fn unwrap_final_state(kek: Seq<u8>, wrapped: Seq<u8>) -> (Seq<u8>, Seq<Seq<u8>>) {
    unwrap_rounds(
        kek,
        wrapped.subrange(0, 8),
        wrapped_blocks(wrapped),
        (wrapped.len() / 8 - 1) as nat,
        6,
    )
}

/// RFC 3394 unwrapping: the key, when the integrity register ends with the
/// initial value, and nothing otherwise.
pub open spec fn rfc3394_unwrap(kek: Seq<u8>, wrapped: Seq<u8>) -> Option<Seq<u8>> {
    let state = unwrap_final_state(kek, wrapped);
    if state.0 == rfc3394_iv() {
        Some(state.1.flatten())
    } else {
        None
    }
}

/// Whether `wrapped` has a length that RFC 3394 unwrapping accepts here: at
/// least three 64-bit blocks, and whole blocks.
pub open spec fn wrapped_len_ok(len: nat) -> bool {
    len >= 24 && len % 8 == 0
}

/// The eight bytes at `pos`.
fn read_block8(bytes: &[u8], pos: usize) -> (block: [u8; 8])
    requires
        pos + 8 <= bytes@.len(),
    ensures
        block@ == bytes@.subrange(pos as int, pos + 8),
{
    let block = [
        bytes[pos],
        bytes[pos + 1],
        bytes[pos + 2],
        bytes[pos + 3],
        bytes[pos + 4],
        bytes[pos + 5],
        bytes[pos + 6],
        bytes[pos + 7],
    ];
    assert(block@ =~= bytes@.subrange(pos as int, pos + 8));
    block
}

/// The register xored with the big-endian counter, followed by a block.
fn counter_block(a: &[u8; 8], t: u64, r: &[u8; 8]) -> (block: [u8; 16])
    ensures
        block@ == xor_bytes(a@, be_bytes_u64(t)) + r@,
{
    let block = [
        a[0] ^ ((t >> 56u64) as u8),
        a[1] ^ ((t >> 48u64) as u8),
        a[2] ^ ((t >> 40u64) as u8),
        a[3] ^ ((t >> 32u64) as u8),
        a[4] ^ ((t >> 24u64) as u8),
        a[5] ^ ((t >> 16u64) as u8),
        a[6] ^ ((t >> 8u64) as u8),
        a[7] ^ (t as u8),
        r[0],
        r[1],
        r[2],
        r[3],
        r[4],
        r[5],
        r[6],
        r[7],
    ];
    assert(block@ =~= xor_bytes(a@, be_bytes_u64(t)) + r@);
    block
}

pub open spec fn blocks_view(r: Seq<[u8; 8]>) -> Seq<Seq<u8>> {
    r.map_values(|b: [u8; 8]| b@)
}

/// Unwraps `wrapped` under the 32-byte key-encryption key `kek`.
pub fn aes_key_unwrap(kek: &[u8], wrapped: &[u8]) -> (result: Result<Vec<u8>, ExportError>)
    ensures
        kek@.len() != 32 ==> result matches Err(ExportError::KekLength),
        kek@.len() == 32 && !wrapped_len_ok(wrapped@.len()) ==> (result matches Err(
            ExportError::WrappedKeyLength { len },
        ) && len == wrapped@.len()),
        kek@.len() == 32 && wrapped_len_ok(wrapped@.len()) ==> match rfc3394_unwrap(kek@, wrapped@) {
            Some(key) => (result matches Ok(v) && v@ == key),
            None => result matches Err(ExportError::KeyWrapIntegrity),
        },
        result matches Ok(v) ==> v@.len() == wrapped@.len() - 8,
{
    if kek.len() != 32 {
        return Err(ExportError::KekLength);
    }
    if wrapped.len() < 24 || wrapped.len() % 8 != 0 {
        return Err(ExportError::WrappedKeyLength { len: wrapped.len() });
    }
    let n: usize = wrapped.len() / 8 - 1;
    let ghost a0 = wrapped@.subrange(0, 8);
    let ghost r0 = wrapped_blocks(wrapped@);
    let mut a = read_block8(wrapped, 0);
    let mut r: Vec<[u8; 8]> = Vec::new();
    let mut k: usize = 0;
    assert(8 * n + 8 == wrapped@.len());
    while k < n
        invariant
            n == wrapped@.len() / 8 - 1,
            8 * n + 8 == wrapped@.len(),
            wrapped@.len() == wrapped.len(),
            wrapped@.len() >= 24,
            k <= n,
            r@.len() == k,
            forall|m: int| 0 <= m < k ==> (#[trigger] r@[m])@ == r0[m],
            r0 == wrapped_blocks(wrapped@),
        decreases n - k,
    {
        r.push(read_block8(wrapped, 8 + 8 * k));
        k = k + 1;
    }
    assert(blocks_view(r@) =~= r0);
    assert(n as u64 * 6 <= u64::MAX) by (nonlinear_arith)
        requires
            n <= usize::MAX / 8,
            usize::MAX <= u64::MAX;
    let mut round: usize = 0;
    while round < 6
        invariant
            kek@.len() == 32,
            n == wrapped@.len() / 8 - 1,
            n >= 2,
            n * 6 <= u64::MAX,
            round <= 6,
            r@.len() == n,
            (a@, blocks_view(r@)) == unwrap_rounds(kek@, a0, r0, n as nat, round as nat),
        decreases 6 - round,
    {
        let j: usize = 5 - round;
        let ghost a_start = a@;
        let ghost r_start = blocks_view(r@);
        let mut step: usize = 0;
        while step < n
            invariant
                kek@.len() == 32,
                n >= 2,
                n * 6 <= u64::MAX,
                j <= 5,
                step <= n,
                r@.len() == n,
                (a@, blocks_view(r@)) == unwrap_round(kek@, a_start, r_start, n as nat, j as nat, step as nat),
            decreases n - step,
        {
            let i: usize = n - step;
            assert(n as u64 * j as u64 + i as u64 <= u64::MAX) by (nonlinear_arith)
                requires
                    j <= 5,
                    i <= n,
                    n * 6 <= u64::MAX;
            let t: u64 = n as u64 * j as u64 + i as u64;
            let block = counter_block(&a, t, &r[i - 1]);
            let plain = aes256_decrypt_block(kek, &block);
            let ghost before = blocks_view(r@);
            a = [plain[0], plain[1], plain[2], plain[3], plain[4], plain[5], plain[6], plain[7]];
            let low = [
                plain[8],
                plain[9],
                plain[10],
                plain[11],
                plain[12],
                plain[13],
                plain[14],
                plain[15],
            ];
            r.set(i - 1, low);
            proof {
                assert(a@ =~= plain@.subrange(0, 8));
                assert(low@ =~= plain@.subrange(8, 16));
                assert(blocks_view(r@) =~= before.update(i - 1, plain@.subrange(8, 16)));
            }
            step = step + 1;
        }
        round = round + 1;
    }
    if a[0] != 0xA6 || a[1] != 0xA6 || a[2] != 0xA6 || a[3] != 0xA6 || a[4] != 0xA6 || a[5] != 0xA6
        || a[6] != 0xA6 || a[7] != 0xA6 {
        proof {
            assert(a@ != rfc3394_iv()) by {
                if a@ == rfc3394_iv() {
                    assert(a@[0] == rfc3394_iv()[0]);
                    assert(a@[1] == rfc3394_iv()[1]);
                    assert(a@[2] == rfc3394_iv()[2]);
                    assert(a@[3] == rfc3394_iv()[3]);
                    assert(a@[4] == rfc3394_iv()[4]);
                    assert(a@[5] == rfc3394_iv()[5]);
                    assert(a@[6] == rfc3394_iv()[6]);
                    assert(a@[7] == rfc3394_iv()[7]);
                }
            }
        }
        return Err(ExportError::KeyWrapIntegrity);
    }
    assert(a@ =~= rfc3394_iv());
    let mut output: Vec<u8> = Vec::new();
    let mut m: usize = 0;
    while m < n
        invariant
            m <= n,
            r@.len() == n,
            8 * n + 8 == wrapped@.len(),
            output@.len() == 8 * m,
            output@ == blocks_view(r@).take(m as int).flatten(),
        decreases n - m,
    {
        let ghost before = output@;
        output.extend_from_slice(r[m].as_slice());
        proof {
            assert(blocks_view(r@).take(m + 1) =~= blocks_view(r@).take(m as int).push(r@[m as int]@));
            blocks_view(r@).take(m as int).lemma_flatten_push(r@[m as int]@);
        }
        m = m + 1;
    }
    assert(blocks_view(r@).take(n as int) =~= blocks_view(r@));
    Ok(output)
}

} // verus!
