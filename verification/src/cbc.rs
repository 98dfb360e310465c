//! AES-256-CBC decryption with a zero IV, block by block, as the stored files
//! of a backup are read. The caller reads blocks and writes what comes out;
//! these decoders decide what to write.

use vstd::prelude::*;
use crate::error::{EncryptedFile, ExportError};
use crate::manifest::{is_sqlite_header, sqlite_header};
use crate::primitives::{aes256_decrypt, aes256_decrypt_block, seal_secret, secret_bytes, secret_view, SecretKey};

verus! {

/// Sixteen zero bytes: the IV.
pub open spec fn zero_block() -> Seq<u8> {
    Seq::new(16, |i: int| 0u8)
}

/// The bytewise xor of two 16-byte blocks.
pub open spec fn xor_block(a: Seq<u8>, b: Seq<u8>) -> Seq<u8> {
    Seq::new(16, |i: int| a[i] ^ b[i])
}

/// The plaintext blocks of AES-256-CBC with a zero IV: each ciphertext block
/// decrypted and xored with the ciphertext block before it.
pub open spec fn cbc_decrypt_blocks(key: Seq<u8>, blocks: Seq<Seq<u8>>) -> Seq<Seq<u8>> {
    Seq::new(
        blocks.len(),
        |i: int| xor_block(aes256_decrypt(key, blocks[i]), if i == 0 { zero_block() } else { blocks[i - 1] }),
    )
}

/// How many bytes of a final block remain once valid PKCS#7 padding is
/// removed: the last byte `p` counts the padding when `1 <= p <= 16` and the
/// last `p` bytes all equal `p`; otherwise the block is kept whole.
pub open spec fn pkcs7_keep(block: Seq<u8>) -> nat {
    let p = block[15] as int;
    if p == 0 || p > 16 {
        16
    } else if forall|k: int| 16 - p <= k < 16 ==> block[k] == p {
        (16 - p) as nat
    } else {
        16
    }
}

/// Padding is removed only when it is valid PKCS#7 padding: either the block
/// is kept whole, or the removed bytes all hold their own count, between 1
/// and 16.
pub proof fn law_pkcs7_removes_only_valid_padding(block: Seq<u8>)
    requires
        block.len() == 16,
    ensures
        pkcs7_keep(block) <= 16,
        pkcs7_keep(block) < 16 ==> {
            let removed = 16 - pkcs7_keep(block);
            &&& 1 <= removed <= 16
            &&& block[15] == removed
            &&& forall|k: int| pkcs7_keep(block) <= k < 16 ==> block[k] == removed
        },
{
}

/// Valid padding of every length is removed: when the last byte `p` is
/// between 1 and 16 and the last `p` bytes all equal `p`, exactly `16 - p`
/// bytes remain; otherwise the whole block is kept.
pub proof fn law_pkcs7_removes_all_valid_padding(block: Seq<u8>)
    requires
        block.len() == 16,
    ensures
        ({
            let p = block[15] as int;
            (1 <= p <= 16 && forall|k: int| 16 - p <= k < 16 ==> block[k] == p) ==> pkcs7_keep(block) == 16 - p
        }),
        !({
            let p = block[15] as int;
            1 <= p <= 16 && forall|k: int| 16 - p <= k < 16 ==> block[k] == p
        }) ==> pkcs7_keep(block) == 16,
{
}

/// How many bytes of the final block remain once valid PKCS#7 padding is removed.
pub fn pkcs7_unpadded_len(block: &[u8; 16]) -> (keep: usize)
    ensures
        keep == pkcs7_keep(block@),
        ({
            let p = block@[15] as int;
            if 1 <= p <= 16 && forall|k: int| 16 - p <= k < 16 ==> block@[k] == p {
                keep == 16 - p
            } else {
                keep == 16
            }
        }),
{
    let padding = block[15] as usize;
    if padding == 0 || padding > 16 {
        return 16;
    }
    let mut k: usize = 16 - padding;
    while k < 16
        invariant
            1 <= padding <= 16,
            padding == block@[15],
            16 - padding <= k <= 16,
            forall|m: int| 16 - padding <= m < k ==> block@[m] == padding,
        decreases 16 - k,
    {
        if block[k] as usize != padding {
            return 16;
        }
        k = k + 1;
    }
    16 - padding
}

/// Rejects a ciphertext size of `file` that is not a positive number of AES blocks.
pub fn check_block_length(file: EncryptedFile, size: u64) -> (checked: Result<(), ExportError>)
    ensures
        (size == 0 || size % 16 != 0) ==> (checked matches Err(ExportError::InvalidBlockLength { file: f, size: s })
            && f == file && s == size),
        !(size == 0 || size % 16 != 0) ==> checked is Ok,
{
    if size == 0 || size % 16 != 0 {
        Err(ExportError::InvalidBlockLength { file, size })
    } else {
        Ok(())
    }
}

/// Rejects a logical size beyond the encrypted file's size.
pub fn check_logical_size(logical_size: u64, encrypted_size: u64) -> (checked: Result<(), ExportError>)
    ensures
        logical_size > encrypted_size ==> (checked matches Err(ExportError::LogicalSizeTooLarge { logical, encrypted })
            && logical == logical_size && encrypted == encrypted_size),
        logical_size <= encrypted_size ==> checked is Ok,
{
    if logical_size > encrypted_size {
        Err(ExportError::LogicalSizeTooLarge { logical: logical_size, encrypted: encrypted_size })
    } else {
        Ok(())
    }
}

/// What decrypting a stored payload gave.
#[derive(Debug, Clone, PartialEq, Eq)]
pub struct DecryptedPayloadInfo {
    pub size_bytes: u64,
    pub header: [u8; 16],
    pub is_sqlite: bool,
}

/// The description of a decrypted payload of `size_bytes` bytes that starts
/// with `header`.
pub fn payload_info(size_bytes: u64, header: [u8; 16]) -> (info: DecryptedPayloadInfo)
    ensures
        info.size_bytes == size_bytes,
        info.header == header,
        info.is_sqlite == (header@ == sqlite_header()),
{
    let is_sqlite = is_sqlite_header(header.as_slice());
    DecryptedPayloadInfo { size_bytes, header, is_sqlite }
}

/// Rejects a decrypted `file` that does not start with the SQLite header.
pub fn check_decrypted_sqlite(file: EncryptedFile, header: &[u8; 16]) -> (checked: Result<(), ExportError>)
    ensures
        checked is Ok <==> header@ == sqlite_header(),
        checked is Err ==> (checked matches Err(ExportError::DecryptedNotSqlite { file: f }) && f == file),
{
    if is_sqlite_header(header.as_slice()) {
        Ok(())
    } else {
        Err(ExportError::DecryptedNotSqlite { file })
    }
}

/// Overwrites a plaintext block with zeroes once it is no longer needed.
fn wipe_block(block: &mut [u8; 16])
    ensures
        final(block)@ == Seq::new(16, |i: int| 0u8),
{
    let mut i: usize = 0;
    while i < 16
        invariant
            i <= 16,
            forall|k: int| 0 <= k < i ==> block@[k] == 0u8,
        decreases 16 - i,
    {
        block[i] = 0;
        i = i + 1;
    }
    assert(block@ =~= Seq::new(16, |i: int| 0u8));
}

/// The state shared by both decoders: the key, and the ciphertext block before
/// the next one (the IV at first).
struct CbcChain {
    key: SecretKey,
    previous: [u8; 16],
}

impl CbcChain {
    /// Whether the chain stands after the blocks `fed`.
    spec fn after(&self, key: Seq<u8>, fed: Seq<Seq<u8>>) -> bool {
        &&& secret_view(self.key) == key
        &&& key.len() == 32
        &&& self.previous@ == if fed.len() == 0 { zero_block() } else { fed.last() }
    }

    fn new(key: &[u8]) -> (chain: CbcChain)
        requires
            key@.len() == 32,
        ensures
            chain.after(key@, seq![]),
    {
        let chain = CbcChain { key: seal_secret(vstd::slice::slice_to_vec(key)), previous: [0u8; 16] };
        assert(chain.previous@ =~= zero_block());
        chain
    }

    fn decrypt(&mut self, block: [u8; 16], Ghost(key): Ghost<Seq<u8>>, Ghost(fed): Ghost<Seq<Seq<u8>>>) -> (plain: [u8; 16])
        requires
            old(self).after(key, fed),
        ensures
            final(self).after(key, fed.push(block@)),
            plain@ == cbc_decrypt_blocks(key, fed.push(block@))[fed.len() as int],
    {
        let decrypted = aes256_decrypt_block(secret_bytes(&self.key), &block);
        let mut plain = [0u8; 16];
        let mut i: usize = 0;
        while i < 16
            invariant
                i <= 16,
                forall|k: int| 0 <= k < i ==> plain@[k] == decrypted@[k] ^ self.previous@[k],
            decreases 16 - i,
        {
            plain[i] = decrypted[i] ^ self.previous[i];
            i = i + 1;
        }
        proof {
            let all = fed.push(block@);
            assert(all[fed.len() as int] == block@);
            if fed.len() > 0 {
                assert(all[fed.len() - 1] == fed.last());
            }
            assert(plain@ =~= cbc_decrypt_blocks(key, all)[fed.len() as int]);
            assert(all.last() == block@);
        }
        self.previous = block;
        plain
    }
}

/// Decrypts a padded file: every block but the last is written as it comes,
/// and the last loses its PKCS#7 padding.
pub struct PaddedCbcDecoder {
    chain: CbcChain,
    pending: Option<[u8; 16]>,
    key: Ghost<Seq<u8>>,
    fed: Ghost<Seq<Seq<u8>>>,
}

impl PaddedCbcDecoder {
    /// The key and the ciphertext blocks given so far.
    pub closed spec fn state(&self) -> (Seq<u8>, Seq<Seq<u8>>) {
        (self.key@, self.fed@)
    }

    /// Whether the decoder's parts agree with the blocks given so far.
    pub closed spec fn wf(&self) -> bool {
        &&& self.chain.after(self.key@, self.fed@)
        &&& forall|i: int| 0 <= i < self.fed@.len() ==> (#[trigger] self.fed@[i]).len() == 16
        &&& match self.pending {
            None => self.fed@.len() == 0,
            Some(p) => self.fed@.len() > 0 && p@ == cbc_decrypt_blocks(self.key@, self.fed@).last(),
        }
    }

    /// A decoder under `key`; an error when `key` is no AES-256 key.
    pub fn new(key: &[u8]) -> (decoder: Result<PaddedCbcDecoder, ExportError>)
        ensures
            key@.len() != 32 ==> (decoder matches Err(ExportError::AesKeyLength { len }) && len == key@.len()),
            key@.len() == 32 ==> (decoder matches Ok(d) && d.wf() && d.state() == (key@, Seq::<Seq<u8>>::empty())),
    {
        if key.len() != 32 {
            return Err(ExportError::AesKeyLength { len: key.len() });
        }
        Ok(PaddedCbcDecoder { chain: CbcChain::new(key), pending: None, key: Ghost(key@), fed: Ghost(Seq::empty()) })
    }

    /// Takes the next ciphertext block; gives back the plaintext block now known
    /// not to be the last, which the caller writes.
    pub fn push(&mut self, block: [u8; 16]) -> (ready: Option<[u8; 16]>)
        requires
            old(self).wf(),
        ensures
            final(self).wf(),
            final(self).state() == (old(self).state().0, old(self).state().1.push(block@)),
            old(self).state().1.len() == 0 ==> ready is None,
            old(self).state().1.len() > 0 ==> (ready matches Some(p)
                && p@ == cbc_decrypt_blocks(old(self).state().0, old(self).state().1).last()),
    {
        let plain = self.chain.decrypt(block, Ghost(self.key@), Ghost(self.fed@));
        let ghost old_fed = self.fed@;
        proof {
            let all = old_fed.push(block@);
            if old_fed.len() > 0 {
                assert(cbc_decrypt_blocks(self.key@, all)[old_fed.len() - 1]
                    == cbc_decrypt_blocks(self.key@, old_fed).last());
            }
        }
        let ready = self.pending;
        self.pending = Some(plain);
        self.fed = Ghost(old_fed.push(block@));
        proof {
            assert forall|i: int| 0 <= i < self.fed@.len() implies (#[trigger] self.fed@[i]).len() == 16 by {
                if i < old_fed.len() {
                    assert(self.fed@[i] == old_fed[i]);
                }
            }
        }
        ready
    }

    /// The final block without its padding; an error about `file` when no
    /// block came.
    /// The decoder is used up, and its copy of the last plaintext block is
    /// overwritten with zeroes.
    pub fn finish(self, file: EncryptedFile) -> (tail: Result<Vec<u8>, ExportError>)
        requires
            self.wf(),
        ensures
            self.state().1.len() == 0 ==> (tail matches Err(ExportError::NoCompleteBlock { file: f }) && f == file),
            self.state().1.len() > 0 ==> (tail matches Ok(t) && {
                let last = cbc_decrypt_blocks(self.state().0, self.state().1).last();
                t@ == last.take(pkcs7_keep(last) as int)
            }),
    {
        match self.pending {
            None => Err(ExportError::NoCompleteBlock { file }),
            Some(pending) => {
                let mut last = pending;
                let keep = pkcs7_unpadded_len(&last);
                let mut tail: Vec<u8> = Vec::new();
                let mut i: usize = 0;
                while i < keep
                    invariant
                        keep <= 16,
                        i <= keep,
                        tail@ == last@.take(i as int),
                    decreases keep - i,
                {
                    tail.push(last[i]);
                    assert(last@.take(i + 1) =~= last@.take(i as int).push(last@[i as int]));
                    i = i + 1;
                }
                wipe_block(&mut last);
                Ok(tail)
            },
        }
    }
}

/// Decrypts a file whose logical size is known: blocks are decrypted until
/// that many bytes are written, the last one cut short.
pub struct TruncatingCbcDecoder {
    chain: CbcChain,
    logical_size: u64,
    written: u64,
    key: Ghost<Seq<u8>>,
    fed: Ghost<Seq<Seq<u8>>>,
}

/// The bytes written after `count` blocks toward `logical_size` bytes.
pub open spec fn truncated_written(logical_size: nat, count: nat) -> nat {
    if 16 * count <= logical_size {
        16 * count
    } else {
        logical_size
    }
}

/// The truncating decoder writes exactly the logical size: once it needs no
/// more blocks, the bytes written equal the logical size, and it never writes
/// more.
pub proof fn law_truncated_output_is_logical_size(logical_size: nat, count: nat)
    ensures
        truncated_written(logical_size, count) <= logical_size,
        !(truncated_written(logical_size, count) < logical_size) ==> truncated_written(logical_size, count)
            == logical_size,
        truncated_written(logical_size, count + 1) - truncated_written(logical_size, count) <= 16,
{
}

impl TruncatingCbcDecoder {
    /// The key, the logical size and the ciphertext blocks given so far.
    pub closed spec fn state(&self) -> (Seq<u8>, u64, Seq<Seq<u8>>) {
        (self.key@, self.logical_size, self.fed@)
    }

    /// Whether the decoder's parts agree with the blocks given so far.
    pub closed spec fn wf(&self) -> bool {
        &&& self.chain.after(self.key@, self.fed@)
        &&& self.written == truncated_written(self.logical_size as nat, self.fed@.len())
    }

    /// How many bytes have been written.
    pub fn written(&self) -> (written: u64)
        requires
            self.wf(),
        ensures
            written == truncated_written(self.state().1 as nat, self.state().2.len()),
    {
        self.written
    }

    /// Whether more bytes are owed.
    pub fn needs_block(&self) -> (needs: bool)
        requires
            self.wf(),
        ensures
            needs == (truncated_written(self.state().1 as nat, self.state().2.len()) < self.state().1),
    {
        self.written < self.logical_size
    }

    /// A decoder under `key` that writes `logical_size` bytes; an error when
    /// `key` is no AES-256 key.
    pub fn new(key: &[u8], logical_size: u64) -> (decoder: Result<TruncatingCbcDecoder, ExportError>)
        ensures
            key@.len() != 32 ==> (decoder matches Err(ExportError::AesKeyLength { len }) && len == key@.len()),
            key@.len() == 32 ==> (decoder matches Ok(d) && d.wf()
                && d.state() == (key@, logical_size, Seq::<Seq<u8>>::empty())),
    {
        if key.len() != 32 {
            return Err(ExportError::AesKeyLength { len: key.len() });
        }
        Ok(TruncatingCbcDecoder {
            chain: CbcChain::new(key),
            logical_size,
            written: 0,
            key: Ghost(key@),
            fed: Ghost(Seq::empty()),
        })
    }

    /// Takes the next ciphertext block; gives back the bytes of its plaintext
    /// that still belong to the file, which the caller writes.
    pub fn push(&mut self, block: [u8; 16]) -> (bytes: Vec<u8>)
        requires
            old(self).wf(),
            truncated_written(old(self).state().1 as nat, old(self).state().2.len()) < old(self).state().1,
        ensures
            final(self).wf(),
            final(self).state() == (old(self).state().0, old(self).state().1, old(self).state().2.push(block@)),
            bytes@ == cbc_decrypt_blocks(old(self).state().0, old(self).state().2.push(block@)).last().take(
                truncated_written(old(self).state().1 as nat, old(self).state().2.len() + 1)
                    - truncated_written(old(self).state().1 as nat, old(self).state().2.len()),
            ),
    {
        let ghost old_fed = self.fed@;
        let mut plain = self.chain.decrypt(block, Ghost(self.key@), Ghost(self.fed@));
        let remaining = self.logical_size - self.written;
        let keep: usize = if remaining < 16 { remaining as usize } else { 16 };
        let mut bytes: Vec<u8> = Vec::new();
        let mut i: usize = 0;
        while i < keep
            invariant
                keep <= 16,
                i <= keep,
                bytes@ == plain@.take(i as int),
            decreases keep - i,
        {
            bytes.push(plain[i]);
            assert(plain@.take(i + 1) =~= plain@.take(i as int).push(plain@[i as int]));
            i = i + 1;
        }
        self.written = self.written + keep as u64;
        self.fed = Ghost(old_fed.push(block@));
        proof {
            assert(cbc_decrypt_blocks(self.key@, self.fed@).last() == plain@);
        }
        wipe_block(&mut plain);
        bytes
    }
}

/// Flattening blocks of 16 bytes gives 16 bytes per block.
proof fn lemma_flatten_len(blocks: Seq<Seq<u8>>)
    requires
        forall|i: int| 0 <= i < blocks.len() ==> (#[trigger] blocks[i]).len() == 16,
    ensures
        blocks.flatten().len() == 16 * blocks.len(),
    decreases blocks.len(),
{
    if blocks.len() > 0 {
        let rest = blocks.drop_first();
        assert forall|i: int| 0 <= i < rest.len() implies (#[trigger] rest[i]).len() == 16 by {
            assert(rest[i] == blocks[i + 1]);
        }
        lemma_flatten_len(rest);
    }
}

/// Decrypting a prefix of the ciphertext gives the same prefix of the plaintext.
proof fn lemma_cbc_prefix(key: Seq<u8>, blocks: Seq<Seq<u8>>, count: int)
    requires
        0 <= count <= blocks.len(),
    ensures
        cbc_decrypt_blocks(key, blocks.take(count)) =~= cbc_decrypt_blocks(key, blocks).take(count),
{
}

/// What the pushes of a truncating decoder under `key`, writing
/// `logical_size` bytes, have handed out after taking the first `count` of
/// `blocks`: the bytes of each push, one after the other.
pub open spec fn truncated_output(key: Seq<u8>, logical_size: nat, blocks: Seq<Seq<u8>>, count: nat) -> Seq<u8>
    decreases count,
{
    if count == 0 {
        Seq::empty()
    } else {
        truncated_output(key, logical_size, blocks, (count - 1) as nat) + cbc_decrypt_blocks(
            key,
            blocks.take(count as int),
        ).last().take(
            truncated_written(logical_size, count) - truncated_written(logical_size, (count - 1) as nat),
        )
    }
}

/// Together, the pushes of a truncating decoder hand out the CBC plaintext of
/// the blocks taken, cut to the logical size: each push takes a block while
/// more bytes are owed, so after `count` blocks the output is the first
/// `truncated_written` bytes of their plaintext.
pub proof fn law_truncated_decoder_writes_plaintext_prefix(
    key: Seq<u8>,
    logical_size: nat,
    blocks: Seq<Seq<u8>>,
    count: nat,
)
    requires
        count <= blocks.len(),
        forall|i: int| 0 <= i < blocks.len() ==> (#[trigger] blocks[i]).len() == 16,
        count == 0 || 16 * (count - 1) < logical_size,
    ensures
        truncated_output(key, logical_size, blocks, count) == cbc_decrypt_blocks(key, blocks).take(
            count as int,
        ).flatten().take(truncated_written(logical_size, count) as int),
        truncated_output(key, logical_size, blocks, count).len() == truncated_written(logical_size, count),
    decreases count,
{
    let plain = cbc_decrypt_blocks(key, blocks);
    if count == 0 {
        assert(plain.take(0) =~= Seq::<Seq<u8>>::empty());
        assert(plain.take(0).flatten() =~= Seq::<u8>::empty());
    } else {
        let k = (count - 1) as nat;
        law_truncated_decoder_writes_plaintext_prefix(key, logical_size, blocks, k);
        lemma_cbc_prefix(key, blocks, count as int);
        let front = plain.take(k as int);
        assert(plain.take(count as int) =~= front.push(plain[k as int]));
        front.lemma_flatten_push(plain[k as int]);
        lemma_flatten_len(front);
        let w = truncated_written(logical_size, count);
        assert(16 * k <= w <= 16 * k + 16);
        assert(truncated_written(logical_size, k) == 16 * k);
        assert(front.flatten().take(16 * k as int) =~= front.flatten());
        assert((front.flatten() + plain[k as int]).take(w as int) =~= front.flatten() + plain[k as int].take(
            w - 16 * k,
        ));
    }
}

/// What the pushes of a padded decoder under `key` have handed out after
/// taking the first `count` of `blocks`: every plaintext block but the newest.
pub open spec fn padded_ready(key: Seq<u8>, blocks: Seq<Seq<u8>>, count: nat) -> Seq<u8>
    decreases count,
{
    if count <= 1 {
        Seq::empty()
    } else {
        padded_ready(key, blocks, (count - 1) as nat) + cbc_decrypt_blocks(key, blocks.take(count - 1)).last()
    }
}

/// The blocks a padded decoder has handed out are the plaintext of all blocks
/// taken but the newest.
proof fn lemma_padded_ready(key: Seq<u8>, blocks: Seq<Seq<u8>>, count: nat)
    requires
        1 <= count <= blocks.len(),
    ensures
        padded_ready(key, blocks, count) == cbc_decrypt_blocks(key, blocks).take(count - 1).flatten(),
    decreases count,
{
    let plain = cbc_decrypt_blocks(key, blocks);
    if count == 1 {
        assert(plain.take(0) =~= Seq::<Seq<u8>>::empty());
        assert(plain.take(0).flatten() =~= Seq::<u8>::empty());
    } else {
        lemma_padded_ready(key, blocks, (count - 1) as nat);
        lemma_cbc_prefix(key, blocks, count - 1);
        let front = plain.take(count - 2);
        assert(plain.take(count - 1) =~= front.push(plain[count - 2]));
        front.lemma_flatten_push(plain[count - 2]);
    }
}

/// Together, the pushes of a padded decoder and its final block hand out the
/// CBC plaintext of all blocks taken, less the valid PKCS#7 padding at its
/// end: every block but the last whole, then what `pkcs7_keep` leaves of the
/// last.
pub proof fn law_padded_decoder_writes_unpadded_plaintext(key: Seq<u8>, blocks: Seq<Seq<u8>>)
    requires
        blocks.len() > 0,
        forall|i: int| 0 <= i < blocks.len() ==> (#[trigger] blocks[i]).len() == 16,
    ensures
        ({
            let plain = cbc_decrypt_blocks(key, blocks);
            let last = plain.last();
            padded_ready(key, blocks, blocks.len()) + last.take(pkcs7_keep(last) as int) == plain.flatten().take(
                16 * (blocks.len() - 1) + pkcs7_keep(last),
            )
        }),
{
    let plain = cbc_decrypt_blocks(key, blocks);
    let n = blocks.len();
    let last = plain.last();
    lemma_padded_ready(key, blocks, n);
    let front = plain.take(n - 1);
    assert(plain =~= front.push(last));
    front.lemma_flatten_push(last);
    lemma_flatten_len(front);
    assert(last.len() == 16);
    let keep = pkcs7_keep(last);
    assert(keep <= 16);
    assert((front.flatten() + last).take(16 * (n - 1) + keep as int) =~= front.flatten() + last.take(keep as int));
}

} // verus!
