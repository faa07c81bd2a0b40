use vstd::prelude::*;

use crate::error::Error;

verus! {

/// Number of bytes held by the device buffer.
pub const BUFFER_SIZE: usize = 0x1000;

/// How many bytes a transfer of `requested` bytes at `offset` moves: none from the
/// end of the buffer on, else as many as fit between `offset` and the end.
pub open spec fn transfer_len(offset: int, requested: int) -> int {
    if offset >= BUFFER_SIZE {
        0
    } else if requested <= BUFFER_SIZE - offset {
        requested
    } else {
        BUFFER_SIZE - offset
    }
}

/// `buf` after `src` was written at `offset`: the first `transfer_len` bytes of
/// `src` replace those of `buf` from `offset` on, every other byte stays.
pub open spec fn overwrite(buf: Seq<u8>, src: Seq<u8>, offset: int) -> Seq<u8> {
    let n = transfer_len(offset, src.len() as int);
    Seq::new(
        buf.len(),
        |i: int|
            if offset <= i < offset + n {
                src[i - offset]
            } else {
                buf[i]
            },
    )
}

/// The bytes that a read of up to `requested` bytes at `offset` hands out.
pub open spec fn read_bytes(buf: Seq<u8>, offset: int, requested: int) -> Seq<u8> {
    if offset >= BUFFER_SIZE {
        Seq::empty()
    } else {
        buf.subrange(offset, offset + transfer_len(offset, requested))
    }
}

/// Clamps a transfer of `requested` bytes at `offset` to the buffer:
/// `None` where `offset` lies at or beyond the end, else the count to copy.
pub fn clamp_transfer(offset: u64, requested: usize) -> (r: Option<usize>)
    ensures
        offset >= BUFFER_SIZE <==> r is None,
        r matches Some(n) ==> n == transfer_len(offset as int, requested as int),
{
    if offset >= BUFFER_SIZE as u64 {
        return None;
    }
    let remaining = BUFFER_SIZE - offset as usize;
    if requested <= remaining {
        Some(requested)
    } else {
        Some(remaining)
    }
}

/// The bytes that a write of `w.0` at offset `w.1` covers: `[w.1, w.1 + count)`.
pub open spec fn covers(w: (Seq<u8>, int), i: int) -> bool {
    w.1 <= i < w.1 + transfer_len(w.1, w.0.len() as int)
}

/// Two writes whose covered ranges share no byte.
pub open spec fn disjoint_writes(a: (Seq<u8>, int), b: (Seq<u8>, int)) -> bool {
    forall|i: int| !(#[trigger] covers(a, i) && covers(b, i))
}

/// `buf` after the writes in `writes` were applied one after another, in order.
pub open spec fn apply_writes(buf: Seq<u8>, writes: Seq<(Seq<u8>, int)>) -> Seq<u8>
    decreases writes.len(),
{
    if writes.len() == 0 {
        buf
    } else {
        let last = writes.last();
        overwrite(apply_writes(buf, writes.drop_last()), last.0, last.1)
    }
}

/// Reading back at offset zero as many bytes as were written there yields exactly
/// what was written, whatever the buffer held before.
pub proof fn lemma_write_then_read(buf: Seq<u8>, s: Seq<u8>)
    requires
        buf.len() == BUFFER_SIZE,
        s.len() <= BUFFER_SIZE,
    ensures
        read_bytes(overwrite(buf, s, 0), 0, s.len() as int) == s,
{
    assert(read_bytes(overwrite(buf, s, 0), 0, s.len() as int) =~= s);
}

proof fn lemma_apply_writes_len(buf: Seq<u8>, writes: Seq<(Seq<u8>, int)>)
    ensures
        apply_writes(buf, writes).len() == buf.len(),
    decreases writes.len(),
{
    if writes.len() > 0 {
        lemma_apply_writes_len(buf, writes.drop_last());
    }
}

proof fn lemma_apply_writes_byte(buf: Seq<u8>, writes: Seq<(Seq<u8>, int)>, k: int, i: int)
    requires
        buf.len() == BUFFER_SIZE,
        0 <= k < writes.len(),
        0 <= writes[k].1,
        covers(writes[k], i),
        forall|a: int, b: int|
            0 <= a < writes.len() && 0 <= b < writes.len() && a != b ==> disjoint_writes(
                #[trigger] writes[a],
                #[trigger] writes[b],
            ),
    ensures
        apply_writes(buf, writes)[i] == writes[k].0[i - writes[k].1],
    decreases writes.len(),
{
    let prefix = writes.drop_last();
    lemma_apply_writes_len(buf, prefix);
    let last = writes.last();
    if k < writes.len() - 1 {
        assert(disjoint_writes(writes[k], writes[writes.len() - 1]));
        assert(!covers(last, i));
        assert(prefix[k] == writes[k]);
        assert forall|a: int, b: int|
            0 <= a < prefix.len() && 0 <= b < prefix.len() && a != b implies disjoint_writes(
            #[trigger] prefix[a],
            #[trigger] prefix[b],
        ) by {
            assert(prefix[a] == writes[a] && prefix[b] == writes[b]);
        }
        lemma_apply_writes_byte(buf, prefix, k, i);
    }
}

/// Writers whose ranges are pairwise disjoint each find their own bytes in place
/// once all of them were applied, in whatever order the lock let them through.
pub proof fn lemma_disjoint_writes_kept(buf: Seq<u8>, writes: Seq<(Seq<u8>, int)>)
    requires
        buf.len() == BUFFER_SIZE,
        forall|k: int| 0 <= k < writes.len() ==> 0 <= (#[trigger] writes[k]).1,
        forall|a: int, b: int|
            0 <= a < writes.len() && 0 <= b < writes.len() && a != b ==> disjoint_writes(
                #[trigger] writes[a],
                #[trigger] writes[b],
            ),
    ensures
        forall|k: int|
            0 <= k < writes.len() ==> read_bytes(
                apply_writes(buf, writes),
                (#[trigger] writes[k]).1,
                writes[k].0.len() as int,
            ) == writes[k].0.take(transfer_len(writes[k].1, writes[k].0.len() as int)),
{
    lemma_apply_writes_len(buf, writes);
    assert forall|k: int| 0 <= k < writes.len() implies read_bytes(
        apply_writes(buf, writes),
        (#[trigger] writes[k]).1,
        writes[k].0.len() as int,
    ) == writes[k].0.take(transfer_len(writes[k].1, writes[k].0.len() as int)) by {
        let w = writes[k];
        let n = transfer_len(w.1, w.0.len() as int);
        if w.1 < BUFFER_SIZE {
            assert forall|i: int| w.1 <= i < w.1 + n implies apply_writes(buf, writes)[i]
                == w.0[i - w.1] by {
                assert(covers(w, i));
                lemma_apply_writes_byte(buf, writes, k, i);
            }
            assert(read_bytes(apply_writes(buf, writes), w.1, w.0.len() as int) =~= w.0.take(n));
        } else {
            assert(read_bytes(apply_writes(buf, writes), w.1, w.0.len() as int) =~= w.0.take(n));
        }
    }
}

/// The byte array behind the device: always exactly `BUFFER_SIZE` bytes.
pub struct Storage {
    bytes: Vec<u8>,
}

impl View for Storage {
    type V = Seq<u8>;

    closed spec fn view(&self) -> Seq<u8> {
        self.bytes@
    }
}

impl Storage {
    /// The length never changes.
    pub open spec fn wf(&self) -> bool {
        self@.len() == BUFFER_SIZE
    }

    /// A zero-filled buffer.
    pub fn new() -> (s: Storage)
        ensures
            s.wf(),
            s@ == Seq::new(BUFFER_SIZE as nat, |i: int| 0u8),
    {
        let mut bytes: Vec<u8> = Vec::with_capacity(BUFFER_SIZE);
        let mut i: usize = 0;
        while i < BUFFER_SIZE
            invariant
                i <= BUFFER_SIZE,
                bytes@.len() == i,
                forall|j: int| 0 <= j < i ==> bytes@[j] == 0u8,
            decreases BUFFER_SIZE - i,
        {
            bytes.push(0u8);
            i = i + 1;
        }
        let s = Storage { bytes };
        assert(s@ =~= Seq::new(BUFFER_SIZE as nat, |i: int| 0u8));
        s
    }

    /// Writes `source` at `offset`. Past the end this is an error and nothing
    /// changes; otherwise as many bytes as fit are copied and their count returned.
    pub fn write_at(&mut self, source: &[u8], offset: u64) -> (r: Result<usize, Error>)
        requires
            old(self).wf(),
        ensures
            final(self).wf(),
            offset >= BUFFER_SIZE ==> r == Err::<usize, Error>(Error::InvalidArgument),
            offset >= BUFFER_SIZE ==> final(self)@ == old(self)@,
            offset < BUFFER_SIZE ==> r == Ok::<usize, Error>(
                transfer_len(offset as int, source@.len() as int) as usize,
            ),
            offset < BUFFER_SIZE ==> final(self)@ == overwrite(old(self)@, source@, offset as int),
    {
        let n = match clamp_transfer(offset, source.len()) {
            None => return Err(Error::InvalidArgument),
            Some(n) => n,
        };
        let start = offset as usize;
        let mut i: usize = 0;
        while i < n
            invariant
                start == offset,
                start < BUFFER_SIZE,
                n == transfer_len(offset as int, source@.len() as int),
                i <= n,
                self.bytes@.len() == BUFFER_SIZE,
                forall|j: int|
                    0 <= j < BUFFER_SIZE ==> self.bytes@[j] == (if start <= j < start + i {
                        source@[j - start]
                    } else {
                        old(self).bytes@[j]
                    }),
            decreases n - i,
        {
            self.bytes.set(start + i, source[i]);
            i = i + 1;
        }
        assert(self@ =~= overwrite(old(self)@, source@, offset as int));
        Ok(n)
    }

    /// Copies the bytes at `offset` into the front of `dest`, as many as `dest`
    /// holds and the buffer has from `offset` on, and returns their count.
    /// From the end of the buffer on that count is zero. The rest of `dest` stays.
    pub fn read_into(&self, dest: &mut Vec<u8>, offset: u64) -> (n: usize)
        requires
            self.wf(),
        ensures
            n == transfer_len(offset as int, old(dest)@.len() as int),
            final(dest)@.len() == old(dest)@.len(),
            final(dest)@.take(n as int) == read_bytes(self@, offset as int, old(dest)@.len() as int),
            final(dest)@.skip(n as int) == old(dest)@.skip(n as int),
    {
        let n = match clamp_transfer(offset, dest.len()) {
            None => return 0,
            Some(n) => n,
        };
        let start = offset as usize;
        let mut i: usize = 0;
        while i < n
            invariant
                start == offset,
                start < BUFFER_SIZE,
                self.wf(),
                n == transfer_len(offset as int, old(dest)@.len() as int),
                i <= n,
                dest@.len() == old(dest)@.len(),
                forall|j: int|
                    0 <= j < dest@.len() ==> dest@[j] == (if j < i {
                        self@[start + j]
                    } else {
                        old(dest)@[j]
                    }),
            decreases n - i,
        {
            dest.set(i, self.bytes[start + i]);
            i = i + 1;
        }
        assert(dest@.take(n as int) =~= read_bytes(self@, offset as int, old(dest)@.len() as int));
        assert(dest@.skip(n as int) =~= old(dest)@.skip(n as int));
        n
    }
}

} // verus!
