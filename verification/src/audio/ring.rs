//! Fixed-capacity FIFO of samples shared between the decoder and the output callback.
use vstd::prelude::*;

verus! {

/// Position `i` slots after `start` in a circular buffer of `cap` slots.
pub open spec fn wrap(start: int, i: int, cap: int) -> int {
    if start + i < cap {
        start + i
    } else {
        start + i - cap
    }
}

/// How many of `n` offered samples fit into a buffer of `cap` slots holding `len` samples.
pub open spec fn fits(len: nat, cap: nat, n: nat) -> nat {
    if n + len + 1 <= cap {
        n
    } else if len + 1 <= cap {
        (cap - len - 1) as nat
    } else {
        0
    }
}

/// Buffer contents after offering `samples`: the leading samples that fit are appended.
pub open spec fn after_write<T>(contents: Seq<T>, cap: nat, samples: Seq<T>) -> Seq<T> {
    contents + samples.take(fits(contents.len(), cap, samples.len()) as int)
}

/// What a read into `out_len` slots yields: the oldest samples, then silence.
pub open spec fn read_out<T>(contents: Seq<T>, out_len: nat, silence: T) -> Seq<T> {
    Seq::new(out_len, |i: int| if i < contents.len() { contents[i] } else { silence })
}

/// Buffer contents after a read into `out_len` slots.
pub open spec fn after_read<T>(contents: Seq<T>, out_len: nat) -> Seq<T> {
    contents.skip(vstd::math::min(out_len as int, contents.len() as int))
}

/// A circular buffer that keeps one slot free to tell "full" from "empty".
pub struct RingBuffer<T> {
    data: Vec<T>,
    read_pos: usize,
    write_pos: usize,
    capacity: usize,
}

impl<T: Copy> RingBuffer<T> {
    /// Internal consistency of positions and storage.
    pub closed spec fn wf(&self) -> bool {
        &&& self.capacity >= 1
        &&& self.data@.len() == self.capacity
        &&& self.read_pos < self.capacity
        &&& self.write_pos < self.capacity
    }

    /// Number of slots of storage.
    pub closed spec fn cap(&self) -> nat {
        self.capacity as nat
    }

    /// Number of buffered samples.
    pub closed spec fn len(&self) -> nat {
        if self.write_pos >= self.read_pos {
            (self.write_pos - self.read_pos) as nat
        } else {
            (self.capacity - self.read_pos + self.write_pos) as nat
        }
    }

    /// The buffered samples, oldest first.
    pub closed spec fn contents(&self) -> Seq<T> {
        Seq::new(self.len(), |i: int| self.data@[wrap(self.read_pos as int, i, self.capacity as int)])
    }

    /// An empty buffer of `capacity_samples` slots (one of which always stays free).
    pub fn new(capacity_samples: usize, fill: T) -> (r: Self)
        requires
            capacity_samples >= 1,
        ensures
            r.wf(),
            r.cap() == capacity_samples,
            r.contents() == Seq::<T>::empty(),
    {
        let mut data: Vec<T> = Vec::new();
        let mut i: usize = 0;
        while i < capacity_samples
            invariant
                i <= capacity_samples,
                data@.len() == i,
            decreases capacity_samples - i,
        {
            data.push(fill);
            i = i + 1;
        }
        let r = Self { data, read_pos: 0, write_pos: 0, capacity: capacity_samples };
        assert(r.contents() =~= Seq::<T>::empty());
        r
    }

    /// Number of samples that can be read.
    pub fn available_read(&self) -> (n: usize)
        requires
            self.wf(),
        ensures
            n == self.contents().len(),
            n < self.cap(),
    {
        if self.write_pos >= self.read_pos {
            self.write_pos - self.read_pos
        } else {
            self.capacity - self.read_pos + self.write_pos
        }
    }

    /// Number of samples that can be written before the buffer is full.
    pub fn available_write(&self) -> (n: usize)
        requires
            self.wf(),
        ensures
            n == self.cap() - self.contents().len() - 1,
    {
        self.capacity - self.available_read() - 1
    }

    /// Appends as many leading samples of `samples` as fit; returns how many.
    pub fn write(&mut self, samples: &[T]) -> (written: usize)
        requires
            old(self).wf(),
        ensures
            final(self).wf(),
            final(self).cap() == old(self).cap(),
            written == fits(old(self).contents().len(), old(self).cap(), samples@.len()),
            final(self).contents() == after_write(old(self).contents(), old(self).cap(), samples@),
    {
        let mut written: usize = 0;
        while written < samples.len() && self.available_write() > 0
            invariant
                self.wf(),
                self.cap() == old(self).cap(),
                self.read_pos == old(self).read_pos,
                written <= samples@.len(),
                self.contents() == old(self).contents() + samples@.take(written as int),
                self.contents().len() == old(self).contents().len() + written,
            decreases samples@.len() - written,
        {
            let ghost before = self.contents();
            let w = self.write_pos;
            self.data[w] = samples[written];
            self.write_pos = if w + 1 == self.capacity {
                0
            } else {
                w + 1
            };
            written = written + 1;
            proof {
                assert(self.contents().len() == before.len() + 1);
                assert forall|i: int| 0 <= i < before.len() implies self.contents()[i] == before[i] by {
                    assert(wrap(self.read_pos as int, i, self.capacity as int) != w);
                }
                assert(self.contents()[before.len() as int] == samples@[written - 1]);
                assert(self.contents() =~= before.push(samples@[written - 1]));
                assert(samples@.take(written as int) =~= samples@.take(written - 1).push(
                    samples@[written - 1],
                ));
                assert(self.contents() =~= old(self).contents() + samples@.take(written as int));
            }
        }
        written
    }

    /// Fills `out` from the front of the buffer, oldest first; slots past the
    /// buffered samples are set to `silence`. Returns how many samples were read.
    pub fn read(&mut self, out: &mut [T], silence: T) -> (read: usize)
        requires
            old(self).wf(),
        ensures
            final(self).wf(),
            final(self).cap() == old(self).cap(),
            read == vstd::math::min(old(out)@.len() as int, old(self).contents().len() as int),
            final(out)@ == read_out(old(self).contents(), old(out)@.len(), silence),
            final(self).contents() == after_read(old(self).contents(), old(out)@.len()),
    {
        let mut read: usize = 0;
        let mut k: usize = 0;
        while k < out.len()
            invariant
                self.wf(),
                self.cap() == old(self).cap(),
                k <= out@.len(),
                out@.len() == old(out)@.len(),
                read <= k,
                read <= old(self).contents().len(),
                read < k ==> read == old(self).contents().len(),
                read == k || read == old(self).contents().len(),
                out@.take(read as int) == old(self).contents().take(read as int),
                forall|i: int| read <= i < k ==> out@[i] == silence,
                self.contents() == old(self).contents().skip(read as int),
            decreases out@.len() - k,
        {
            let ghost before = self.contents();
            if self.available_read() == 0 {
                out[k] = silence;
                assert(out@.take(read as int) =~= old(out)@.take(0) + out@.take(read as int));
            } else {
                let r = self.read_pos;
                let v = self.data[r];
                out[k] = v;
                self.read_pos = if r + 1 == self.capacity {
                    0
                } else {
                    r + 1
                };
                read = read + 1;
                proof {
                    assert(v == before[0]);
                    assert(self.contents() =~= before.skip(1));
                    assert(old(self).contents().skip(read as int) =~= old(self).contents().skip(
                        (read - 1) as int,
                    ).skip(1));
                    assert(out@.take(read as int) =~= old(self).contents().take(read as int));
                }
            }
            k = k + 1;
        }
        proof {
            let c = old(self).contents();
            assert forall|i: int| 0 <= i < out@.len() implies out@[i] == read_out(
                c,
                old(out)@.len(),
                silence,
            )[i] by {
                if i < read {
                    assert(out@.take(read as int)[i] == c.take(read as int)[i]);
                }
            }
            assert(out@ =~= read_out(c, old(out)@.len(), silence));
        }
        read
    }

    /// Drops every buffered sample.
    pub fn clear(&mut self)
        requires
            old(self).wf(),
        ensures
            final(self).wf(),
            final(self).cap() == old(self).cap(),
            final(self).contents() == Seq::<T>::empty(),
    {
        self.read_pos = 0;
        self.write_pos = 0;
        assert(self.contents() =~= Seq::<T>::empty());
    }
}

/// What is read back is what was written, oldest first: after writing samples
/// that fit, reading the whole buffer yields the earlier contents followed by
/// those samples and leaves the buffer empty.
pub proof fn law_fifo<T>(contents: Seq<T>, cap: nat, samples: Seq<T>, silence: T)
    requires
        contents.len() + samples.len() < cap,
    ensures
        read_out(
            after_write(contents, cap, samples),
            contents.len() + samples.len(),
            silence,
        ) == contents + samples,
        after_read(after_write(contents, cap, samples), contents.len() + samples.len())
            == Seq::<T>::empty(),
{
    assert(samples.take(samples.len() as int) =~= samples);
    assert(read_out(after_write(contents, cap, samples), contents.len() + samples.len(), silence)
        =~= contents + samples);
    assert(after_read(after_write(contents, cap, samples), contents.len() + samples.len())
        =~= Seq::<T>::empty());
}

/// The buffer never holds more than `cap - 1` samples, however much is offered.
pub proof fn law_never_overfills<T>(contents: Seq<T>, cap: nat, samples: Seq<T>)
    requires
        contents.len() < cap,
    ensures
        after_write(contents, cap, samples).len() < cap,
        after_write(contents, cap, samples).len() <= contents.len() + samples.len(),
{
}

/// A read into fewer slots than buffered keeps the rest, in order, for the next read.
pub proof fn law_partial_read_keeps_order<T>(contents: Seq<T>, k: nat, silence: T)
    requires
        k <= contents.len(),
    ensures
        read_out(contents, k, silence) + after_read(contents, k) == contents,
{
    assert(read_out(contents, k, silence) + after_read(contents, k) =~= contents);
}

} // verus!
