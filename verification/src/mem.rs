//! Flat addressable byte memory with bounds-checked access.
//!
//! Every read and write is checked against the fixed memory size; an access
//! past the end reports `EmuError::Capacity` instead of truncating or
//! wrapping, and a failed bulk load leaves memory unchanged.

use vstd::prelude::*;

use crate::EmuError;

verus! {

/// Number of addressable bytes.
pub const MEM_SIZE: usize = 4096;

/// `m` with the bytes of `b` written at positions `pos .. pos + b.len()`
/// and every other position unchanged.
pub open spec fn store_at(m: Seq<u8>, pos: int, b: Seq<u8>) -> Seq<u8> {
    Seq::new(m.len(), |i: int| if pos <= i < pos + b.len() { b[i - pos] } else { m[i] })
}

/// The 16-bit big-endian word formed from the byte at `a` (high) and the
/// byte at `a + 1` (low).
pub open spec fn word_at(m: Seq<u8>, a: int) -> u16
    recommends
        0 <= a,
        a + 1 < m.len(),
{
    ((m[a] as u16) << 8) | (m[a + 1] as u16)
}

/// Flat byte memory; the view is the sequence of all stored bytes.
pub struct Mem {
    data: Vec<u8>,
}

impl View for Mem {
    type V = Seq<u8>;

    closed spec fn view(&self) -> Seq<u8> {
        self.data@
    }
}

impl Mem {
    /// The memory always holds exactly `MEM_SIZE` bytes.
    pub open spec fn well_formed(&self) -> bool {
        self@.len() == MEM_SIZE
    }

    /// Fresh memory, zero-filled.
    pub fn new() -> (m: Mem)
        ensures
            m.well_formed(),
            forall|i: int| 0 <= i < MEM_SIZE ==> m@[i] == 0u8,
    {
        let data: Vec<u8> = vec![0u8; MEM_SIZE];
        Mem { data }
    }

    /// Copies `buf` into memory starting at `pos`. If the buffer would run
    /// past the end of memory, reports a capacity error and writes nothing.
    pub fn load(&mut self, buf: &Vec<u8>, pos: u16) -> (r: Result<(), EmuError>)
        requires
            old(self).well_formed(),
        ensures
            final(self).well_formed(),
            r is Ok <==> pos as int + buf@.len() <= MEM_SIZE,
            r is Ok ==> final(self)@ == store_at(old(self)@, pos as int, buf@),
            r is Err ==> final(self)@ == old(self)@ && r == Err::<(), EmuError>(EmuError::Capacity),
    {
        if pos as usize > MEM_SIZE || buf.len() > MEM_SIZE - pos as usize {
            return Err(EmuError::Capacity);
        }
        let mut k: usize = 0;
        while k < buf.len()
            invariant
                self@.len() == MEM_SIZE,
                k <= buf@.len(),
                pos as int + buf@.len() <= MEM_SIZE,
                forall|i: int|
                    0 <= i < MEM_SIZE ==> self@[i] == (if pos as int <= i < pos as int + k {
                        buf@[i - pos as int]
                    } else {
                        old(self)@[i]
                    }),
            decreases buf@.len() - k,
        {
            self.data.set(pos as usize + k, buf[k]);
            k += 1;
        }
        proof {
            assert(self@ =~= store_at(old(self)@, pos as int, buf@));
        }
        Ok(())
    }

    /// Returns a copy of the `length` bytes starting at `start`, or a
    /// capacity error if the range runs past the end of memory.
    pub fn read(&self, start: u16, length: usize) -> (r: Result<Vec<u8>, EmuError>)
        requires
            self.well_formed(),
        ensures
            r is Ok <==> start as int + length <= MEM_SIZE,
            r matches Ok(v) ==> v@ == self@.subrange(start as int, start as int + length),
            r is Err ==> r == Err::<Vec<u8>, EmuError>(EmuError::Capacity),
    {
        if start as usize > MEM_SIZE || length > MEM_SIZE - start as usize {
            return Err(EmuError::Capacity);
        }
        let mut out: Vec<u8> = Vec::new();
        let mut k: usize = 0;
        while k < length
            invariant
                self.well_formed(),
                k <= length,
                start as int + length <= MEM_SIZE,
                out@ =~= self@.subrange(start as int, start as int + k),
            decreases length - k,
        {
            out.push(self.data[start as usize + k]);
            k += 1;
        }
        Ok(out)
    }

    /// Writes one byte at `address`, or reports a capacity error if the
    /// address is out of range.
    pub fn write_byte(&mut self, b: u8, address: u16) -> (r: Result<(), EmuError>)
        requires
            old(self).well_formed(),
        ensures
            final(self).well_formed(),
            r is Ok <==> address < MEM_SIZE,
            r is Ok ==> final(self)@ == old(self)@.update(address as int, b),
            r is Err ==> final(self)@ == old(self)@ && r == Err::<(), EmuError>(EmuError::Capacity),
    {
        if (address as usize) < MEM_SIZE {
            self.data.set(address as usize, b);
            Ok(())
        } else {
            Err(EmuError::Capacity)
        }
    }

    /// Reads the byte at `address`, or reports a capacity error if the
    /// address is out of range.
    pub fn read_byte(&self, address: u16) -> (r: Result<u8, EmuError>)
        requires
            self.well_formed(),
        ensures
            r is Ok <==> address < MEM_SIZE,
            r matches Ok(b) ==> b == self@[address as int],
            r is Err ==> r == Err::<u8, EmuError>(EmuError::Capacity),
    {
        if (address as usize) < MEM_SIZE {
            Ok(self.data[address as usize])
        } else {
            Err(EmuError::Capacity)
        }
    }

    /// Reads the 16-bit big-endian word whose high byte sits at `address`:
    /// the instruction-fetch primitive. Reports a capacity error unless both
    /// `address` and `address + 1` are in range.
    pub fn read_word(&self, address: u16) -> (r: Result<u16, EmuError>)
        requires
            self.well_formed(),
        ensures
            r is Ok <==> address as int + 1 < MEM_SIZE,
            r matches Ok(w) ==> w == word_at(self@, address as int),
            r is Err ==> r == Err::<u16, EmuError>(EmuError::Capacity),
    {
        if address >= 0xFFFF {
            return Err(EmuError::Capacity);
        }
        let hi = self.read_byte(address)?;
        let lo = self.read_byte(address + 1)?;
        Ok(((hi as u16) << 8) | (lo as u16))
    }
}

/// Loading a buffer and then reading the same range back yields exactly the
/// loaded bytes: the round trip over `Mem::load` and `Mem::read`.
pub proof fn lemma_load_then_read_round_trip(m: Seq<u8>, b: Seq<u8>, a: int)
    requires
        0 <= a,
        a + b.len() <= m.len(),
    ensures
        store_at(m, a, b).subrange(a, a + b.len() as int) == b,
{
    assert(store_at(m, a, b).subrange(a, a + b.len() as int) =~= b);
}

} // verus!
