//! The memory bus: a flat array of 4096 bytes with bounds-checked access.
//! Addresses at or past the end are rejected with `MemoryError::OutOfRange`;
//! nothing ever wraps around or writes outside the array.

use vstd::prelude::*;

verus! {

/// Number of bytes on the bus.
pub const MEM_SIZE: usize = 4096;

/// First address a loaded program may occupy; everything below is reserved
/// for the font table.
pub const PROGRAM_BASE: usize = 0x200;

/// A read, write or program load named an address past the end of memory.
#[derive(Clone, Copy, PartialEq, Eq, Structural, Debug)]
pub enum MemoryError {
    OutOfRange,
}

/// A write as the execution unit performs it: out-of-range addresses are
/// dropped, in-range ones update the byte, and nothing else moves.
pub open spec fn mem_write(mem: Seq<u8>, addr: int, val: u8) -> Seq<u8> {
    if 0 <= addr < mem.len() {
        mem.update(addr, val)
    } else {
        mem
    }
}

/// The flat byte memory.
pub struct MemoryBus {
    pub bytes: Vec<u8>,
}

impl View for MemoryBus {
    type V = Seq<u8>;

    open spec fn view(&self) -> Seq<u8> {
        self.bytes@
    }
}

impl MemoryBus {
    /// The bus always holds exactly 4096 bytes.
    pub open spec fn wf(&self) -> bool {
        self@.len() == MEM_SIZE
    }

    /// A bus of 4096 zeroed bytes.
    pub fn new() -> (r: MemoryBus)
        ensures
            r.wf(),
            r@ == Seq::new(MEM_SIZE as nat, |a: int| 0u8),
    {
        let mut bytes: Vec<u8> = Vec::new();
        let mut k: usize = 0;
        while k < MEM_SIZE
            invariant
                k <= MEM_SIZE,
                bytes@ == Seq::new(k as nat, |a: int| 0u8),
            decreases MEM_SIZE - k,
        {
            bytes.push(0);
            k += 1;
            proof {
                assert(bytes@ =~= Seq::new(k as nat, |a: int| 0u8));
            }
        }
        MemoryBus { bytes }
    }

    /// The byte at `addr`, or `OutOfRange` if `addr` is past the end.
    pub fn read(&self, addr: usize) -> (r: Result<u8, MemoryError>)
        requires
            self.wf(),
        ensures
            addr < MEM_SIZE ==> r == Ok::<u8, MemoryError>(self@[addr as int]),
            addr >= MEM_SIZE ==> r == Err::<u8, MemoryError>(MemoryError::OutOfRange),
    {
        if addr < MEM_SIZE {
            Ok(self.bytes[addr])
        } else {
            Err(MemoryError::OutOfRange)
        }
    }

    /// Store `val` at `addr`; an address past the end is rejected and the
    /// memory is left as it was.
    pub fn write(&mut self, addr: usize, val: u8) -> (r: Result<(), MemoryError>)
        requires
            old(self).wf(),
        ensures
            final(self).wf(),
            final(self)@ == mem_write(old(self)@, addr as int, val),
            addr < MEM_SIZE ==> r == Ok::<(), MemoryError>(()),
            addr >= MEM_SIZE ==> r == Err::<(), MemoryError>(MemoryError::OutOfRange),
    {
        if addr < MEM_SIZE {
            self.bytes[addr] = val;
            Ok(())
        } else {
            Err(MemoryError::OutOfRange)
        }
    }

    /// Copy a program into memory starting at `PROGRAM_BASE`. A program that
    /// would run past the end of memory is rejected whole, and the reserved
    /// font region below `PROGRAM_BASE` is never touched.
    pub fn load_program(&mut self, program: &Vec<u8>) -> (r: Result<(), MemoryError>)
        requires
            old(self).wf(),
        ensures
            final(self).wf(),
            PROGRAM_BASE + program@.len() <= MEM_SIZE ==> {
                &&& r == Ok::<(), MemoryError>(())
                &&& final(self)@ == Seq::new(
                    MEM_SIZE as nat,
                    |a: int|
                        if PROGRAM_BASE <= a < PROGRAM_BASE + program@.len() {
                            program@[a - PROGRAM_BASE]
                        } else {
                            old(self)@[a]
                        },
                )
            },
            PROGRAM_BASE + program@.len() > MEM_SIZE ==> {
                &&& r == Err::<(), MemoryError>(MemoryError::OutOfRange)
                &&& final(self)@ == old(self)@
            },
    {
        if program.len() > MEM_SIZE - PROGRAM_BASE {
            return Err(MemoryError::OutOfRange);
        }
        let ghost mem0 = self@;
        let mut k: usize = 0;
        while k < program.len()
            invariant
                self.wf(),
                k <= program@.len(),
                PROGRAM_BASE + program@.len() <= MEM_SIZE,
                forall|a: int|
                    0 <= a < MEM_SIZE ==> self@[a] == (if PROGRAM_BASE <= a < PROGRAM_BASE + k {
                        program@[a - PROGRAM_BASE]
                    } else {
                        mem0[a]
                    }),
            decreases program@.len() - k,
        {
            self.bytes[PROGRAM_BASE + k] = program[k];
            k += 1;
        }
        proof {
            assert(self@ =~= Seq::new(
                MEM_SIZE as nat,
                |a: int|
                    if PROGRAM_BASE <= a < PROGRAM_BASE + program@.len() {
                        program@[a - PROGRAM_BASE]
                    } else {
                        mem0[a]
                    },
            ));
        }
        Ok(())
    }
}

} // verus!
