//! A chunk: an append-only bytecode buffer, its line table (parallel to the
//! bytes, consulted only for error messages), and its constant pool.

use vstd::prelude::*;

use crate::opcode::OpCode;
use crate::opcode::spec_opcode_byte;
use crate::value::Value;
use crate::value::ValueV;

verus! {


/// Appending keeps what was there.
pub broadcast proof fn lemma_push_prefix<T>(s: Seq<T>, x: T)
    ensures
        s.is_prefix_of(#[trigger] s.push(x)),
{
    assert(s =~= s.push(x).subrange(0, s.len() as int));
}

/// A prefix of a prefix is a prefix.
pub broadcast proof fn lemma_prefix_trans<T>(a: Seq<T>, b: Seq<T>, c: Seq<T>)
    requires
        a.is_prefix_of(b),
        b.is_prefix_of(c),
    ensures
        #[trigger] a.is_prefix_of(b) && #[trigger] b.is_prefix_of(c) ==> a.is_prefix_of(c),
{
    assert(a =~= c.subrange(0, a.len() as int));
}

#[derive(Debug, PartialEq)]
pub struct Chunk {
    pub bytes: Vec<u8>,
    pub lines: Vec<usize>,
    pub constants: Vec<Value>,
}

/// The mathematical shape of a `Chunk`.
pub struct ChunkV {
    pub bytes: Seq<u8>,
    pub lines: Seq<usize>,
    pub constants: Seq<ValueV>,
}

impl ChunkV {
    /// The line table mirrors the byte array.
    pub open spec fn wf(self) -> bool {
        self.bytes.len() == self.lines.len()
    }
}

impl View for Chunk {
    type V = ChunkV;

    open spec fn view(&self) -> ChunkV {
        ChunkV {
            bytes: self.bytes@,
            lines: self.lines@,
            constants: self.constants@.map_values(|v: Value| v@),
        }
    }
}

impl Chunk {
    pub fn new() -> (c: Chunk)
        ensures
            c@.wf(),
            c@.bytes == Seq::<u8>::empty(),
            c@.lines == Seq::<usize>::empty(),
            c@.constants == Seq::<ValueV>::empty(),
    {
        let c = Chunk { bytes: Vec::new(), lines: Vec::new(), constants: Vec::new() };
        proof {
            assert(c@.constants =~= Seq::<ValueV>::empty());
        }
        c
    }

    /// A chunk holding a lone `Return`, so that a machine started on it
    /// terminates at once.
    pub fn new_terminated() -> (c: Chunk)
        ensures
            c@.wf(),
            c@.bytes =~= seq![spec_opcode_byte(OpCode::Return)],
            c@.lines =~= seq![1usize],
            c@.constants == Seq::<ValueV>::empty(),
    {
        let mut chunk = Chunk::new();
        chunk.write_op(OpCode::Return, 1);
        chunk
    }

    pub fn write_op(&mut self, op: OpCode, line: usize)
        requires
            old(self)@.wf(),
        ensures
            final(self)@.wf(),
            final(self)@.bytes == old(self)@.bytes.push(spec_opcode_byte(op)),
            final(self)@.lines == old(self)@.lines.push(line),
            final(self)@.constants == old(self)@.constants,
    {
        let b = op.as_byte();
        self.write_byte(b, line);
    }

    pub fn write_byte(&mut self, byte: u8, line: usize)
        requires
            old(self)@.wf(),
        ensures
            final(self)@.wf(),
            final(self)@.bytes == old(self)@.bytes.push(byte),
            final(self)@.lines == old(self)@.lines.push(line),
            final(self)@.constants == old(self)@.constants,
    {
        self.bytes.push(byte);
        self.lines.push(line);
    }

    /// Overwrites one already-written byte: how a jump placeholder is patched.
    pub fn patch_byte(&mut self, i: usize, byte: u8)
        requires
            old(self)@.wf(),
            i < old(self)@.bytes.len(),
        ensures
            final(self)@.wf(),
            final(self)@.bytes == old(self)@.bytes.update(i as int, byte),
            final(self)@.lines == old(self)@.lines,
            final(self)@.constants == old(self)@.constants,
    {
        self.bytes[i] = byte;
    }

    /// Appends a constant and hands back its zero-based index; the pool may
    /// hold the same constant twice.
    pub fn write_constant(&mut self, constant: Value) -> (index: usize)
        requires
            old(self)@.wf(),
        ensures
            final(self)@.wf(),
            final(self)@.bytes == old(self)@.bytes,
            final(self)@.lines == old(self)@.lines,
            final(self)@.constants =~= old(self)@.constants.push(constant@),
            index == old(self)@.constants.len(),
    {
        self.constants.push(constant);
        proof {
            assert(final(self)@.constants =~= old(self)@.constants.push(
                self.constants@.last()@,
            ));
        }
        self.constants.len() - 1
    }
}

} // verus!
