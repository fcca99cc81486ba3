//! A compiled program: instructions, and the source line of each.

use vstd::prelude::*;
use crate::op::{op_name, op_views, operand_of, Op, OpView, Operand, OperandView};

verus! {

/// An append-only sequence of instructions with a parallel table of source
/// lines.
pub struct Chunk {
    pub code: Vec<Op>,
    pub lines: Vec<i32>,
}

/// The mathematical model of a `Chunk`.
pub ghost struct ChunkView {
    pub code: Seq<OpView>,
    pub lines: Seq<i32>,
}

impl View for Chunk {
    type V = ChunkView;

    open spec fn view(&self) -> ChunkView {
        ChunkView { code: op_views(self.code@), lines: self.lines@ }
    }
}

/// One line of a listing: where an instruction stands, its mnemonic, and
/// what it carries.
#[derive(Debug, PartialEq, Eq)]
pub struct Row {
    pub offset: usize,
    pub name: &'static str,
    pub operand: Operand,
}

/// The mathematical model of a `Row`.
pub ghost struct RowView {
    pub offset: nat,
    pub name: Seq<char>,
    pub operand: OperandView,
}

impl View for Row {
    type V = RowView;

    open spec fn view(&self) -> RowView {
        RowView { offset: self.offset as nat, name: self.name@, operand: self.operand@ }
    }
}

/// The line that lists `op` at `offset`.
pub open spec fn row_of(offset: nat, op: OpView) -> RowView {
    RowView { offset, name: op_name(op), operand: operand_of(op) }
}

/// The title line of a listing.
pub open spec fn title_of(name: Seq<char>) -> Seq<char> {
    "== "@ + name + " =="@
}

/// A listing of a chunk: a title and a line for each instruction.
#[derive(Debug, PartialEq, Eq)]
pub struct Listing {
    pub title: String,
    pub rows: Vec<Row>,
}

impl Chunk {
    /// The line table has one entry for each instruction.
    pub open spec fn aligned(&self) -> bool {
        self@.code.len() == self@.lines.len()
    }

    /// An empty chunk.
    pub fn new() -> (chunk: Chunk)
        ensures
            chunk@.code == Seq::<OpView>::empty(),
            chunk@.lines == Seq::<i32>::empty(),
            chunk.aligned(),
    {
        let chunk = Chunk { code: Vec::new(), lines: Vec::new() };
        assert(op_views(chunk.code@) =~= Seq::<OpView>::empty());
        chunk
    }

    /// Appends an instruction and the source line it came from.
    pub fn write_chunk(&mut self, op: Op, line: i32)
        ensures
            final(self)@.code == old(self)@.code.push(op@),
            final(self)@.lines == old(self)@.lines.push(line),
            old(self).aligned() ==> final(self).aligned(),
    {
        self.code.push(op);
        self.lines.push(line);
        assert(op_views(self.code@) =~= op_views(old(self).code@).push(op@));
    }

    /// The number of instructions.
    pub fn len(&self) -> (n: usize)
        ensures
            n == self@.code.len(),
    {
        self.code.len()
    }

    /// The source line of the instruction at `offset`, if there is one.
    pub fn line(&self, offset: usize) -> (line: Option<i32>)
        ensures
            line == if offset < self@.lines.len() {
                Some(self@.lines[offset as int])
            } else {
                None::<i32>
            },
    {
        if offset < self.lines.len() {
            Some(self.lines[offset])
        } else {
            None
        }
    }

    /// The title and the lines of a listing of this chunk, one line for
    /// each instruction, in order.
    pub fn dissassemble_chunk(&self, name: &str) -> (listing: Listing)
        ensures
            listing.title@ == title_of(name@),
            listing.rows@.len() == self@.code.len(),
            forall|i: int|
                0 <= i < self@.code.len() ==> (#[trigger] listing.rows@[i])@ == row_of(
                    i as nat,
                    self@.code[i],
                ),
    {
        let mut title = String::from_str("== ");
        title.append(name);
        title.append(" ==");
        let mut rows: Vec<Row> = Vec::new();
        let mut i: usize = 0;
        while i < self.code.len()
            invariant
                i <= self.code@.len(),
                rows@.len() == i,
                forall|j: int|
                    0 <= j < i ==> (#[trigger] rows@[j])@ == row_of(j as nat, self@.code[j]),
            decreases self.code@.len() - i,
        {
            let row = self.dissassemble_instruction(i, &self.code[i]);
            rows.push(row);
            i += 1;
        }
        Listing { title, rows }
    }

    /// The line that lists `op` at `offset`.
    pub fn dissassemble_instruction(&self, offset: usize, op: &Op) -> (row: Row)
        ensures
            row@ == row_of(offset as nat, op@),
    {
        Row { offset, name: op.name(), operand: op.operand() }
    }
}

} // verus!
