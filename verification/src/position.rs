use vstd::prelude::*;

verus! {

/// A span in the source text: lines are 1-based, columns are 0-based.
#[derive(Clone, Copy, Debug, PartialEq, Eq, Structural)]
pub struct Position {
    pub line_start: usize,
    pub line_end: usize,
    pub pos_start: usize,
    pub pos_end: usize,
}

impl Position {
    pub fn new(line_start: usize, line_end: usize, pos_start: usize, pos_end: usize) -> (p:
        Position)
        ensures
            p == (Position { line_start, line_end, pos_start, pos_end }),
    {
        Position { line_start, line_end, pos_start, pos_end }
    }

    /// A span of `len` columns on a single line, starting at column `pos`.
    pub fn from(line: usize, pos: usize, len: usize) -> (p: Position)
        requires
            pos + len <= usize::MAX,
        ensures
            p == (Position { line_start: line, line_end: line, pos_start: pos, pos_end: (pos + len) as usize }),
    {
        Position::new(line, line, pos, pos + len)
    }

    /// The span that starts where `start` starts and ends where `end` ends.
    pub fn range(start: Position, end: Position) -> (p: Position)
        ensures
            p == (Position {
                line_start: start.line_start,
                line_end: end.line_end,
                pos_start: start.pos_start,
                pos_end: end.pos_end,
            }),
    {
        Position::new(start.line_start, end.line_end, start.pos_start, end.pos_end)
    }

    /// The placeholder span carried by values that have no place in the source.
    pub fn invalid() -> (p: Position)
        ensures
            p == (Position { line_start: 0, line_end: 0, pos_start: 0, pos_end: 0 }),
    {
        Position::new(0, 0, 0, 0)
    }
}

} // verus!
