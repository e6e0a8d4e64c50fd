//! How many rows a query has to read.
use vstd::prelude::*;

verus! {

/// Strategy to read rows.
#[derive(Debug, PartialEq, Eq, Structural)]
pub struct Strategy {
    pub lines_to_read: usize,
    pub lines_read: usize,
}

/// How many rows a query has to read: all of them where it needs all or has no limit, else as many
/// as the limit asks for and, before them, those that the offset skips.
pub open spec fn lines_needed(
    limit: Option<usize>,
    offset: usize,
    in_table_lines: usize,
    should_read_all_rows: bool,
) -> int {
    if should_read_all_rows {
        in_table_lines as int
    } else {
        match limit {
            Some(limit) => if in_table_lines <= limit {
                in_table_lines + offset
            } else {
                limit + offset
            },
            None => in_table_lines as int,
        }
    }
}

impl Strategy {
    /// The strategy for a limit, an offset and a table with a given number of rows.
    pub fn new(
        limit: Option<usize>,
        offset: usize,
        in_table_lines: usize,
        should_read_all_rows: bool,
    ) -> (r: Self)
        requires
            lines_needed(limit, offset, in_table_lines, should_read_all_rows) <= usize::MAX,
        ensures
            r.lines_to_read == lines_needed(limit, offset, in_table_lines, should_read_all_rows),
            r.lines_read == 0,
    {
        let lines_to_read: usize = if should_read_all_rows {
            in_table_lines
        } else {
            match limit {
                Some(limit) => if in_table_lines <= limit {
                    in_table_lines + offset
                } else {
                    limit + offset
                },
                None => in_table_lines,
            }
        };
        Strategy { lines_to_read, lines_read: 0 }
    }

    /// Notes how many rows the last chunk gave.
    pub fn set_lines_read(&mut self, num: usize)
        ensures
            final(self).lines_read == num,
            final(self).lines_to_read == old(self).lines_to_read,
    {
        self.lines_read = num;
    }

    /// Whether another chunk has to be read.
    pub fn should_read_next_chunk(&self) -> (r: bool)
        ensures
            r == (self.lines_to_read > self.lines_read),
    {
        self.lines_to_read > self.lines_read
    }
}

} // verus!
