//! Reading a file line by line: the lines read so far and their count.

use crate::file::FileError;
use std::path::PathBuf;
use vstd::prelude::*;

verus! {

/// A line read from a file: its number (counted from zero), the number of
/// bytes read for it, and the buffer that holds it.
pub struct ParsedLine<'buffer> {
    pub line_num: usize,
    pub bytes_read: usize,
    pub buffer: &'buffer str,
}

/// The state of a file read line by line: its path, the text read so far
/// (each line is added to the end of it), and the number of the next line.
pub struct LineCursor {
    pub file_path: PathBuf,
    pub buffer: String,
    pub line_num: usize,
}

impl LineCursor {
    /// A cursor before the first line of the file at `path`; `exists` says
    /// whether there is a file there.
    pub fn new(path: PathBuf, exists: bool) -> (r: Result<LineCursor, FileError>)
        ensures
            exists ==> (r matches Ok(c) && c.file_path == path && c.line_num == 0
                && c.buffer@.len() == 0),
            !exists ==> r == Err::<LineCursor, FileError>(FileError::Missing),
    {
        if !exists {
            return Err(FileError::Missing);
        }
        Ok(LineCursor { file_path: path, buffer: String::new(), line_num: 0 })
    }

    /// Records a line just read: adds it to the end of the buffer and
    /// returns its number, which is one less than the next one.
    pub fn record_line(&mut self, line: &str) -> (r: usize)
        requires
            old(self).line_num < usize::MAX,
        ensures
            records_line(*old(self), *final(self), line@, r),
    {
        let line_num = self.line_num;
        self.buffer.append(line);
        self.line_num = line_num + 1;
        line_num
    }
}

/// `record_line(line)` takes the cursor `before` to `after` and returns
/// `r`: `r` is the old line number, the next one is one more, the line is
/// added to the end of the buffer, and the path is kept.
pub open spec fn records_line(before: LineCursor, after: LineCursor, line: Seq<char>, r: usize) -> bool {
    &&& r == before.line_num
    &&& after.line_num == before.line_num + 1
    &&& after.buffer@ == before.buffer@ + line
    &&& after.file_path == before.file_path
}

/// The lines `lines`, one after the other.
pub open spec fn joined(lines: Seq<Seq<char>>) -> Seq<char>
    decreases lines.len(),
{
    if lines.len() == 0 {
        Seq::empty()
    } else {
        joined(lines.drop_last()) + lines.last()
    }
}

/// Line numbers start at zero and rise by exactly one for each line read:
/// from a new cursor (line 0, empty buffer), the `i`-th of any number of
/// `record_line` calls in a row returns `i`; after `k` calls the next line
/// is `k`, and the buffer holds the `k` lines one after the other.
/// (`cs[i]` is the cursor before the `i`-th call, `lines[i]` the line it
/// records and `rs[i]` what it returns.)
pub proof fn law_line_numbers_count_lines(
    cs: Seq<LineCursor>,
    lines: Seq<Seq<char>>,
    rs: Seq<usize>,
)
    requires
        cs.len() == lines.len() + 1,
        rs.len() == lines.len(),
        cs[0].line_num == 0,
        cs[0].buffer@.len() == 0,
        forall|i: int| 0 <= i < lines.len() ==> records_line(cs[i], cs[i + 1], lines[i], #[trigger] rs[i]),
    ensures
        forall|i: int| 0 <= i < rs.len() ==> #[trigger] rs[i] == i,
        cs.last().line_num == lines.len(),
        cs.last().buffer@ == joined(lines),
        cs.last().file_path == cs[0].file_path,
    decreases lines.len(),
{
    let k: int = lines.len() as int;
    if k == 0 {
        assert(cs[0].buffer@ =~= joined(lines));
    } else {
        let cs0 = cs.drop_last();
        let lines0 = lines.drop_last();
        let rs0 = rs.drop_last();
        assert forall|i: int| 0 <= i < lines0.len() implies records_line(
            cs0[i],
            cs0[i + 1],
            lines0[i],
            #[trigger] rs0[i],
        ) by {
            assert(records_line(cs[i], cs[i + 1], lines[i], rs[i]));
        }
        law_line_numbers_count_lines(cs0, lines0, rs0);
        assert(records_line(cs[k - 1], cs[k], lines[k - 1], rs[k - 1]));
        assert(cs0.last() == cs[k - 1]);
        assert forall|i: int| 0 <= i < rs.len() implies #[trigger] rs[i] == i by {
            if i < k - 1 {
                assert(rs0[i] == rs[i]);
            }
        }
    }
}

} // verus!
