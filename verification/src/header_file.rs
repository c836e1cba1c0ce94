//! A header file: its path and, once read, its contents.

use std::path::PathBuf;
use vstd::prelude::*;

verus! {

/// The outside type `std::path::PathBuf`, carried through as it is.
#[verifier::external_type_specification]
#[verifier::external_body]
pub struct ExPathBuf(PathBuf);

/// Why a header file cannot be used.
#[derive(Debug)]
pub enum HeaderError {
    /// There is no file at the path.
    MissingHeaderFile(PathBuf),
    /// The contents were asked for before they were read.
    ContentsNotRead,
}

/// A header file: its path and, once read, its contents.
pub struct HeaderFile {
    pub file_path: PathBuf,
    pub file_contents: Option<String>,
}

impl HeaderFile {
    /// The header file at `path`, with nothing read yet; `exists` says
    /// whether there is a file at the path.
    pub fn new(path: PathBuf, exists: bool) -> (r: Result<Self, HeaderError>)
        ensures
            exists ==> (r matches Ok(h) && h.file_path == path && h.file_contents is None
                && !h.contents_read()),
            !exists ==> (r matches Err(HeaderError::MissingHeaderFile(p)) && p == path),
    {
        if !exists {
            return Err(HeaderError::MissingHeaderFile(path));
        }
        Ok(Self { file_path: path, file_contents: None })
    }

    /// Whether the contents have been read.
    pub open spec fn contents_read(&self) -> bool {
        self.file_contents is Some
    }

    /// Stores the contents read from the file.
    pub fn set_contents(&mut self, contents: String)
        ensures
            stores_contents(*old(self), *final(self), contents),
            final(self).file_contents == Some(contents),
            final(self).file_path == old(self).file_path,
    {
        self.file_contents = Some(contents);
    }

    /// Parses the contents: succeeds exactly when they have been read, and
    /// leaves the header file as it was.
    pub fn parse(&mut self) -> (r: Result<(), HeaderError>)
        ensures
            parses(*old(self), *final(self), r is Ok),
            r is Err ==> r matches Err(HeaderError::ContentsNotRead),
    {
        if self.file_contents.is_none() {
            return Err(HeaderError::ContentsNotRead);
        }
        Ok(())
    }
}

/// `set_contents(contents)` takes the header file `before` to `after`:
/// the contents are stored and the path is kept.
pub open spec fn stores_contents(before: HeaderFile, after: HeaderFile, contents: String) -> bool {
    after.file_contents == Some(contents) && after.file_path == before.file_path
}

/// `parse` takes the header file `before` to `after`, succeeding when `ok`:
/// it changes nothing, and succeeds exactly when the contents have been read.
pub open spec fn parses(before: HeaderFile, after: HeaderFile, ok: bool) -> bool {
    after == before && (ok <==> before.contents_read())
}

/// Storing contents keeps them whole: after `set_contents(contents)` the
/// header file holds exactly `contents`, every character of it whatever its
/// length, and the same path as before.
pub proof fn law_contents_are_kept_whole(before: HeaderFile, after: HeaderFile, contents: String)
    requires
        stores_contents(before, after, contents),
    ensures
        after.file_contents == Some(contents),
        after.file_contents.unwrap()@ == contents@,
        after.file_contents.unwrap()@.len() == contents@.len(),
        after.file_path == before.file_path,
{
}

/// Before its contents are stored, a header file does not parse: on a
/// header file with no contents (as `new` makes it), `parse` fails.
pub proof fn law_parse_before_read(h: HeaderFile, after: HeaderFile, ok: bool)
    requires
        h.file_contents is None,
        parses(h, after, ok),
    ensures
        !ok,
{
}

/// Once its contents are stored, a header file parses, and keeps parsing:
/// after `set_contents`, each of any number of `parse` calls in a row
/// succeeds (`hs[i]` is the header file before the `i`-th call, `oks[i]`
/// whether that call succeeded).
pub proof fn law_parse_after_read(
    before: HeaderFile,
    contents: String,
    hs: Seq<HeaderFile>,
    oks: Seq<bool>,
)
    requires
        hs.len() == oks.len() + 1,
        stores_contents(before, hs[0], contents),
        forall|i: int| 0 <= i < oks.len() ==> parses(hs[i], hs[i + 1], #[trigger] oks[i]),
    ensures
        forall|i: int| 0 <= i < oks.len() ==> #[trigger] oks[i],
        forall|i: int| 0 <= i < hs.len() ==> (#[trigger] hs[i]).contents_read(),
{
    assert forall|i: int| 0 <= i < hs.len() implies (#[trigger] hs[i]).contents_read() by {
        lemma_parse_keeps_contents(hs, oks, i);
    }
    assert forall|i: int| 0 <= i < oks.len() implies #[trigger] oks[i] by {
        lemma_parse_keeps_contents(hs, oks, i);
    }
}

proof fn lemma_parse_keeps_contents(hs: Seq<HeaderFile>, oks: Seq<bool>, i: int)
    requires
        hs.len() == oks.len() + 1,
        hs[0].contents_read(),
        forall|j: int| 0 <= j < oks.len() ==> parses(hs[j], hs[j + 1], #[trigger] oks[j]),
        0 <= i < hs.len(),
    ensures
        hs[i].contents_read(),
    decreases i,
{
    if i > 0 {
        lemma_parse_keeps_contents(hs, oks, i - 1);
        assert(parses(hs[i - 1], hs[i], oks[i - 1]));
    }
}

} // verus!
