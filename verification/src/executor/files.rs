//! The files that a program has open: the mode each was opened in, the lines read from it
//! (or written by `PUTRECORD` and not yet saved) and the line cursor.
use crate::assoc::{
    distinct_names, find_name, lemma_distinct_push, lemma_find_name, lemma_table_dom, lemma_table_entry,
    lemma_table_push, table_map,
};
use crate::text::str_eq;
use vstd::prelude::*;

verus! {

/// The mode a file is opened in.
#[derive(Clone, Copy, Debug, PartialEq, Eq, Structural)]
pub enum FileMode {
    Read,
    Write,
    Append,
    Random,
}

/// The mode named by the text of a file mode token, if it names one.
pub fn file_mode(text: &str) -> (m: Option<FileMode>)
    ensures
        m == mode_named(text@),
{
    if str_eq(text, "READ") {
        Some(FileMode::Read)
    } else if str_eq(text, "WRITE") {
        Some(FileMode::Write)
    } else if str_eq(text, "APPEND") {
        Some(FileMode::Append)
    } else if str_eq(text, "RANDOM") {
        Some(FileMode::Random)
    } else {
        None
    }
}

pub open spec fn mode_named(text: Seq<char>) -> Option<FileMode> {
    if text == "READ"@ {
        Some(FileMode::Read)
    } else if text == "WRITE"@ {
        Some(FileMode::Write)
    } else if text == "APPEND"@ {
        Some(FileMode::Append)
    } else if text == "RANDOM"@ {
        Some(FileMode::Random)
    } else {
        None
    }
}

/// An open file: its mode, its lines and the number (from 1) of the line that the next
/// read or record operation concerns.
pub struct XFile {
    pub mode: FileMode,
    pub content: Vec<String>,
    pub cursor: usize,
}

/// What an open file is to the specifications.
pub struct XFileV {
    pub mode: FileMode,
    pub content: Seq<Seq<char>>,
    pub cursor: nat,
}

impl XFile {
    pub open spec fn spec(&self) -> XFileV {
        XFileV {
            mode: self.mode,
            content: self.content@.map_values(|l: String| l@),
            cursor: self.cursor as nat,
        }
    }
}

/// Why a file operation was refused.
#[derive(Clone, Copy, Debug, PartialEq, Eq, Structural)]
pub enum FileError {
    /// `OPENFILE` on a file that is open.
    AlreadyOpen,
    /// `CLOSEFILE` on a file that is not open.
    AlreadyClosed,
    /// Any other operation on a file that is not open.
    NotOpened,
    /// The file is not open in a mode that allows the operation.
    WrongMode,
    /// `SEEK` to a line number below 1.
    InvalidPosition,
    /// `GETRECORD` at a line past the end of the file.
    EmptyLine,
}

/// The open files by name; no name occurs twice.
pub struct FileTable {
    pub files: Vec<(String, XFile)>,
}

/// The line at the cursor, or the empty line past the end.
pub open spec fn line_at(f: XFileV) -> Seq<char> {
    if 1 <= f.cursor <= f.content.len() {
        f.content[f.cursor - 1]
    } else {
        Seq::empty()
    }
}

/// The lines of a file after `PUTRECORD` of `record` at the cursor: lines holding a line
/// break fill the gap up to the cursor, and the record replaces the line there.
pub open spec fn put_line(f: XFileV, record: Seq<char>) -> Seq<Seq<char>> {
    let filled = if f.cursor > f.content.len() {
        f.content + Seq::new((f.cursor - f.content.len()) as nat, |i: int| "\n"@)
    } else {
        f.content
    };
    filled.update(f.cursor - 1, record)
}

impl FileTable {
    pub fn new() -> (t: Self)
        ensures
            t.files@.len() == 0,
            t.wf(),
    {
        FileTable { files: Vec::new() }
    }

    /// The open files by name.
    pub open spec fn map(&self) -> Map<Seq<char>, XFileV> {
        table_map(self.files@).map_values(|f: XFile| f.spec())
    }

    /// No file is listed twice and every cursor is at line 1 or later.
    pub open spec fn wf(&self) -> bool {
        &&& distinct_names(self.files@)
        &&& forall|k: int| 0 <= k < self.files@.len() ==> (#[trigger] self.files@[k]).1.cursor >= 1
    }

    proof fn lemma_found(&self, name: Seq<char>, r: Option<usize>)
        requires
            self.wf(),
            match r {
                Some(k) => k < self.files@.len() && self.files@[k as int].0@ == name,
                None => forall|k: int| 0 <= k < self.files@.len() ==> self.files@[k].0@ != name,
            },
        ensures
            match r {
                Some(k) => self.map().contains_key(name) && self.map()[name] == self.files@[k as int].1.spec(),
                None => !self.map().contains_key(name),
            },
    {
        lemma_find_name(self.files@, name, r);
    }

    /// The mode of the open file `name`, if it is open.
    pub fn mode_of(&self, name: &str) -> (m: Option<FileMode>)
        requires
            self.wf(),
        ensures
            match m {
                Some(x) => self.map().contains_key(name@) && self.map()[name@].mode == x,
                None => !self.map().contains_key(name@),
            },
    {
        let k = find_name(&self.files, name);
        proof {
            self.lemma_found(name@, k);
        }
        match k {
            Some(k) => Some(self.files[k].1.mode),
            None => None,
        }
    }

    /// `OPENFILE`: records the file `name`, opened in `mode` with the lines `content`, with
    /// its cursor at line 1; refused if it is already open.
    pub fn open(&mut self, name: &String, mode: FileMode, content: Vec<String>) -> (r: Result<(), FileError>)
        requires
            old(self).wf(),
        ensures
            final(self).wf(),
            old(self).map().contains_key(name@) ==> r == Err::<(), FileError>(FileError::AlreadyOpen)
                && final(self).map() == old(self).map(),
            !old(self).map().contains_key(name@) ==> r is Ok && final(self).map() == old(self).map().insert(
                name@,
                XFileV { mode, content: content@.map_values(|l: String| l@), cursor: 1 },
            ),
    {
        let k = find_name(&self.files, name.as_str());
        proof {
            self.lemma_found(name@, k);
            lemma_find_name(self.files@, name@, k);
        }
        if k.is_some() {
            return Err(FileError::AlreadyOpen);
        }
        let entry = (name.clone(), XFile { mode, content, cursor: 1 });
        proof {
            lemma_distinct_push(self.files@, entry);
            lemma_table_push(self.files@, entry);
        }
        self.files.push(entry);
        proof {
            assert(self.map() =~= old(self).map().insert(name@, entry.1.spec()));
        }
        Ok(())
    }

    /// `CLOSEFILE`: removes the file `name` and hands it back; refused if it is not open.
    pub fn close(&mut self, name: &str) -> (r: Result<XFile, FileError>)
        requires
            old(self).wf(),
        ensures
            final(self).wf(),
            match r {
                Ok(f) => old(self).map().contains_key(name@) && f.spec() == old(self).map()[name@]
                    && final(self).map() == old(self).map().remove(name@),
                Err(e) => e == FileError::AlreadyClosed && !old(self).map().contains_key(name@)
                    && final(self).map() == old(self).map(),
            },
    {
        let k = find_name(&self.files, name);
        proof {
            self.lemma_found(name@, k);
        }
        match k {
            None => Err(FileError::AlreadyClosed),
            Some(k) => {
                let ghost before = self.files@;
                let (_, f) = self.files.remove(k);
                proof {
                    assert(self.files@ =~= before.remove(k as int));
                    assert forall|i: int, j: int| 0 <= i < j < self.files@.len() implies self.files@[i].0@
                        != self.files@[j].0@ by {
                        let i2 = if i < k { i } else { i + 1 };
                        let j2 = if j < k { j } else { j + 1 };
                        assert(self.files@[i] == before[i2]);
                        assert(self.files@[j] == before[j2]);
                    }
                    assert forall|q: int| 0 <= q < self.files@.len() implies (#[trigger] self.files@[q]).1.cursor >= 1 by {
                        let q2 = if q < k { q } else { q + 1 };
                        assert(self.files@[q] == before[q2]);
                    }
                    assert forall|key: Seq<char>| #[trigger] self.map().contains_key(key) <==> old(self).map().remove(
                        name@,
                    ).contains_key(key) by {
                        lemma_table_dom(self.files@, key);
                        lemma_table_dom(before, key);
                        if old(self).map().remove(name@).contains_key(key) {
                            let q = choose|q: int| 0 <= q < before.len() && before[q].0@ == key;
                            assert(q != k);
                            let q2 = if q < k { q } else { q - 1 };
                            assert(self.files@[q2] == before[q]);
                        }
                        if self.map().contains_key(key) {
                            let q = choose|q: int| 0 <= q < self.files@.len() && self.files@[q].0@ == key;
                            let q2 = if q < k { q } else { q + 1 };
                            assert(self.files@[q] == before[q2]);
                            assert(q2 != k);
                        }
                    }
                    assert forall|key: Seq<char>| #[trigger] self.map().contains_key(key) implies self.map()[key]
                        == old(self).map()[key] by {
                        lemma_table_dom(self.files@, key);
                        let q = choose|q: int| 0 <= q < self.files@.len() && self.files@[q].0@ == key;
                        let q2 = if q < k { q } else { q + 1 };
                        assert(self.files@[q] == before[q2]);
                        lemma_table_entry(self.files@, q);
                        lemma_table_entry(before, q2);
                    }
                    assert(self.map() =~= old(self).map().remove(name@));
                }
                Ok(f)
            },
        }
    }

    /// What `WRITEFILE` needs: the file must be open for `WRITE` or `APPEND`.
    pub fn check_writable(&self, name: &str) -> (r: Result<(), FileError>)
        requires
            self.wf(),
        ensures
            !self.map().contains_key(name@) ==> r == Err::<(), FileError>(FileError::NotOpened),
            self.map().contains_key(name@) ==> (r is Ok <==> (self.map()[name@].mode == FileMode::Write
                || self.map()[name@].mode == FileMode::Append)),
            r is Err ==> r == Err::<(), FileError>(FileError::NotOpened) || r == Err::<(), FileError>(
                FileError::WrongMode,
            ),
    {
        match self.mode_of(name) {
            None => Err(FileError::NotOpened),
            Some(FileMode::Write) | Some(FileMode::Append) => Ok(()),
            Some(_) => Err(FileError::WrongMode),
        }
    }

    /// `EOF`: whether the cursor of a file open for `READ` is past its last line.
    pub fn eof(&self, name: &str) -> (r: Result<bool, FileError>)
        requires
            self.wf(),
        ensures
            !self.map().contains_key(name@) ==> r == Err::<bool, FileError>(FileError::NotOpened),
            self.map().contains_key(name@) && self.map()[name@].mode != FileMode::Read ==> r == Err::<
                bool,
                FileError,
            >(FileError::WrongMode),
            self.map().contains_key(name@) && self.map()[name@].mode == FileMode::Read ==> r == Ok::<
                bool,
                FileError,
            >(self.map()[name@].cursor > self.map()[name@].content.len()),
    {
        let k = find_name(&self.files, name);
        proof {
            self.lemma_found(name@, k);
        }
        match k {
            None => Err(FileError::NotOpened),
            Some(k) => {
                let f = &self.files[k].1;
                if f.mode != FileMode::Read {
                    Err(FileError::WrongMode)
                } else {
                    Ok(f.cursor > f.content.len())
                }
            },
        }
    }

    /// `READFILE`: the line at the cursor of a file open for `READ` (empty past the end);
    /// the cursor moves to the next line.
    pub fn read_line(&mut self, name: &str) -> (r: Result<String, FileError>)
        requires
            old(self).wf(),
            old(self).map().contains_key(name@) ==> old(self).map()[name@].cursor < usize::MAX,
        ensures
            final(self).wf(),
            !old(self).map().contains_key(name@) ==> r == Err::<String, FileError>(FileError::NotOpened)
                && final(self).map() == old(self).map(),
            old(self).map().contains_key(name@) && old(self).map()[name@].mode != FileMode::Read ==> r
                == Err::<String, FileError>(FileError::WrongMode) && final(self).map() == old(self).map(),
            old(self).map().contains_key(name@) && old(self).map()[name@].mode == FileMode::Read ==> (r
                matches Ok(line) && line@ == line_at(old(self).map()[name@])) && final(self).map()
                == old(self).map().insert(
                name@,
                XFileV { cursor: old(self).map()[name@].cursor + 1, ..old(self).map()[name@] },
            ),
    {
        let k = find_name(&self.files, name);
        proof {
            self.lemma_found(name@, k);
        }
        let k = match k {
            None => return Err(FileError::NotOpened),
            Some(k) => k,
        };
        if self.files[k].1.mode != FileMode::Read {
            return Err(FileError::WrongMode);
        }
        let ghost before = self.files@;
        let entry = &mut self.files[k];
        let line = if entry.1.cursor <= entry.1.content.len() {
            entry.1.content[entry.1.cursor - 1].clone()
        } else {
            String::new()
        };
        entry.1.cursor = entry.1.cursor + 1;
        proof {
            self.lemma_after_update(before, k as int, name@);
            assert(self.files@[k as int].1.spec() =~= XFileV {
                cursor: old(self).map()[name@].cursor + 1,
                ..old(self).map()[name@]
            });
        }
        Ok(line)
    }

    /// After the entry at `k` was replaced by one of the same name, the map changes at that
    /// name only, and the table stays well formed if the new cursor is at line 1 or later.
    proof fn lemma_after_update(&self, before: Seq<(String, XFile)>, k: int, name: Seq<char>)
        requires
            distinct_names(before),
            forall|q: int| 0 <= q < before.len() ==> (#[trigger] before[q]).1.cursor >= 1,
            0 <= k < before.len(),
            before[k].0@ == name,
            self.files@.len() == before.len(),
            self.files@[k].0@ == name,
            self.files@[k].1.cursor >= 1,
            forall|q: int| 0 <= q < before.len() && q != k ==> self.files@[q] == before[q],
        ensures
            self.wf(),
            self.map() == table_map(before).map_values(|f: XFile| f.spec()).insert(name, self.files@[k].1.spec()),
    {
        assert(self.files@ =~= before.update(k, self.files@[k]));
        assert forall|i: int, j: int| 0 <= i < j < self.files@.len() implies self.files@[i].0@
            != self.files@[j].0@ by {
            if i != k {
                assert(self.files@[i] == before[i]);
            }
            if j != k {
                assert(self.files@[j] == before[j]);
            }
        }
        assert forall|q: int| 0 <= q < self.files@.len() implies (#[trigger] self.files@[q]).1.cursor >= 1 by {
            if q != k {
                assert(self.files@[q] == before[q]);
            }
        }
        let old_map = table_map(before).map_values(|f: XFile| f.spec());
        assert forall|key: Seq<char>| #[trigger] self.map().contains_key(key) <==> old_map.insert(
            name,
            self.files@[k].1.spec(),
        ).contains_key(key) by {
            lemma_table_dom(self.files@, key);
            lemma_table_dom(before, key);
            if exists|q: int| 0 <= q < before.len() && before[q].0@ == key {
                let q = choose|q: int| 0 <= q < before.len() && before[q].0@ == key;
                if q != k {
                    assert(self.files@[q] == before[q]);
                }
            }
            if exists|q: int| 0 <= q < self.files@.len() && self.files@[q].0@ == key {
                let q = choose|q: int| 0 <= q < self.files@.len() && self.files@[q].0@ == key;
                if q != k {
                    assert(self.files@[q] == before[q]);
                }
            }
        }
        assert forall|key: Seq<char>| #[trigger] self.map().contains_key(key) implies self.map()[key]
            == old_map.insert(name, self.files@[k].1.spec())[key] by {
            lemma_table_dom(self.files@, key);
            let q = choose|q: int| 0 <= q < self.files@.len() && self.files@[q].0@ == key;
            lemma_table_entry(self.files@, q);
            if q != k {
                assert(self.files@[q] == before[q]);
                lemma_table_entry(before, q);
            }
        }
        assert(self.map() =~= old_map.insert(name, self.files@[k].1.spec()));
    }

    /// `SEEK`: moves the cursor of a file open for `RANDOM` to line `line`; refused for a
    /// line below 1.
    pub fn seek(&mut self, name: &str, line: usize) -> (r: Result<(), FileError>)
        requires
            old(self).wf(),
        ensures
            final(self).wf(),
            !old(self).map().contains_key(name@) ==> r == Err::<(), FileError>(FileError::NotOpened),
            old(self).map().contains_key(name@) && old(self).map()[name@].mode != FileMode::Random ==> r
                == Err::<(), FileError>(FileError::WrongMode),
            old(self).map().contains_key(name@) && old(self).map()[name@].mode == FileMode::Random && line
                == 0 ==> r == Err::<(), FileError>(FileError::InvalidPosition),
            r is Err ==> final(self).map() == old(self).map(),
            old(self).map().contains_key(name@) && old(self).map()[name@].mode == FileMode::Random && line
                >= 1 ==> r is Ok && final(self).map() == old(self).map().insert(
                name@,
                XFileV { cursor: line as nat, ..old(self).map()[name@] },
            ),
    {
        let k = find_name(&self.files, name);
        proof {
            self.lemma_found(name@, k);
        }
        let k = match k {
            None => return Err(FileError::NotOpened),
            Some(k) => k,
        };
        if self.files[k].1.mode != FileMode::Random {
            return Err(FileError::WrongMode);
        }
        if line == 0 {
            return Err(FileError::InvalidPosition);
        }
        let ghost before = self.files@;
        let entry = &mut self.files[k];
        entry.1.cursor = line;
        proof {
            self.lemma_after_update(before, k as int, name@);
            assert(self.files@[k as int].1.spec() =~= XFileV { cursor: line as nat, ..old(self).map()[name@] });
        }
        Ok(())
    }

    /// `GETRECORD`: the line at the cursor of a file open for `RANDOM`; refused past the
    /// last line. The cursor stays.
    pub fn get_record(&self, name: &str) -> (r: Result<String, FileError>)
        requires
            self.wf(),
        ensures
            !self.map().contains_key(name@) ==> r == Err::<String, FileError>(FileError::NotOpened),
            self.map().contains_key(name@) && self.map()[name@].mode != FileMode::Random ==> r == Err::<
                String,
                FileError,
            >(FileError::WrongMode),
            self.map().contains_key(name@) && self.map()[name@].mode == FileMode::Random ==> if self.map()[name@].cursor
                <= self.map()[name@].content.len() {
                r matches Ok(line) && line@ == self.map()[name@].content[self.map()[name@].cursor - 1]
            } else {
                r == Err::<String, FileError>(FileError::EmptyLine)
            },
    {
        let k = find_name(&self.files, name);
        proof {
            self.lemma_found(name@, k);
        }
        match k {
            None => Err(FileError::NotOpened),
            Some(k) => {
                let f = &self.files[k].1;
                if f.mode != FileMode::Random {
                    Err(FileError::WrongMode)
                } else if f.cursor <= f.content.len() {
                    Ok(f.content[f.cursor - 1].clone())
                } else {
                    Err(FileError::EmptyLine)
                }
            },
        }
    }

    /// `PUTRECORD`: writes `record` as the line at the cursor of a file open for `RANDOM`,
    /// first filling any gap before the cursor with lines holding a line break.
    pub fn put_record(&mut self, name: &str, record: String) -> (r: Result<(), FileError>)
        requires
            old(self).wf(),
        ensures
            final(self).wf(),
            !old(self).map().contains_key(name@) ==> r == Err::<(), FileError>(FileError::NotOpened),
            old(self).map().contains_key(name@) && old(self).map()[name@].mode != FileMode::Random ==> r
                == Err::<(), FileError>(FileError::WrongMode),
            r is Err ==> final(self).map() == old(self).map(),
            old(self).map().contains_key(name@) && old(self).map()[name@].mode == FileMode::Random ==> r is Ok
                && final(self).map() == old(self).map().insert(
                name@,
                XFileV { content: put_line(old(self).map()[name@], record@), ..old(self).map()[name@] },
            ),
    {
        let k = find_name(&self.files, name);
        proof {
            self.lemma_found(name@, k);
        }
        let k = match k {
            None => return Err(FileError::NotOpened),
            Some(k) => k,
        };
        if self.files[k].1.mode != FileMode::Random {
            return Err(FileError::WrongMode);
        }
        let ghost before = self.files@;
        let ghost f0 = old(self).map()[name@];
        let mut content: Vec<String> = Vec::new();
        {
            let entry = &mut self.files[k];
            std::mem::swap(&mut content, &mut entry.1.content);
        }
        let cursor = self.files[k].1.cursor;
        let ghost c0 = content@.map_values(|l: String| l@);
        assert(c0 == f0.content);
        while content.len() < cursor
            invariant
                cursor >= 1,
                c0.len() <= content@.len() <= if cursor > c0.len() { cursor as int } else { c0.len() as int },
                content@.map_values(|l: String| l@) == c0 + Seq::new(
                    (content@.len() - c0.len()) as nat,
                    |i: int| "\n"@,
                ),
            decreases cursor - content.len(),
        {
            let ghost prev = content@;
            let line = String::from_str("\n");
            content.push(line);
            proof {
                assert(content@ =~= prev.push(line));
                assert(content@.map_values(|l: String| l@) =~= prev.map_values(|l: String| l@).push(line@));
                assert(content@.map_values(|l: String| l@) =~= c0 + Seq::new(
                    (content@.len() - c0.len()) as nat,
                    |i: int| "\n"@,
                ));
            }
        }
        let ghost filled = content@.map_values(|l: String| l@);
        content.set(cursor - 1, record);
        {
            let entry = &mut self.files[k];
            entry.1.content = content;
        }
        proof {
            let expect = if f0.cursor > f0.content.len() {
                f0.content + Seq::new((f0.cursor - f0.content.len()) as nat, |i: int| "\n"@)
            } else {
                f0.content
            };
            assert(filled =~= expect);
            assert(self.files@[k as int].1.content@.map_values(|l: String| l@) =~= expect.update(
                cursor - 1,
                record@,
            ));
            self.lemma_after_update(before, k as int, name@);
            assert(self.files@[k as int].1.spec() =~= XFileV { content: put_line(f0, record@), ..f0 });
        }
        Ok(())
    }
}

/// A file just opened reads from its first line: the first `READFILE` gives the first line
/// (the empty line for an empty file).
pub proof fn law_open_reads_first_line(mode: FileMode, content: Seq<Seq<char>>)
    ensures
        line_at(XFileV { mode, content, cursor: 1 }) == if content.len() > 0 {
            content[0]
        } else {
            Seq::<char>::empty()
        },
{
}

/// `READFILE` goes through the lines in order: after a read at line `c`, the next read
/// gives line `c + 1`.
pub proof fn law_read_moves_to_next_line(f: XFileV)
    requires
        f.cursor >= 1,
        f.cursor < f.content.len(),
    ensures
        line_at(XFileV { cursor: f.cursor + 1, ..f }) == f.content[f.cursor as int],
{
}

/// `GETRECORD` after `PUTRECORD` at the same cursor gives back the record written.
pub proof fn law_get_record_reads_put_record(f: XFileV, record: Seq<char>)
    requires
        f.cursor >= 1,
    ensures
        ({
            let g = XFileV { content: put_line(f, record), ..f };
            &&& g.cursor <= g.content.len()
            &&& g.content[g.cursor - 1] == record
        }),
{
}

/// `PUTRECORD` changes no other line that the file had.
pub proof fn law_put_record_keeps_other_lines(f: XFileV, record: Seq<char>, j: int)
    requires
        f.cursor >= 1,
        0 <= j < f.content.len(),
        j != f.cursor - 1,
    ensures
        put_line(f, record)[j] == f.content[j],
{
}

/// `GETRECORD` after `SEEK` to a line of the file gives that line.
pub proof fn law_seek_then_get_record(f: XFileV, line: nat)
    requires
        1 <= line <= f.content.len(),
    ensures
        ({
            let g = XFileV { cursor: line, ..f };
            g.cursor <= g.content.len() && g.content[g.cursor - 1] == f.content[line - 1]
        }),
{
}

/// A closed file can be opened again.
pub proof fn law_closed_file_can_be_reopened(m: Map<Seq<char>, XFileV>, name: Seq<char>)
    ensures
        !m.remove(name).contains_key(name),
{
}

} // verus!
