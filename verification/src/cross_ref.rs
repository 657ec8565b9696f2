//! The cross-reference table (PDF 7.5.4): one line for each indirect object, giving the byte
//! offset of the object within the body of the file. The first entry, object 0, is the head of
//! the list of free objects and has generation 65535.
use vstd::prelude::*;
use crate::encoding::{ascii_chars, dec_digits, zero_padded};
pub use crate::objects::metadata::{Generation, ObjectStatus};
use crate::objects::metadata::{generation_number, status_char};

verus! {

#[derive(Debug, Clone, Copy, PartialEq, Eq, Structural)]
pub enum CrossRefError {
    EmptyTable,
    InvalidRootEntry,
}

/// One line of the cross-reference table.
#[derive(Debug, Clone, Copy, PartialEq, Eq, Structural)]
pub struct Entry {
    pub object_number: u32,
    /// determines how the offset is read
    pub object_status: ObjectStatus,
    /// in use: the byte offset of the object; free: the number of the next free object
    pub offset_or_next_free: u64,
    /// 65535 for the root entry, otherwise 0
    pub generation: Generation,
}

/// The line of an entry: the offset in ten digits, a space, the generation in five digits, a
/// space and the status character, then the two-character end of line, a carriage return and
/// a line feed: twenty bytes in all.
pub open spec fn entry_text(e: Entry) -> Seq<char> {
    ascii_chars(zero_padded(e.offset_or_next_free as nat, 10)) + " "@ + ascii_chars(
        zero_padded(generation_number(e.generation) as nat, 5),
    ) + " "@ + seq![status_char(e.object_status)] + "\r\n"@
}

/// The lines of a sequence of entries, one after the other.
pub open spec fn entries_lines(s: Seq<Entry>) -> Seq<char>
    decreases s.len(),
{
    if s.len() == 0 {
        Seq::empty()
    } else {
        entries_lines(s.drop_last()) + entry_text(s.last())
    }
}

/// The root entry: object 0, free, generation 65535.
pub open spec fn is_root_entry(e: Entry) -> bool {
    e.generation == Generation::Root && e.object_status == ObjectStatus::Free
}

/// The text of a table: `xref`, then the number of the first object and the number of
/// entries, then the line of each entry.
pub open spec fn table_text(s: Seq<Entry>) -> Seq<char> {
    "xref\r\n"@ + ascii_chars(dec_digits(s[0].object_number as nat)) + " "@ + ascii_chars(
        dec_digits(s.len()),
    ) + "\r\n"@ + entries_lines(s)
}

impl Entry {
    pub fn new(number: u32, in_use: ObjectStatus, offset: u64, generation: Generation) -> (e: Self)
        ensures
            e == (Entry {
                object_number: number,
                object_status: in_use,
                offset_or_next_free: offset,
                generation,
            }),
    {
        Entry { object_number: number, object_status: in_use, offset_or_next_free: offset, generation }
    }

    /// The line of this entry (see [`entry_text`]).
    pub fn as_pdf(&self) -> (s: String)
        ensures
            s@ == entry_text(*self),
            self.offset_or_next_free < 10_000_000_000 ==> s@.len() == 20,
    {
        proof {
            reveal_with_fuel(crate::encoding::pow10, 11);
            if self.offset_or_next_free < 10_000_000_000 {
                crate::encoding::lemma_zero_padded_len(self.offset_or_next_free as nat, 10);
            }
            crate::encoding::lemma_zero_padded_len(generation_number(self.generation) as nat, 5);
            reveal_strlit(" ");
            reveal_strlit("\r\n");
        }
        let mut s = String::new();
        crate::encoding::string_push_zero_padded(&mut s, self.offset_or_next_free, 10);
        crate::encoding::string_push_str(&mut s, " ");
        crate::encoding::string_push_zero_padded(&mut s, self.generation.as_u16() as u64, 5);
        crate::encoding::string_push_str(&mut s, " ");
        crate::encoding::string_push_char(&mut s, self.object_status.as_char());
        crate::encoding::string_push_str(&mut s, "\r\n");
        assert(s@ =~= entry_text(*self));
        s
    }
}

/// The cross-reference table of a file that is never updated: a single section whose
/// numbering begins at 0.
pub struct CrossRefTable {
    entries: Vec<Entry>,
}

impl View for CrossRefTable {
    type V = Seq<Entry>;

    closed spec fn view(&self) -> Seq<Entry> {
        self.entries@
    }
}

impl CrossRefTable {
    /// The table starts with its root entry: a table built with `new` and `add_entry` always
    /// has one.
    pub open spec fn wf(&self) -> bool {
        self@.len() > 0 && is_root_entry(self@[0])
    }

    /// A table holding only the root entry.
    pub fn new() -> (t: Self)
        ensures
            t@ == seq![Entry { object_number: 0, object_status: ObjectStatus::Free, offset_or_next_free: 0, generation: Generation::Root }],
            t.wf(),
    {
        let mut table = CrossRefTable { entries: Vec::new() };
        let root = Entry::new(0, ObjectStatus::Free, 0, Generation::Root);
        table.add_entry(root);
        table
    }

    pub fn add_entry(&mut self, entry: Entry)
        ensures
            final(self)@ == old(self)@.push(entry),
            old(self).wf() ==> final(self).wf(),
    {
        self.entries.push(entry);
    }

    /// The text of the table (see [`table_text`]); an error for an empty table or one whose
    /// first entry is not the free root entry of generation 65535.
    pub fn as_pdf(&self) -> (r: Result<String, CrossRefError>)
        ensures
            self@.len() == 0 ==> r == Err::<String, CrossRefError>(CrossRefError::EmptyTable),
            self@.len() > 0 && !is_root_entry(self@[0]) ==> r == Err::<String, CrossRefError>(
                CrossRefError::InvalidRootEntry,
            ),
            self.wf() ==> (r matches Ok(s) && s@ == table_text(self@)),
    {
        if self.entries.len() == 0 {
            return Err(CrossRefError::EmptyTable);
        }
        let first = &self.entries[0];
        if first.generation != Generation::Root || first.object_status != ObjectStatus::Free {
            return Err(CrossRefError::InvalidRootEntry);
        }
        let mut s = String::new();
        crate::encoding::string_push_str(&mut s, "xref\r\n");
        crate::encoding::string_push_decimal(&mut s, first.object_number as u64);
        crate::encoding::string_push_str(&mut s, " ");
        crate::encoding::string_push_decimal(&mut s, self.entries.len() as u64);
        crate::encoding::string_push_str(&mut s, "\r\n");
        let ghost head = s@;
        let mut i: usize = 0;
        while i < self.entries.len()
            invariant
                i <= self.entries@.len(),
                s@ == head + entries_lines(self.entries@.take(i as int)),
            decreases self.entries@.len() - i,
        {
            let line = self.entries[i].as_pdf();
            crate::encoding::string_push_str(&mut s, line.as_str());
            assert(self.entries@.take(i + 1).drop_last() =~= self.entries@.take(i as int));
            i = i + 1;
        }
        assert(self.entries@.take(self.entries@.len() as int) =~= self.entries@);
        Ok(s)
    }
}

impl Default for CrossRefTable {
    fn default() -> (t: Self)
        ensures
            t.wf(),
            t@.len() == 1,
    {
        Self::new()
    }
}

/// A cross-reference stream entry (PDF 1.5): its type, then two fields.
#[derive(Debug, Clone, Copy, PartialEq, Eq, Structural)]
pub enum CrossRefEntry {
    FreeObject { next_free_obj: usize, generation: u16 },
    Uncompressed { byte_offset: usize, generation: u16 },
    CompressedInObjstm { objstm_number: usize, index_within_objstm: u16 },
}

/// The big-endian bytes of `v` modulo `256^n`, in `n` bytes.
pub open spec fn be_tail(v: nat, n: nat) -> Seq<u8>
    decreases n,
{
    if n == 0 {
        Seq::empty()
    } else {
        be_tail(v / 256, (n - 1) as nat).push((v % 256) as u8)
    }
}

/// Appends the last `n` bytes of the big-endian bytes of `v`.
pub fn push_be_tail(out: &mut Vec<u8>, v: u64, n: usize)
    ensures
        final(out)@ == old(out)@ + be_tail(v as nat, n as nat),
    decreases n,
{
    if n > 0 {
        push_be_tail(out, v / 256, n - 1);
        out.push((v % 256) as u8);
    }
}

/// The type and the two fields of a stream entry.
pub open spec fn crate_entry_fields(e: CrossRefEntry) -> (u8, nat, nat) {
    match e {
        CrossRefEntry::FreeObject { next_free_obj, generation } => (0, next_free_obj as nat, generation as nat),
        CrossRefEntry::Uncompressed { byte_offset, generation } => (1, byte_offset as nat, generation as nat),
        CrossRefEntry::CompressedInObjstm { objstm_number, index_within_objstm } => (
            2,
            objstm_number as nat,
            index_within_objstm as nat,
        ),
    }
}

/// The binary rows of stream entries with the given field widths: the type byte, the second
/// field in `w2` big-endian bytes and the third in `w3`.
pub open spec fn crate_rows(s: Seq<CrossRefEntry>, w2: nat, w3: nat) -> Seq<u8>
    decreases s.len(),
{
    if s.len() == 0 {
        Seq::empty()
    } else {
        let f = crate_entry_fields(s.last());
        crate_rows(s.drop_last(), w2, w3) + seq![f.0] + be_tail(f.1, w2) + be_tail(f.2, w3)
    }
}

/// The entries of a cross-reference stream, starting with the free root entry.
pub struct CrossRefStream {
    entries: Vec<CrossRefEntry>,
}

impl CrossRefStream {
    pub closed spec fn spec_entries(&self) -> Seq<CrossRefEntry> {
        self.entries@
    }

    pub fn new() -> (s: Self)
        ensures
            s.spec_entries() == seq![CrossRefEntry::FreeObject { next_free_obj: 0, generation: 65535 }],
    {
        let mut stream = CrossRefStream { entries: Vec::new() };
        stream.entries.push(CrossRefEntry::FreeObject { next_free_obj: 0, generation: 65535 });
        stream
    }

    pub fn add_free_object(&mut self, next_free_obj: usize, generation: u16)
        ensures
            final(self).spec_entries() == old(self).spec_entries().push(
                CrossRefEntry::FreeObject { next_free_obj, generation },
            ),
    {
        self.entries.push(CrossRefEntry::FreeObject { next_free_obj, generation });
    }

    pub fn add_uncompressed(&mut self, byte_offset: usize, generation: u16)
        ensures
            final(self).spec_entries() == old(self).spec_entries().push(
                CrossRefEntry::Uncompressed { byte_offset, generation },
            ),
    {
        self.entries.push(CrossRefEntry::Uncompressed { byte_offset, generation });
    }

    pub fn add_compressed(&mut self, objstm_number: usize, index_within_objstm: u16)
        ensures
            final(self).spec_entries() == old(self).spec_entries().push(
                CrossRefEntry::CompressedInObjstm { objstm_number, index_within_objstm },
            ),
    {
        self.entries.push(CrossRefEntry::CompressedInObjstm { objstm_number, index_within_objstm });
    }

    /// The binary rows of the entries (see [`crate_rows`]); the widths are at most the eight
    /// bytes of an offset and the two bytes of a generation.
    pub fn build_binary_data(&self, field2_width: usize, field3_width: usize) -> (data: Vec<u8>)
        requires
            field2_width <= 8,
            field3_width <= 2,
        ensures
            data@ == crate_rows(self.spec_entries(), field2_width as nat, field3_width as nat),
    {
        let mut data: Vec<u8> = Vec::new();
        let mut i: usize = 0;
        while i < self.entries.len()
            invariant
                i <= self.entries@.len(),
                data@ == crate_rows(self.entries@.take(i as int), field2_width as nat, field3_width as nat),
            decreases self.entries@.len() - i,
        {
            let (type_byte, field2, field3): (u8, usize, u16) = match self.entries[i] {
                CrossRefEntry::FreeObject { next_free_obj, generation } => (0u8, next_free_obj, generation),
                CrossRefEntry::Uncompressed { byte_offset, generation } => (1u8, byte_offset, generation),
                CrossRefEntry::CompressedInObjstm { objstm_number, index_within_objstm } => (
                    2u8,
                    objstm_number,
                    index_within_objstm,
                ),
            };
            data.push(type_byte);
            push_be_tail(&mut data, field2 as u64, field2_width);
            push_be_tail(&mut data, field3 as u64, field3_width);
            assert(self.entries@.take(i + 1).drop_last() =~= self.entries@.take(i as int));
            i = i + 1;
        }
        assert(self.entries@.take(self.entries@.len() as int) =~= self.entries@);
        data
    }

    pub fn entry_count(&self) -> (n: usize)
        ensures
            n == self.spec_entries().len(),
    {
        self.entries.len()
    }
}

} // verus!
