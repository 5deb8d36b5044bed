//! The exception table: an indexed collection of packed records plus a
//! string side table.
//!
//! The table is built once, from a complete sequence of descriptions, and is
//! read-only afterwards. Each record keeps its index in emission order and is
//! addressed in constant time through a start/end offset pair; the string
//! side table resolves the indices stored in Closure and FullMappings slots.

use vstd::prelude::*;

use crate::builder::ExceptionDescription;
use crate::builder::spec_decode_record;
use crate::record::Exception;
use crate::validate::layout_valid;
use crate::validate::spec_header_of;

verus! {

/// An immutable collection of variable-length exception records with a
/// parallel string table.
pub struct ExceptionTable {
    data: Vec<u8>,
    starts: Vec<usize>,
    ends: Vec<usize>,
    strings: Vec<String>,
}

impl ExceptionTable {
    /// The number of records.
    pub closed spec fn spec_len(self) -> nat {
        self.starts@.len()
    }

    /// The byte span of record `i`.
    pub closed spec fn spec_record_bytes(self, i: int) -> Seq<u8> {
        self.data@.subrange(self.starts@[i] as int, self.ends@[i] as int)
    }

    /// Every record span lies inside the buffer and is layout-valid.
    pub closed spec fn wf(self) -> bool {
        &&& self.ends@.len() == self.starts@.len()
        &&& forall|i: int|
            0 <= i < self.starts@.len() ==> #[trigger] self.starts@[i] <= self.ends@[i]
                <= self.data@.len()
        &&& forall|i: int|
            0 <= i < self.starts@.len() ==> layout_valid(#[trigger] self.spec_record_bytes(i))
    }

    /// The number of strings in the side table.
    pub closed spec fn spec_num_strings(self) -> nat {
        self.strings@.len()
    }

    /// String `i` of the side table.
    pub closed spec fn spec_string(self, i: int) -> Seq<char> {
        self.strings@[i]@
    }

    /// Builds a table by packing every description in order and recording
    /// each record's offsets; record `i` decodes back to `entries[i]`, and
    /// the string side table holds `strings` unchanged.
    pub fn build(entries: &Vec<ExceptionDescription>, strings: Vec<String>) -> (r: ExceptionTable)
        ensures
            r.wf(),
            r.spec_len() == entries@.len(),
            forall|i: int|
                0 <= i < entries@.len() ==> spec_decode_record(#[trigger] r.spec_record_bytes(i))
                    == Some(entries@[i]),
            r.spec_num_strings() == strings@.len(),
            forall|i: int| 0 <= i < strings@.len() ==> #[trigger] r.spec_string(i) == strings@[i]@,
    {
        let mut data: Vec<u8> = Vec::new();
        let mut starts: Vec<usize> = Vec::new();
        let mut ends: Vec<usize> = Vec::new();
        let mut idx: usize = 0;
        while idx < entries.len()
            invariant
                idx <= entries@.len(),
                starts@.len() == idx,
                ends@.len() == idx,
                forall|i: int|
                    0 <= i < idx as int ==> #[trigger] starts@[i] <= ends@[i] <= data@.len(),
                forall|i: int|
                    0 <= i < idx as int ==> spec_decode_record(
                        #[trigger] data@.subrange(starts@[i] as int, ends@[i] as int),
                    ) == Some(entries@[i]),
            decreases entries@.len() - idx,
        {
            let ghost data_before = data@;
            let mut rec = crate::builder::build(&entries[idx]);
            let ghost rec_view = rec@;
            let start = data.len();
            data.append(&mut rec);
            starts.push(start);
            ends.push(data.len());
            proof {
                assert forall|i: int| 0 <= i < idx as int + 1 implies spec_decode_record(
                    #[trigger] data@.subrange(starts@[i] as int, ends@[i] as int),
                ) == Some(entries@[i]) by {
                    if i < idx as int {
                        assert(data@.subrange(starts@[i] as int, ends@[i] as int)
                            =~= data_before.subrange(starts@[i] as int, ends@[i] as int));
                    } else {
                        assert(data@.subrange(starts@[i] as int, ends@[i] as int) =~= rec_view);
                    }
                }
            }
            idx = idx + 1;
        }
        ExceptionTable { data, starts, ends, strings }
    }

    /// The number of records.
    pub fn len(&self) -> (r: usize)
        ensures
            r == self.spec_len(),
    {
        self.starts.len()
    }

    /// The record view at `index`: a constant-time borrow of the packed
    /// bytes, valid because the whole table is.
    pub fn get(&self, index: usize) -> (r: Exception<'_>)
        requires
            self.wf(),
            index < self.spec_len(),
        ensures
            r.wf(),
            r.header == spec_header_of(self.spec_record_bytes(index as int)),
            r.slots@ == self.spec_record_bytes(index as int).skip(2),
    {
        let start = self.starts[index];
        let end = self.ends[index];
        let bytes = vstd::slice::slice_subrange(self.data.as_slice(), start, end);
        proof {
            assert(bytes@ == self.spec_record_bytes(index as int));
            assert(layout_valid(self.spec_record_bytes(index as int)));
        }
        Exception::from_validated(bytes)
    }

    /// The number of strings in the side table.
    pub fn num_strings(&self) -> (r: usize)
        ensures
            r == self.spec_num_strings(),
    {
        self.strings.len()
    }

    /// The string at `index` of the side table, where Closure and
    /// FullMappings slots point.
    pub fn get_string(&self, index: usize) -> (r: &str)
        requires
            index < self.spec_num_strings(),
        ensures
            r@ == self.spec_string(index as int),
    {
        self.strings[index].as_str()
    }
}

} // verus!
