//! Open files of the guest: the bytes of a file and the position of the next
//! read.

use vstd::prelude::*;

verus! {

/// The descriptor numbers under which the bundled shared libraries are opened.
pub const LIBC_FILE_DESCRIPTOR: i64 = 10;
pub const LIBCPP_FILE_DESCRIPTOR: i64 = 11;
pub const LIBM_FILE_DESCRIPTOR: i64 = 12;
pub const LIBGCCS_FILE_DESCRIPTOR: i64 = 13;

pub struct FileDescriptor {
    /// The position of the next read.
    pub offset: u64,
    pub data: Vec<u8>,
}

impl Clone for FileDescriptor {
    /// Returns a copy of the descriptor: the same bytes and the same position.
    fn clone(&self) -> (copy: FileDescriptor)
        ensures
            copy.offset == self.offset,
            copy.data@ == self.data@,
    {
        FileDescriptor { offset: self.offset, data: self.data.clone() }
    }
}

impl FileDescriptor {
    /// A descriptor that reads `data` from its start.
    pub fn new(data: Vec<u8>) -> (file: FileDescriptor)
        ensures
            file.offset == 0,
            file.data == data,
    {
        FileDescriptor { offset: 0, data }
    }

    /// The bytes that a read of up to `count` bytes consumes: those from the
    /// current position to the end of the file, `count` at most.
    pub open spec fn pending(self, count: u64) -> Seq<u8> {
        if self.offset >= self.data@.len() {
            Seq::empty()
        } else if self.offset + count >= self.data@.len() {
            self.data@.subrange(self.offset as int, self.data@.len() as int)
        } else {
            self.data@.subrange(self.offset as int, self.offset + count)
        }
    }

}

} // verus!
