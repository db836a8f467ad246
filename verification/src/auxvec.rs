//! The auxiliary vector: the keys under which the kernel tells a new process
//! about its program.

use vstd::prelude::*;

verus! {

#[derive(Clone, Copy, Debug, PartialEq, Eq, Structural)]
pub enum Auxv {
    Null,
    Ignore,
    ExecFd,
    Phdr,
    Phent,
    Phnum,
    Pagesz,
    Baze,
    Flags,
    Entry,
    NotElf,
    Uid,
    Euid,
    Gid,
    Egid,
    Platform,
    Hwcap,
    Clktlk,
    Secure,
    BasePlatform,
    Random,
    HwCap2,
    Execfn,
}

/// The number of bytes that the entry `Random` points to.
pub const RANDOM_BYTES: u64 = 16;

/// A key of the auxiliary vector with its value.
#[derive(Clone, Copy, Debug)]
pub struct AuxPair(pub Auxv, pub u64);

impl Auxv {
    /// The number that stands for the key in memory.
    pub open spec fn number(self) -> u64 {
        match self {
            Auxv::Null => 0,
            Auxv::Ignore => 1,
            Auxv::ExecFd => 2,
            Auxv::Phdr => 3,
            Auxv::Phent => 4,
            Auxv::Phnum => 5,
            Auxv::Pagesz => 6,
            Auxv::Baze => 7,
            Auxv::Flags => 8,
            Auxv::Entry => 9,
            Auxv::NotElf => 10,
            Auxv::Uid => 11,
            Auxv::Euid => 12,
            Auxv::Gid => 13,
            Auxv::Egid => 14,
            Auxv::Platform => 15,
            Auxv::Hwcap => 16,
            Auxv::Clktlk => 17,
            Auxv::Secure => 23,
            Auxv::BasePlatform => 24,
            Auxv::Random => 25,
            Auxv::HwCap2 => 26,
            Auxv::Execfn => 31,
        }
    }

    /// Returns the number that stands for the key in memory.
    pub fn value(self) -> (number: u64)
        ensures
            number == self.number(),
    {
        match self {
            Auxv::Null => 0,
            Auxv::Ignore => 1,
            Auxv::ExecFd => 2,
            Auxv::Phdr => 3,
            Auxv::Phent => 4,
            Auxv::Phnum => 5,
            Auxv::Pagesz => 6,
            Auxv::Baze => 7,
            Auxv::Flags => 8,
            Auxv::Entry => 9,
            Auxv::NotElf => 10,
            Auxv::Uid => 11,
            Auxv::Euid => 12,
            Auxv::Gid => 13,
            Auxv::Egid => 14,
            Auxv::Platform => 15,
            Auxv::Hwcap => 16,
            Auxv::Clktlk => 17,
            Auxv::Secure => 23,
            Auxv::BasePlatform => 24,
            Auxv::Random => 25,
            Auxv::HwCap2 => 26,
            Auxv::Execfn => 31,
        }
    }
}

} // verus!
