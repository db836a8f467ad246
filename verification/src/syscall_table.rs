//! The system calls that the emulator knows, by their numbers in the Linux
//! ABI for RISC-V.

use vstd::prelude::*;

verus! {

#[derive(Clone, Copy, Debug, PartialEq, Eq, Structural)]
pub enum Syscall {
    Ioctl,
    Faccessat,
    Openat,
    Close,
    Lseek,
    Read,
    Write,
    Writev,
    Readlinkat,
    Newfstatat,
    Exit,
    ExitGroup,
    SetTidAddress,
    Futex,
    SetRobustList,
    ClockGettime,
    SchedYield,
    Tgkill,
    RtSigaction,
    RtSigprocmask,
    Getpid,
    Gettid,
    Brk,
    Munmap,
    Mmap,
    Mprotect,
    Prlimit64,
    Getrandom,
}

/// The system call that `number` names, if the emulator knows it.
pub open spec fn syscall_named(number: u64) -> Option<Syscall> {
    if number == 29 {
        Some(Syscall::Ioctl)
    } else if number == 48 {
        Some(Syscall::Faccessat)
    } else if number == 56 {
        Some(Syscall::Openat)
    } else if number == 57 {
        Some(Syscall::Close)
    } else if number == 62 {
        Some(Syscall::Lseek)
    } else if number == 63 {
        Some(Syscall::Read)
    } else if number == 64 {
        Some(Syscall::Write)
    } else if number == 66 {
        Some(Syscall::Writev)
    } else if number == 78 {
        Some(Syscall::Readlinkat)
    } else if number == 79 {
        Some(Syscall::Newfstatat)
    } else if number == 93 {
        Some(Syscall::Exit)
    } else if number == 94 {
        Some(Syscall::ExitGroup)
    } else if number == 96 {
        Some(Syscall::SetTidAddress)
    } else if number == 98 {
        Some(Syscall::Futex)
    } else if number == 99 {
        Some(Syscall::SetRobustList)
    } else if number == 113 {
        Some(Syscall::ClockGettime)
    } else if number == 124 {
        Some(Syscall::SchedYield)
    } else if number == 131 {
        Some(Syscall::Tgkill)
    } else if number == 134 {
        Some(Syscall::RtSigaction)
    } else if number == 135 {
        Some(Syscall::RtSigprocmask)
    } else if number == 172 {
        Some(Syscall::Getpid)
    } else if number == 178 {
        Some(Syscall::Gettid)
    } else if number == 214 {
        Some(Syscall::Brk)
    } else if number == 215 {
        Some(Syscall::Munmap)
    } else if number == 222 {
        Some(Syscall::Mmap)
    } else if number == 226 {
        Some(Syscall::Mprotect)
    } else if number == 261 {
        Some(Syscall::Prlimit64)
    } else if number == 278 {
        Some(Syscall::Getrandom)
    } else {
        None
    }
}

impl Syscall {
    /// The number of the system call.
    pub open spec fn number(self) -> u64 {
        match self {
            Syscall::Ioctl => 29,
            Syscall::Faccessat => 48,
            Syscall::Openat => 56,
            Syscall::Close => 57,
            Syscall::Lseek => 62,
            Syscall::Read => 63,
            Syscall::Write => 64,
            Syscall::Writev => 66,
            Syscall::Readlinkat => 78,
            Syscall::Newfstatat => 79,
            Syscall::Exit => 93,
            Syscall::ExitGroup => 94,
            Syscall::SetTidAddress => 96,
            Syscall::Futex => 98,
            Syscall::SetRobustList => 99,
            Syscall::ClockGettime => 113,
            Syscall::SchedYield => 124,
            Syscall::Tgkill => 131,
            Syscall::RtSigaction => 134,
            Syscall::RtSigprocmask => 135,
            Syscall::Getpid => 172,
            Syscall::Gettid => 178,
            Syscall::Brk => 214,
            Syscall::Munmap => 215,
            Syscall::Mmap => 222,
            Syscall::Mprotect => 226,
            Syscall::Prlimit64 => 261,
            Syscall::Getrandom => 278,
        }
    }

    /// Returns the system call that `number` names, if the emulator knows it.
    pub fn from_u64(number: u64) -> (call: Option<Syscall>)
        ensures
            call == syscall_named(number),
    {
        match number {
            29 => Some(Syscall::Ioctl),
            48 => Some(Syscall::Faccessat),
            56 => Some(Syscall::Openat),
            57 => Some(Syscall::Close),
            62 => Some(Syscall::Lseek),
            63 => Some(Syscall::Read),
            64 => Some(Syscall::Write),
            66 => Some(Syscall::Writev),
            78 => Some(Syscall::Readlinkat),
            79 => Some(Syscall::Newfstatat),
            93 => Some(Syscall::Exit),
            94 => Some(Syscall::ExitGroup),
            96 => Some(Syscall::SetTidAddress),
            98 => Some(Syscall::Futex),
            99 => Some(Syscall::SetRobustList),
            113 => Some(Syscall::ClockGettime),
            124 => Some(Syscall::SchedYield),
            131 => Some(Syscall::Tgkill),
            134 => Some(Syscall::RtSigaction),
            135 => Some(Syscall::RtSigprocmask),
            172 => Some(Syscall::Getpid),
            178 => Some(Syscall::Gettid),
            214 => Some(Syscall::Brk),
            215 => Some(Syscall::Munmap),
            222 => Some(Syscall::Mmap),
            226 => Some(Syscall::Mprotect),
            261 => Some(Syscall::Prlimit64),
            278 => Some(Syscall::Getrandom),
            _ => None,
        }
    }
}

/// A system call is named by its own number, and by no other.
pub proof fn law_numbers_name_calls(call: Syscall, number: u64)
    ensures
        syscall_named(call.number()) == Some(call),
        syscall_named(number) == Some(call) ==> number == call.number(),
{
}

} // verus!
