//! What each system call makes of the emulator's state. The guest names the
//! call in `a7` and passes its arguments in `a0` to `a5`; the result comes
//! back in `a0`, and a failure is the number -1 there. A system call fails
//! the emulator itself only with a segmentation fault, where it has to read
//! or write memory that is not mapped.

use vstd::prelude::*;
use crate::error::RVError;
use crate::files::{
    LIBCPP_FILE_DESCRIPTOR, LIBC_FILE_DESCRIPTOR, LIBGCCS_FILE_DESCRIPTOR, LIBM_FILE_DESCRIPTOR,
};
use crate::machine::{EmulatorView, FileView};
use crate::memory::{file_window, padded, MemoryView, PAGE_SIZE};
use crate::register::{Reg, A0, A1, A2, A3, A4, A5, A7};
use crate::syscall_table::{syscall_named, Syscall};
use crate::text::utf8_lossy;

verus! {

/// The result of a system call that failed: -1.
pub const FAILURE: u64 = 0xFFFF_FFFF_FFFF_FFFF;

/// The most bytes that are read of a path.
pub const PATH_LIMIT: u64 = 512;

/// The futex operation that waits, for a futex that is private to the process.
pub const FUTEX_WAIT_PRIVATE: u64 = 128;

/// The flag of `mmap` that asks for the mapping at the address given.
pub const MAP_FIXED: u64 = 0x10;

/// The byte that `getrandom` returns, for the guest to run the same way
/// every time.
pub const RANDOM_BYTE: u8 = 0xff;

/// The path under which a process finds its own program.
pub open spec fn own_path() -> Seq<char> {
    "/proc/self/exe"@
}

/// The path that the emulator gives as that of the program, with the zero
/// byte that ends it.
pub open spec fn program_path_bytes() -> Seq<u8> {
    seq![0x2fu8, 0x70u8, 0x72u8, 0x6fu8, 0x67u8, 0u8]
}

/// The text that a write of these bytes adds to the output.
pub open spec fn written(bytes: Seq<u8>) -> Seq<char> {
    utf8_lossy(bytes)
}

impl EmulatorView {
    /// The state with `value` as the result of a system call, in `a0`.
    pub open spec fn returned(self, value: u64) -> EmulatorView {
        self.with_x(Reg(A0), value)
    }

    /// The descriptor and the bytes of the library that is opened under
    /// `path`, if it is one of the four.
    pub open spec fn library_at(self, path: Seq<char>) -> Option<(i64, Seq<u8>)> {
        if path == "/lib/tls/libc.so.6"@ {
            Some((LIBC_FILE_DESCRIPTOR, self.libraries.libc))
        } else if path == "/lib/tls/libstdc++.so.6"@ {
            Some((LIBCPP_FILE_DESCRIPTOR, self.libraries.libstdcpp))
        } else if path == "/lib/tls/libm.so.6"@ {
            Some((LIBM_FILE_DESCRIPTOR, self.libraries.libm))
        } else if path == "/lib/tls/libgcc_s.so.1"@ {
            Some((LIBGCCS_FILE_DESCRIPTOR, self.libraries.libgcc_s))
        } else {
            None
        }
    }

    /// `openat`: the path is read from `a1`; where it names one of the
    /// libraries, the library is open under its descriptor, read from the
    /// start, and the descriptor is the result.
    pub open spec fn after_openat(self) -> Result<EmulatorView, RVError> {
        match self.memory.string_at(self.x[A1 as int] as int, PATH_LIMIT as int) {
            None => Err(RVError::SegmentationFault),
            Some(bytes) => match self.library_at(utf8_lossy(bytes)) {
                Some((fd, data)) => Ok(
                    (EmulatorView {
                        files: self.files.insert(fd, FileView { offset: 0, data }),
                        ..self
                    }).returned(fd as u64),
                ),
                None => Ok(self.returned(FAILURE)),
            },
        }
    }

    /// `close`: the descriptor in `a0` is closed, where it was open.
    pub open spec fn after_close(self) -> EmulatorView {
        let fd = self.x[A0 as int] as i64;
        if self.files.contains_key(fd) {
            (EmulatorView { files: self.files.remove(fd), ..self }).returned(0)
        } else {
            self.returned(FAILURE)
        }
    }

    /// The position that `lseek` moves a file to, for the three ways of
    /// counting that it knows.
    pub open spec fn sought(file: FileView, offset: u64, whence: u64) -> Option<u64> {
        if whence == 0 {
            Some(offset)
        } else if whence == 1 {
            Some(file.offset.wrapping_add(offset))
        } else if whence == 2 {
            Some((file.data.len() as u64).wrapping_add(offset))
        } else {
            None
        }
    }

    /// `lseek`: the file in `a0` is moved by `a1`, counted as `a2` tells;
    /// on success `a0` stays as it is.
    pub open spec fn after_lseek(self) -> EmulatorView {
        let fd = self.x[A0 as int] as i64;
        if self.files.contains_key(fd) {
            match Self::sought(self.files[fd], self.x[A1 as int], self.x[A2 as int]) {
                Some(offset) => EmulatorView {
                    files: self.files.insert(fd, FileView { offset, ..self.files[fd] }),
                    ..self
                },
                None => self.returned(FAILURE),
            }
        } else {
            self.returned(FAILURE)
        }
    }

    /// The bytes that a read of up to `count` bytes takes from a file.
    pub open spec fn pending(file: FileView, count: u64) -> Seq<u8> {
        if file.offset >= file.data.len() {
            Seq::empty()
        } else if file.offset + count >= file.data.len() {
            file.data.subrange(file.offset as int, file.data.len() as int)
        } else {
            file.data.subrange(file.offset as int, file.offset + count)
        }
    }

    /// `read`: up to `a2` bytes of the file in `a0` are copied to `a1`, the
    /// file moves past them, and their number is the result.
    pub open spec fn after_read(self) -> Result<EmulatorView, RVError> {
        let fd = self.x[A0 as int] as i64;
        if self.files.contains_key(fd) {
            let file = self.files[fd];
            let data = Self::pending(file, self.x[A2 as int]);
            match self.memory.store_each(self.x[A1 as int], data) {
                Some(memory) => Ok(
                    (EmulatorView {
                        memory,
                        files: self.files.insert(
                            fd,
                            FileView { offset: (file.offset + data.len()) as u64, ..file },
                        ),
                        ..self
                    }).returned(data.len() as u64),
                ),
                None => Err(RVError::SegmentationFault),
            }
        } else {
            Ok(self.returned(FAILURE))
        }
    }

    /// Whether the descriptor is one that the guest can write to: standard
    /// output or standard error.
    pub open spec fn writable(fd: u64) -> bool {
        fd == 1 || fd == 2
    }

    /// `write`: the `a2` bytes at `a1` are added to the output as text, and
    /// their number is the result.
    pub open spec fn after_write(self) -> Result<EmulatorView, RVError> {
        if Self::writable(self.x[A0 as int]) {
            match self.memory.load(self.x[A1 as int], self.x[A2 as int] as int) {
                Some(bytes) => Ok(
                    (EmulatorView { stdout: self.stdout + written(bytes), ..self }).returned(
                        self.x[A2 as int],
                    ),
                ),
                None => Err(RVError::SegmentationFault),
            }
        } else {
            Ok(self.returned(FAILURE))
        }
    }

    /// The text of the first `upto` buffers of a vector of buffers at
    /// `vectors`, each a pointer and a length of 8 bytes each, and the number
    /// of their bytes; nothing where a buffer or its entry cannot be read.
    pub open spec fn gathered(self, vectors: u64, upto: nat) -> Option<(Seq<char>, u64)>
        decreases upto,
    {
        if upto == 0 {
            Some((Seq::empty(), 0u64))
        } else {
            match self.gathered(vectors, (upto - 1) as nat) {
                None => None,
                Some((text, total)) => {
                    let entry = vectors.wrapping_add(((upto - 1) as u64).wrapping_mul(16));
                    match (
                        self.memory.load_value(entry, 8),
                        self.memory.load_value(entry.wrapping_add(8), 8),
                    ) {
                        (Some(pointer), Some(length)) => match self.memory.load(
                            pointer,
                            length as int,
                        ) {
                            Some(bytes) => Some(
                                (text + written(bytes), total.wrapping_add(length)),
                            ),
                            None => None,
                        },
                        _ => None,
                    }
                },
            }
        }
    }

    /// `writev`: the `a2` buffers of the vector at `a1` are added to the
    /// output as text, and the number of their bytes is the result.
    pub open spec fn after_writev(self) -> Result<EmulatorView, RVError> {
        if Self::writable(self.x[A0 as int]) {
            match self.gathered(self.x[A1 as int], self.x[A2 as int] as nat) {
                Some((text, total)) => Ok(
                    (EmulatorView { stdout: self.stdout + text, ..self }).returned(total),
                ),
                None => Err(RVError::SegmentationFault),
            }
        } else {
            Ok(self.returned(FAILURE))
        }
    }

    /// `readlinkat`: where the path at `a1` is that of the process's own
    /// program, the program's path is written to the buffer at `a2`, which
    /// has `a3` bytes, with zeros behind; the result is the length of the
    /// path.
    pub open spec fn after_readlinkat(self) -> Result<EmulatorView, RVError> {
        match self.memory.string_at(self.x[A1 as int] as int, PATH_LIMIT as int) {
            None => Err(RVError::SegmentationFault),
            Some(bytes) => if utf8_lossy(bytes) == own_path() {
                match self.memory.store_each(
                    self.x[A2 as int],
                    padded(program_path_bytes(), self.x[A3 as int] as int),
                ) {
                    Some(memory) => Ok((EmulatorView { memory, ..self }).returned(5)),
                    None => Err(RVError::SegmentationFault),
                }
            } else {
                Ok(self.returned(FAILURE))
            },
        }
    }

    /// `newfstatat`: the path at `a1` is read, and the result is 0.
    pub open spec fn after_newfstatat(self) -> Result<EmulatorView, RVError> {
        match self.memory.string_at(self.x[A1 as int] as int, PATH_LIMIT as int) {
            None => Err(RVError::SegmentationFault),
            Some(_) => Ok(self.returned(0)),
        }
    }

    /// `futex`: a wait sets the doubleword at `a0` to zero, so that the guest
    /// finds the futex free; the result is 0.
    pub open spec fn after_futex(self) -> Result<EmulatorView, RVError> {
        if self.x[A1 as int] == FUTEX_WAIT_PRIVATE {
            match self.memory.store_value(self.x[A0 as int], 0, 8) {
                Some(memory) => Ok((EmulatorView { memory, ..self }).returned(0)),
                None => Err(RVError::SegmentationFault),
            }
        } else {
            Ok(self.returned(0))
        }
    }

    /// `brk`: the break is set as memory's `brk` sets it, and the break
    /// after that is the result.
    pub open spec fn after_brk(self) -> EmulatorView {
        let memory = self.memory.after_brk(self.x[A0 as int]);
        (EmulatorView { memory, ..self }).returned(memory.brk)
    }

    /// The address that a mapping without a file asks for: that in `a0`
    /// where the flags in `a3` ask for a fixed address, and none else.
    pub open spec fn mmap_hint(self) -> u64 {
        if self.x[A3 as int] & MAP_FIXED != 0 {
            self.x[A0 as int]
        } else {
            0
        }
    }

    /// The result of a mapping: its address, or -1.
    pub open spec fn mmap_result(memory: MemoryView, hint: u64, size: u64) -> u64 {
        if memory.mmap_accepts(hint, size) {
            memory.mmap_address(hint)
        } else {
            FAILURE
        }
    }

    /// `mmap`: `a1` bytes are mapped. Without a file, that is with -1 in
    /// `a4`, the mapping is fresh memory. With a file, the mapping is at
    /// `a0` and shows the file from the offset in `a5` on; an offset that is
    /// no multiple of the page size fails, and so does a descriptor that is
    /// not open.
    pub open spec fn after_mmap(self) -> Result<EmulatorView, RVError> {
        let fd = self.x[A4 as int] as i64;
        let size = self.x[A1 as int];
        if fd == -1 {
            let hint = self.mmap_hint();
            Ok(
                (EmulatorView { memory: self.memory.after_mmap(hint, size), ..self }).returned(
                    Self::mmap_result(self.memory, hint, size),
                ),
            )
        } else if self.files.contains_key(fd) {
            let hint = self.x[A0 as int];
            let offset = self.x[A5 as int];
            if offset % PAGE_SIZE != 0 {
                Ok(self.returned(FAILURE))
            } else {
                match self.memory.after_mmap_file(
                    file_window(self.files[fd].data, offset, size),
                    hint,
                    size,
                ) {
                    Some(memory) => Ok(
                        (EmulatorView { memory, ..self }).returned(
                            Self::mmap_result(self.memory, hint, size),
                        ),
                    ),
                    None => Err(RVError::SegmentationFault),
                }
            }
        } else {
            Ok(self.returned(FAILURE))
        }
    }

    /// `getrandom`: the `a1` bytes at `a0` are all set to `RANDOM_BYTE`, and
    /// their number is the result.
    pub open spec fn after_getrandom(self) -> Result<EmulatorView, RVError> {
        match self.memory.store_each(
            self.x[A0 as int],
            Seq::new(self.x[A1 as int] as nat, |i: int| RANDOM_BYTE),
        ) {
            Some(memory) => Ok((EmulatorView { memory, ..self }).returned(self.x[A1 as int])),
            None => Err(RVError::SegmentationFault),
        }
    }

    /// Whether `a7` names a system call that the emulator knows.
    pub open spec fn call_known(self) -> bool {
        syscall_named(self.x[A7 as int]) is Some
    }

    /// The state after the system call that `a7` names. A number that names
    /// no call has no result: no executable function of the emulator takes
    /// it.
    pub open spec fn after_syscall(self) -> Result<EmulatorView, RVError>
        recommends
            self.call_known(),
    {
        match syscall_named(self.x[A7 as int]) {
            None => Ok(self),
            Some(call) => match call {
                Syscall::Ioctl
                | Syscall::SetTidAddress
                | Syscall::SetRobustList
                | Syscall::ClockGettime
                | Syscall::SchedYield
                | Syscall::RtSigaction
                | Syscall::RtSigprocmask
                | Syscall::Getpid
                | Syscall::Gettid
                | Syscall::Munmap
                | Syscall::Mprotect
                | Syscall::Prlimit64 => Ok(self.returned(0)),
                Syscall::Faccessat | Syscall::Tgkill => Ok(self.returned(FAILURE)),
                Syscall::Openat => self.after_openat(),
                Syscall::Close => Ok(self.after_close()),
                Syscall::Lseek => Ok(self.after_lseek()),
                Syscall::Read => self.after_read(),
                Syscall::Write => self.after_write(),
                Syscall::Writev => self.after_writev(),
                Syscall::Readlinkat => self.after_readlinkat(),
                Syscall::Newfstatat => self.after_newfstatat(),
                Syscall::Exit | Syscall::ExitGroup => Ok(
                    EmulatorView { exit_code: Some(self.x[A0 as int]), ..self },
                ),
                Syscall::Futex => self.after_futex(),
                Syscall::Brk => Ok(self.after_brk()),
                Syscall::Mmap => self.after_mmap(),
                Syscall::Getrandom => self.after_getrandom(),
            },
        }
    }

    /// The state after `inst`, an instruction of `incr` bytes, has been
    /// executed: the profiler has accounted for it, its effect is committed,
    /// and the instruction is retired. `answer` is what the floating-point
    /// unit returned, where the instruction asked it.
    pub open spec fn executed(self, inst: crate::instruction::Inst, incr: u64, answer: u64)
        -> Result<EmulatorView, RVError> {
        let effect = self.effect(inst);
        let accounted = EmulatorView { profiler: self.profiled(inst), ..self };
        match effect {
            crate::semantics::Effect::Call => match accounted.after_syscall() {
                Ok(after) => Ok(after.retired(after.pc.wrapping_add(incr))),
                Err(e) => Err(e),
            },
            _ => accounted.committed(effect, incr, answer),
        }
    }
}


impl EmulatorView {
    /// What a `read` that fails leaves: the bytes that could be copied are
    /// in memory; the file has not moved.
    pub open spec fn read_fault(self) -> EmulatorView {
        let fd = self.x[A0 as int] as i64;
        if self.files.contains_key(fd) {
            EmulatorView {
                memory: self.memory.store_until_fault(
                    self.x[A1 as int],
                    Self::pending(self.files[fd], self.x[A2 as int]),
                ),
                ..self
            }
        } else {
            self
        }
    }

    /// What a `readlinkat` that fails leaves: the part of the program's path
    /// that could be written is in memory.
    pub open spec fn readlinkat_fault(self) -> EmulatorView {
        match self.memory.string_at(self.x[A1 as int] as int, PATH_LIMIT as int) {
            Some(bytes) => if utf8_lossy(bytes) == own_path() {
                EmulatorView {
                    memory: self.memory.store_until_fault(
                        self.x[A2 as int],
                        padded(program_path_bytes(), self.x[A3 as int] as int),
                    ),
                    ..self
                }
            } else {
                self
            },
            None => self,
        }
    }

    /// What a `getrandom` that fails leaves: the bytes that could be set are
    /// set.
    pub open spec fn getrandom_fault(self) -> EmulatorView {
        EmulatorView {
            memory: self.memory.store_until_fault(
                self.x[A0 as int],
                Seq::new(self.x[A1 as int] as nat, |i: int| RANDOM_BYTE),
            ),
            ..self
        }
    }

    /// What an `mmap` of a file that fails leaves: the mapping is made, and
    /// the part of the file that could be copied is in it.
    pub open spec fn mmap_fault(self) -> EmulatorView {
        let fd = self.x[A4 as int] as i64;
        let size = self.x[A1 as int];
        let hint = self.x[A0 as int];
        let offset = self.x[A5 as int];
        if fd != -1 && self.files.contains_key(fd) && offset % PAGE_SIZE == 0 {
            EmulatorView {
                memory: self.memory.after_mmap(hint, size).store_until_fault(
                    self.memory.mmap_address(hint),
                    padded(file_window(self.files[fd].data, offset, size), size as int),
                ),
                ..self
            }
        } else {
            self
        }
    }

    /// What a system call that fails leaves. The calls that write to memory
    /// leave what they could write; every other call leaves the state as it
    /// was.
    pub open spec fn call_fault(self) -> EmulatorView {
        match syscall_named(self.x[A7 as int]) {
            Some(Syscall::Read) => self.read_fault(),
            Some(Syscall::Readlinkat) => self.readlinkat_fault(),
            Some(Syscall::Getrandom) => self.getrandom_fault(),
            Some(Syscall::Mmap) => self.mmap_fault(),
            _ => self,
        }
    }

    /// What an instruction that fails leaves: the profiler has accounted for
    /// it, and a system call has written what it could; nothing else has
    /// changed, and the instruction is not retired.
    pub open spec fn failed(self, inst: crate::instruction::Inst) -> EmulatorView {
        let accounted = EmulatorView { profiler: self.profiled(inst), ..self };
        if self.effect(inst) is Call {
            accounted.call_fault()
        } else {
            accounted
        }
    }

    /// What a step that fails leaves: nothing has changed where the
    /// instruction could not be fetched; else the profile window has moved on
    /// and the instruction has failed.
    pub open spec fn fault_state(self) -> EmulatorView {
        match self.fetched() {
            None => self,
            Some(w) => self.window_updated().failed(crate::decode16::instruction_of(w)),
        }
    }

    /// Whether the guest cannot go on: it has not exited, and its next
    /// instruction is an environment call for a system call that the
    /// emulator does not know. The emulator does not execute such a call; it
    /// is for its user to end the guest.
    pub open spec fn blocked(self) -> bool {
        self.exit_code is None && self.fetched() is Some && crate::decode16::instruction_of(
            self.fetched().unwrap(),
        ) == crate::instruction::Inst::Ecall && !self.call_known()
    }

    /// What the interpreter asks of the floating-point unit in a step, if
    /// anything.
    pub open spec fn step_request(self) -> Option<crate::semantics::FloatOp> {
        if self.exit_code is Some {
            None
        } else {
            match self.fetched() {
                None => None,
                Some(w) => {
                    let ready = self.window_updated();
                    ready.float_request(ready.effect(crate::decode16::instruction_of(w)))
                },
            }
        }
    }

    /// The state after one step. A guest that has exited stays as it is.
    /// Else the instruction at `pc` is fetched, which is a segmentation fault
    /// where it is not mapped; the profile window moves on; the instruction
    /// is executed; and the use of memory is noted.
    pub open spec fn stepped(self, answer: u64) -> Result<EmulatorView, RVError> {
        if self.exit_code is Some {
            Ok(self)
        } else {
            match self.fetched() {
                None => Err(RVError::SegmentationFault),
                Some(w) => match self.window_updated().executed(
                    crate::decode16::instruction_of(w),
                    crate::decode16::length_of(w) as u64,
                    answer,
                ) {
                    Ok(after) => Ok(after.with_usage()),
                    Err(e) => Err(e),
                },
            }
        }
    }
}

} // verus!
