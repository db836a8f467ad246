use vstd::prelude::*;

verus! {

/// The faults that stop the emulator or reject a request.
#[derive(Clone, Copy, Debug, PartialEq, Eq, Structural)]
pub enum RVError {
    /// A load, store or instruction fetch touched an address that is not mapped.
    SegmentationFault,
    /// A profiling label names a symbol that the symbol table does not hold.
    InvalidLabel,
    /// The program file is not a 64-bit RISC-V executable.
    InvalidFileType,
}

impl RVError {
    /// The text that describes the fault to a user.
    pub open spec fn message_spec(self) -> Seq<char> {
        match self {
            RVError::SegmentationFault => "segmentation fault"@,
            RVError::InvalidLabel => "the requested function label does not exist"@,
            RVError::InvalidFileType => "The requested file type is not valid"@,
        }
    }

    /// Returns the text that describes the fault.
    pub fn message(&self) -> (text: &'static str)
        ensures
            text@ == self.message_spec(),
    {
        match self {
            RVError::SegmentationFault => "segmentation fault",
            RVError::InvalidLabel => "the requested function label does not exist",
            RVError::InvalidFileType => "The requested file type is not valid",
        }
    }
}

} // verus!
