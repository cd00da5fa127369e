use vstd::prelude::*;

use crate::error::JitError;

verus! {

/// Where one execution of a routine stands.
#[derive(Clone, Copy, Debug, PartialEq, Eq, Structural)]
pub enum Phase {
    /// Nothing is mapped yet.
    Ready,
    /// The region is mapped; the code is to be copied in and called.
    Mapped,
    /// The routine has returned; the region is still mapped.
    Returned,
    /// The execution is over and no region is held.
    Finished,
}

/// What the engine asks of the code that performs the memory work.
#[derive(Debug)]
pub enum Step {
    /// Map a private anonymous region of this many bytes, readable, writable
    /// and executable.
    MapRegion(usize),
    /// Copy the code into the region, byte for byte, and call it.
    CopyAndCall,
    /// Release the region, of this many bytes.
    Unmap(usize),
    /// The execution is over, with this outcome.
    Finish(Result<i64, JitError>),
}

/// The decisions of one execution: map a region the size of the code, copy
/// the code in and call it, release the region whatever the call returned,
/// and report the value or the failure.
pub struct Execution {
    /// The size of the code, and of the region.
    pub len: usize,
    pub phase: Phase,
    /// The value the routine returned, once it has.
    pub value: i64,
}

impl Execution {
    /// Whether a region is mapped and not yet released.
    pub open spec fn holds_region(&self) -> bool {
        self.phase == Phase::Mapped || self.phase == Phase::Returned
    }

    /// Begins an execution of `code`: the first step maps a region of its size.
    pub fn start(code: &[u8]) -> (r: (Execution, Step))
        ensures
            r.0.len == code@.len(),
            r.0.phase == Phase::Ready,
            r.1 == Step::MapRegion(code@.len() as usize),
    {
        let len = code.len();
        (Execution { len, phase: Phase::Ready, value: 0 }, Step::MapRegion(len))
    }

    /// The mapping was made (`ok`) or refused. A refused mapping ends the
    /// execution with `MmapFailure` of the requested size.
    pub fn mapped(&mut self, ok: bool) -> (r: Step)
        requires
            old(self).phase == Phase::Ready,
        ensures
            final(self).len == old(self).len,
            ok ==> r == Step::CopyAndCall && final(self).phase == Phase::Mapped,
            !ok ==> r == Step::Finish(Err(JitError::MmapFailure(old(self).len)))
                && final(self).phase == Phase::Finished,
            r is Finish ==> !final(self).holds_region(),
    {
        if ok {
            self.phase = Phase::Mapped;
            Step::CopyAndCall
        } else {
            self.phase = Phase::Finished;
            Step::Finish(Err(JitError::MmapFailure(self.len)))
        }
    }

    /// The routine returned `value`; the region is released next.
    pub fn returned(&mut self, value: i64) -> (r: Step)
        requires
            old(self).phase == Phase::Mapped,
        ensures
            final(self).len == old(self).len,
            final(self).phase == Phase::Returned,
            final(self).value == value,
            r == Step::Unmap(old(self).len),
    {
        self.phase = Phase::Returned;
        self.value = value;
        Step::Unmap(self.len)
    }

    /// The release ended with `status`: zero gives the value the routine
    /// returned, anything else `MmapFailure` of that status.
    pub fn unmapped(&mut self, status: i32) -> (r: Step)
        requires
            old(self).phase == Phase::Returned,
        ensures
            final(self).len == old(self).len,
            final(self).phase == Phase::Finished,
            !final(self).holds_region(),
            status == 0 ==> r == Step::Finish(Ok(old(self).value)),
            status != 0 ==> r == Step::Finish(Err(JitError::MmapFailure(status as usize))),
    {
        self.phase = Phase::Finished;
        if status == 0 {
            Step::Finish(Ok(self.value))
        } else {
            Step::Finish(Err(JitError::MmapFailure(status as usize)))
        }
    }
}

} // verus!
