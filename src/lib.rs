use vstd::prelude::*;

pub mod engine;
pub mod error;
pub mod machine;
pub mod ops;
pub mod soln1;
pub mod soln2;

pub use error::JitError;
pub use soln1::Soln1;
pub use soln2::Soln2;

use ops::translation;

verus! {

/// A compiler from programs to the bytes of a native routine that takes no
/// arguments and returns the accumulator as a signed 64-bit integer.
pub trait Jit {
    /// Compiles a program. A program with a character that is neither a
    /// symbol nor whitespace is refused, naming the first such character.
    fn jit(program: &str) -> (r: Result<Vec<u8>, JitError>)
        ensures
            translation(program@) is Err ==> r == Err::<Vec<u8>, JitError>(
                JitError::InvalidSymbol(translation(program@)->Err_0),
            ),
            r is Ok ==> translation(program@) is Ok,
    ;
}

} // verus!
