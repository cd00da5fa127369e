use vstd::prelude::*;

verus! {

/// The I/O error of the standard library, carried through unchanged.
#[verifier::external_type_specification]
#[verifier::external_body]
pub struct ExIoError(std::io::Error);

/// Why a program could not be compiled or run.
#[derive(Debug)]
pub enum JitError {
    /// A character that is neither an arithmetic symbol nor whitespace.
    InvalidSymbol(char),
    /// A stream or file-system failure.
    IoError(std::io::Error),
    /// The assembler exited with this non-zero status.
    AsmFailure(i32),
    /// The binary-extraction tool exited with this non-zero status.
    BinFailure(i32),
    /// Mapping a region of this size failed, or releasing a region failed
    /// with this status.
    MmapFailure(usize),
}

/// The character of a decimal digit.
pub open spec fn digit_char(d: int) -> char {
    (48 + d) as char
}

/// The decimal digits of a natural number, most significant first.
pub open spec fn digits(n: nat) -> Seq<char>
    decreases n,
{
    if n < 10 {
        seq![digit_char(n as int)]
    } else {
        digits(n / 10).push(digit_char((n % 10) as int))
    }
}

/// An integer in decimal notation, with a leading `-` when negative.
pub open spec fn decimal(n: int) -> Seq<char> {
    if n < 0 {
        seq!['-'] + digits((-n) as nat)
    } else {
        digits(n as nat)
    }
}

/// Relies on the `Display` of `i32`: decimal notation.
#[verifier::external_body]
fn i32_text(n: i32) -> (r: String)
    ensures
        r@ == decimal(n as int),
{
    n.to_string()
}

/// Relies on the `Display` of `usize`: decimal notation.
#[verifier::external_body]
fn usize_text(n: usize) -> (r: String)
    ensures
        r@ == decimal(n as int),
{
    n.to_string()
}

/// Relies on the `Display` of `char`: the character itself.
#[verifier::external_body]
fn char_text(c: char) -> (r: String)
    ensures
        r@ == seq![c],
{
    c.to_string()
}

/// Relies on the `Display` of `std::io::Error`, whose text comes from the
/// platform and is not stated here.
#[verifier::external_body]
fn io_error_text(e: &std::io::Error) -> (r: String) {
    e.to_string()
}

impl JitError {
    /// A one-line description of the error.
    pub fn message(&self) -> (r: String)
        ensures
            *self matches JitError::InvalidSymbol(c) ==> r@ == "invalid symbol: "@ + seq![c],
            *self matches JitError::AsmFailure(code) ==> r@ == "failed to assemble program: "@
                + decimal(code as int),
            *self matches JitError::BinFailure(code) ==> r@ == "failed to extract binary from ELF: "@
                + decimal(code as int),
            *self matches JitError::MmapFailure(size) ==> r@
                == "failed to allocate or free mmap region with size "@ + decimal(size as int),
    {
        match self {
            JitError::InvalidSymbol(c) => {
                let mut r = String::from_str("invalid symbol: ");
                let t = char_text(*c);
                r.append(t.as_str());
                r
            },
            JitError::IoError(e) => io_error_text(e),
            JitError::AsmFailure(code) => {
                let mut r = String::from_str("failed to assemble program: ");
                let t = i32_text(*code);
                r.append(t.as_str());
                r
            },
            JitError::BinFailure(code) => {
                let mut r = String::from_str("failed to extract binary from ELF: ");
                let t = i32_text(*code);
                r.append(t.as_str());
                r
            },
            JitError::MmapFailure(size) => {
                let mut r = String::from_str("failed to allocate or free mmap region with size ");
                let t = usize_text(*size);
                r.append(t.as_str());
                r
            },
        }
    }
}

impl From<std::io::Error> for JitError {
    fn from(err: std::io::Error) -> (r: JitError)
        ensures
            r == JitError::IoError(err),
    {
        JitError::IoError(err)
    }
}

impl vstd::std_specs::convert::FromSpecImpl<std::io::Error> for JitError {
    open spec fn obeys_from_spec() -> bool {
        true
    }

    open spec fn from_spec(err: std::io::Error) -> JitError {
        JitError::IoError(err)
    }
}

} // verus!
