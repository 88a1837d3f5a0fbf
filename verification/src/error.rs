//! What can go wrong in a mirror run.

use vstd::prelude::*;

verus! {

/// Why a text is no hexadecimal rendering of the bytes asked for.
#[derive(Debug, Clone, Copy, PartialEq, Eq, Structural)]
pub enum HexError {
    /// A character that is no hexadecimal digit, and its position.
    InvalidHexCharacter { c: char, index: usize },
    /// The text has an odd number of digits.
    OddLength,
    /// The text does not fill the bytes asked for.
    InvalidStringLength,
}

/// Why a text is no unsigned integer.
#[derive(Debug, Clone, Copy, PartialEq, Eq, Structural)]
pub enum IntError {
    /// The text is empty.
    Empty,
    /// A character that is no decimal digit.
    InvalidDigit,
    /// The number does not fit.
    PosOverflow,
}

/// What went wrong with one download or one step of a phase.
#[derive(Debug)]
pub enum ErrorKind {
    /// The download queue was closed.
    AsyncChannelSend,
    /// The response's status was no success.
    Download { url: String, status_code: u16 },
    /// The digest of what was received is not the expected one.
    Checksum { url: String, expected: String, hash: String },
    /// The text has not the length of a checksum.
    IntoChecksum { value: String },
    /// The text is no hexadecimal rendering.
    FromHex(HexError),
    /// The file system or the transport failed.
    Io(String),
    /// The HTTP client failed.
    Reqwest(String),
    /// A `Content-Length` that is no number.
    ParseInt(IntError),
    /// The walk through the manifests failed.
    Walkdir(String),
    /// A document that is no JSON of the expected shape.
    Serde(String),
    /// An index that cannot be encoded or decoded.
    Bitcode(String),
    /// A text that is no version or no range.
    SemVer,
}

/// A failed phase, with what went wrong in it.
#[derive(Debug)]
pub enum NpmError {
    /// The first phase: metadata of the manifests' own dependencies.
    Dependencies(ErrorKind),
    /// The second phase: metadata of their descendants.
    ChildDependencies(ErrorKind),
    /// The third phase: tarballs.
    Packages(ErrorKind),
}

/// An error as a mathematical value.
pub enum ErrorSpec {
    AsyncChannelSend,
    Download { url: Seq<char>, status_code: u16 },
    Checksum { url: Seq<char>, expected: Seq<char>, hash: Seq<char> },
    IntoChecksum { value: Seq<char> },
    FromHex(HexError),
    Io(Seq<char>),
    Reqwest(Seq<char>),
    ParseInt(IntError),
    Walkdir(Seq<char>),
    Serde(Seq<char>),
    Bitcode(Seq<char>),
    SemVer,
}

impl View for ErrorKind {
    type V = ErrorSpec;

    open spec fn view(&self) -> ErrorSpec {
        match self {
            ErrorKind::AsyncChannelSend => ErrorSpec::AsyncChannelSend,
            ErrorKind::Download { url, status_code } => ErrorSpec::Download {
                url: url@,
                status_code: *status_code,
            },
            ErrorKind::Checksum { url, expected, hash } => ErrorSpec::Checksum {
                url: url@,
                expected: expected@,
                hash: hash@,
            },
            ErrorKind::IntoChecksum { value } => ErrorSpec::IntoChecksum { value: value@ },
            ErrorKind::FromHex(e) => ErrorSpec::FromHex(*e),
            ErrorKind::Io(m) => ErrorSpec::Io(m@),
            ErrorKind::Reqwest(m) => ErrorSpec::Reqwest(m@),
            ErrorKind::ParseInt(e) => ErrorSpec::ParseInt(*e),
            ErrorKind::Walkdir(m) => ErrorSpec::Walkdir(m@),
            ErrorKind::Serde(m) => ErrorSpec::Serde(m@),
            ErrorKind::Bitcode(m) => ErrorSpec::Bitcode(m@),
            ErrorKind::SemVer => ErrorSpec::SemVer,
        }
    }
}

/// The phase in which something went wrong.
#[derive(Debug, Clone, Copy, PartialEq, Eq, Structural)]
pub enum Phase {
    Dependencies,
    ChildDependencies,
    Packages,
}

impl NpmError {
    /// The failure of a phase.
    pub open spec fn in_phase_spec(phase: Phase, kind: ErrorKind) -> NpmError {
        match phase {
            Phase::Dependencies => NpmError::Dependencies(kind),
            Phase::ChildDependencies => NpmError::ChildDependencies(kind),
            Phase::Packages => NpmError::Packages(kind),
        }
    }

    /// The failure of a phase.
    pub fn in_phase(phase: Phase, kind: ErrorKind) -> (r: NpmError)
        ensures
            r == Self::in_phase_spec(phase, kind),
            r.spec_phase() == phase,
            r.spec_kind() == kind,
    {
        match phase {
            Phase::Dependencies => NpmError::Dependencies(kind),
            Phase::ChildDependencies => NpmError::ChildDependencies(kind),
            Phase::Packages => NpmError::Packages(kind),
        }
    }

    /// The phase that failed.
    pub open spec fn spec_phase(&self) -> Phase {
        match self {
            NpmError::Dependencies(_) => Phase::Dependencies,
            NpmError::ChildDependencies(_) => Phase::ChildDependencies,
            NpmError::Packages(_) => Phase::Packages,
        }
    }

    /// What went wrong in it.
    pub open spec fn spec_kind(&self) -> ErrorKind {
        match self {
            NpmError::Dependencies(k) => *k,
            NpmError::ChildDependencies(k) => *k,
            NpmError::Packages(k) => *k,
        }
    }

    /// The phase that failed.
    pub fn phase(&self) -> (r: Phase)
        ensures
            r == self.spec_phase(),
    {
        match self {
            NpmError::Dependencies(_) => Phase::Dependencies,
            NpmError::ChildDependencies(_) => Phase::ChildDependencies,
            NpmError::Packages(_) => Phase::Packages,
        }
    }

    /// What went wrong in it.
    pub fn kind(&self) -> (r: &ErrorKind)
        ensures
            *r == self.spec_kind(),
    {
        match self {
            NpmError::Dependencies(k) => k,
            NpmError::ChildDependencies(k) => k,
            NpmError::Packages(k) => k,
        }
    }
}

} // verus!
