use vstd::prelude::*;

verus! {

/// Diagnostic for a rejected attribute line.
///
/// `Malformed` means the payload violates the grammar of its kind and the
/// attribute cannot be represented.  `Unsupported` means a construct is
/// recognized as out of grammar but a lenient caller may skip it and continue
/// (an unknown attribute keyword, an unknown candidate extension keyword).
/// Both carry a short human message and the exact offending source text.
#[derive(Debug)]
pub enum SdpParserError {
    Malformed { message: String, line: String },
    Unsupported { message: String, line: String },
}

/// The two diagnostic severities, without the carried text.
#[derive(Debug, PartialEq, Eq, Structural, Clone, Copy)]
pub enum SdpErrorKind {
    Malformed,
    Unsupported,
}

impl SdpParserError {
    /// Which of the two severities this diagnostic has.
    pub open spec fn kind(&self) -> SdpErrorKind {
        match self {
            SdpParserError::Malformed { .. } => SdpErrorKind::Malformed,
            SdpParserError::Unsupported { .. } => SdpErrorKind::Unsupported,
        }
    }

    /// The offending source text carried by the diagnostic.
    pub open spec fn offending(&self) -> Seq<char> {
        match self {
            SdpParserError::Malformed { line, .. } => line@,
            SdpParserError::Unsupported { line, .. } => line@,
        }
    }

    /// The human message carried by the diagnostic.
    pub fn message(&self) -> &String {
        match self {
            SdpParserError::Malformed { message, .. } => message,
            SdpParserError::Unsupported { message, .. } => message,
        }
    }

    /// The offending source text, for display beside the message.
    pub fn offending_text(&self) -> (r: &String)
        ensures
            r@ == self.offending(),
    {
        match self {
            SdpParserError::Malformed { line, .. } => line,
            SdpParserError::Unsupported { line, .. } => line,
        }
    }

    /// True for the hard-failure severity.
    pub fn is_malformed(&self) -> (r: bool)
        ensures
            r == (self.kind() is Malformed),
    {
        match self {
            SdpParserError::Malformed { .. } => true,
            SdpParserError::Unsupported { .. } => false,
        }
    }

    /// True for the soft-failure severity.
    pub fn is_unsupported(&self) -> (r: bool)
        ensures
            r == (self.kind() is Unsupported),
    {
        match self {
            SdpParserError::Malformed { .. } => false,
            SdpParserError::Unsupported { .. } => true,
        }
    }
}

} // verus!
