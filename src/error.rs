use vstd::prelude::*;

verus! {

/// What went wrong while reading an archive.
#[derive(Debug, Clone, Copy, PartialEq, Eq, Structural)]
pub enum WzErrorKind {
    /// The input ended before the value did, or a position lies outside it.
    IO,
    BadMagic,
    BadVersion,
    BadTag,
    BadString,
    BadCanvasDepth,
    BadCanvasScale,
    BadSoundMajor,
    BadSoundSubtype,
    BadWaveFormat,
    MissingStringTableEntry,
    BadChunkSize,
    NotFound,
    Unsupported,
}

/// An error, with the position in the input at which it was found.
#[derive(Debug, Clone, Copy, PartialEq, Eq, Structural)]
pub struct WzError {
    pub kind: WzErrorKind,
    pub pos: u64,
}

impl WzError {
    pub fn new(kind: WzErrorKind, pos: usize) -> (r: WzError)
        ensures
            r.kind == kind,
            r.pos == pos as u64,
    {
        WzError { kind, pos: pos as u64 }
    }

    /// A short description of the error, for messages.
    pub fn message(&self) -> (r: &'static str) {
        match self.kind {
            WzErrorKind::IO => "unexpected end of input",
            WzErrorKind::BadMagic => "bad magic",
            WzErrorKind::BadVersion => "version mismatch",
            WzErrorKind::BadTag => "unexpected tag",
            WzErrorKind::BadString => "invalid string",
            WzErrorKind::BadCanvasDepth => "unknown canvas depth",
            WzErrorKind::BadCanvasScale => "unknown canvas scale",
            WzErrorKind::BadSoundMajor => "unknown sound major type",
            WzErrorKind::BadSoundSubtype => "unknown sound sub type",
            WzErrorKind::BadWaveFormat => "unknown wave format",
            WzErrorKind::MissingStringTableEntry => "missing string table entry",
            WzErrorKind::BadChunkSize => "bad chunk size",
            WzErrorKind::NotFound => "not found",
            WzErrorKind::Unsupported => "unsupported",
        }
    }
}

} // verus!
