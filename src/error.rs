use vstd::prelude::*;

verus! {

/// Why an upload run stopped or did not complete.
pub enum UploadError {
    /// A metadata document's symbol differs from the configured one.
    SymbolMismatch { file: String, expected: String, actual: String },
    /// A metadata document's seller fee differs from the configured one.
    FeeMismatch { file: String, expected_fee: u16, actual_fee: u16 },
    /// A metadata document could not be parsed.
    MetadataParse { file: String, reason: String },
    /// More images than metadata documents were scheduled.
    MoreImagesThanMetadata { images: usize, metadata: usize },
    /// No asset has the scheduled index.
    MissingAsset(usize),
    /// The asset of the scheduled index has no file for the batch's role.
    MissingFile(usize),
    /// The cache holds no item for the scheduled index.
    MissingCacheEntry(usize),
    /// The files of a batch do not share one extension.
    ExtensionMismatch,
    /// Not every asset was uploaded; the distinct messages of the failures
    /// that were seen, or none when no failure was recorded.
    Incomplete(Vec<String>),
}

} // verus!
