//! The closed set of failures a caller can observe.

use vstd::prelude::*;

verus! {

/// Why an operation of the vault did not succeed.
#[derive(Clone, Copy, Debug, PartialEq, Eq, Structural)]
pub enum VaultError {
    /// No keychain has been created yet.
    SetupNeeded,
    /// A keychain is already present where a new one was to be created.
    KeychainExists,
    /// The password, recovery code or keyfile is wrong.
    BadCredential,
    /// The envelope was sealed with a keyfile and none was supplied.
    KeyfileRequired,
    /// The validation tag opened, but does not hold the expected constant.
    ValidationMismatch,
    /// The stored hash or length does not match what was decrypted.
    IntegrityFailure,
    /// A chunk of a stream did not authenticate, or the stream ends early.
    ChunkAuthFailure,
    /// Bytes follow the end of a stream.
    TrailingData,
    /// The version tag is not one that this library reads.
    UnsupportedVersion,
    /// The input is larger than the format can carry.
    SizeLimitExceeded,
    /// The bytes do not follow the format they claim.
    Malformed,
    /// The key-derivation function rejected its salt or parameters.
    KdfFailure,
    /// The compressor or decompressor rejected its input.
    CompressionFailure,
    /// The operating system, file system or random source failed.
    IOFailure,
    /// The operation needs the master key and the session holds none.
    SessionLocked,
    /// The file is of a type that the operation does not handle.
    UnsupportedFileType,
    /// The chunk size asked for is not a power of two within the limit.
    InvalidChunkSize,
    /// A path does not lie where it has to.
    InvalidPath,
    /// The archive writer refused an entry.
    ArchiveFailure,
}

impl VaultError {
    /// Whether the failure comes from a cryptographic check. Such failures
    /// are presented with one shared wording, so that the wording does not
    /// tell which check failed.
    pub open spec fn is_verification_failure(self) -> bool {
        self == VaultError::BadCredential || self == VaultError::ValidationMismatch || self
            == VaultError::IntegrityFailure || self == VaultError::ChunkAuthFailure
    }

    /// What the user is told.
    pub open spec fn message_text(self) -> Seq<char> {
        match self {
            VaultError::SetupNeeded => "No keychain found. Please initialize first."@,
            VaultError::KeychainExists => "Keychain already exists."@,
            VaultError::BadCredential => "Decryption denied. The credentials are wrong or the data is damaged."@,
            VaultError::ValidationMismatch => "Decryption denied. The credentials are wrong or the data is damaged."@,
            VaultError::IntegrityFailure => "Decryption denied. The credentials are wrong or the data is damaged."@,
            VaultError::ChunkAuthFailure => "Decryption denied. The credentials are wrong or the data is damaged."@,
            VaultError::KeyfileRequired => "This file requires a keyfile. Please select it."@,
            VaultError::TrailingData => "The file holds data after its end."@,
            VaultError::UnsupportedVersion => "Unsupported version."@,
            VaultError::SizeLimitExceeded => "Size limit exceeded."@,
            VaultError::Malformed => "The file is damaged."@,
            VaultError::KdfFailure => "The keychain is damaged."@,
            VaultError::CompressionFailure => "Compression failed."@,
            VaultError::IOFailure => "The system reported a failure."@,
            VaultError::SessionLocked => "Vault is locked."@,
            VaultError::UnsupportedFileType => "Unsupported file type"@,
            VaultError::InvalidChunkSize => "Invalid chunk size."@,
            VaultError::InvalidPath => "Path error."@,
            VaultError::ArchiveFailure => "The archive could not be written."@,
        }
    }

    /// The wording for the user interface.
    pub fn message(&self) -> (text: String)
        ensures
            text@ == self.message_text(),
    {
        match self {
            VaultError::SetupNeeded => "No keychain found. Please initialize first.".to_owned(),
            VaultError::KeychainExists => "Keychain already exists.".to_owned(),
            VaultError::BadCredential => "Decryption denied. The credentials are wrong or the data is damaged.".to_owned(),
            VaultError::ValidationMismatch => "Decryption denied. The credentials are wrong or the data is damaged.".to_owned(),
            VaultError::IntegrityFailure => "Decryption denied. The credentials are wrong or the data is damaged.".to_owned(),
            VaultError::ChunkAuthFailure => "Decryption denied. The credentials are wrong or the data is damaged.".to_owned(),
            VaultError::KeyfileRequired => "This file requires a keyfile. Please select it.".to_owned(),
            VaultError::TrailingData => "The file holds data after its end.".to_owned(),
            VaultError::UnsupportedVersion => "Unsupported version.".to_owned(),
            VaultError::SizeLimitExceeded => "Size limit exceeded.".to_owned(),
            VaultError::Malformed => "The file is damaged.".to_owned(),
            VaultError::KdfFailure => "The keychain is damaged.".to_owned(),
            VaultError::CompressionFailure => "Compression failed.".to_owned(),
            VaultError::IOFailure => "The system reported a failure.".to_owned(),
            VaultError::SessionLocked => "Vault is locked.".to_owned(),
            VaultError::UnsupportedFileType => "Unsupported file type".to_owned(),
            VaultError::InvalidChunkSize => "Invalid chunk size.".to_owned(),
            VaultError::InvalidPath => "Path error.".to_owned(),
            VaultError::ArchiveFailure => "The archive could not be written.".to_owned(),
        }
    }
}

/// Failures of cryptographic checks are worded alike: the wording gives
/// no hint of which check it was that failed.
pub proof fn lemma_verification_failures_worded_alike(a: VaultError, b: VaultError)
    requires
        a.is_verification_failure(),
        b.is_verification_failure(),
    ensures
        a.message_text() == b.message_text(),
{
}

} // verus!
