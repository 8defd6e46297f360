//! The errors of the library, the class each belongs to, and the message
//! that goes with it.

use vstd::prelude::*;
use crate::sponge::SpongeError;

verus! {

/// An operation that only a keyed session can perform.
#[derive(Clone, Copy, Debug, PartialEq, Eq, Structural)]
pub enum Operation {
    Encrypt,
    Decrypt,
    AeadEncrypt,
    AeadDecrypt,
    AeadEncryptDetached,
    AeadDecryptDetached,
    Ratchet,
}

/// The class of an error: a bad argument, an operation that needs keyed
/// mode, or an authentication tag that did not verify.
#[derive(Clone, Copy, Debug, PartialEq, Eq, Structural)]
pub enum ErrorClass {
    ArgumentError,
    KeyedModeError,
    VerificationError,
}

/// An error of a session operation.
#[derive(Clone, Copy, Debug, PartialEq, Eq, Structural)]
pub enum Error {
    /// An output buffer was too short.
    InvalidBufferLength,
    /// The key, key id and nonce do not fit together in the keyed state.
    InvalidParameterLength,
    /// A keyed operation was asked of a state without a key.
    KeyRequired,
    /// The authentication tag did not match.
    TagMismatch,
    /// The operation is only supported in keyed mode.
    KeyedModeOnly(Operation),
    /// The input is shorter than an authentication tag.
    CiphertextTooShort,
    /// A detached tag that is not 16 bytes long.
    InvalidTagLength,
    /// A nonce, key id or counter given without a key.
    KeyedArgumentsWithoutKey,
}

/// The library error that stands for an error of the outside operations.
pub open spec fn spec_map_xoodyak_err(err: SpongeError) -> Error {
    match err {
        SpongeError::InvalidBufferLength => Error::InvalidBufferLength,
        SpongeError::InvalidParameterLength => Error::InvalidParameterLength,
        SpongeError::KeyRequired => Error::KeyRequired,
        SpongeError::TagMismatch => Error::TagMismatch,
    }
}

/// Maps an error of the outside operations to the library's own.
pub fn map_xoodyak_err(err: SpongeError) -> (e: Error)
    ensures
        e == spec_map_xoodyak_err(err),
{
    match err {
        SpongeError::InvalidBufferLength => Error::InvalidBufferLength,
        SpongeError::InvalidParameterLength => Error::InvalidParameterLength,
        SpongeError::KeyRequired => Error::KeyRequired,
        SpongeError::TagMismatch => Error::TagMismatch,
    }
}

/// The class of each error: a failed tag check is a verification error, an
/// operation refused for want of a key a keyed-mode error, every other an
/// argument error.
pub open spec fn error_class(e: Error) -> ErrorClass {
    match e {
        Error::TagMismatch => ErrorClass::VerificationError,
        Error::KeyedModeOnly(_) => ErrorClass::KeyedModeError,
        _ => ErrorClass::ArgumentError,
    }
}

/// The message of each error.
pub open spec fn error_message(e: Error) -> Seq<char> {
    match e {
        Error::InvalidBufferLength => "invalid buffer length"@,
        Error::InvalidParameterLength => "invalid parameter length"@,
        Error::KeyRequired => "key required"@,
        Error::TagMismatch => "tag mismatch"@,
        Error::KeyedModeOnly(Operation::Encrypt) => "encrypt is only supported in keyed mode"@,
        Error::KeyedModeOnly(Operation::Decrypt) => "decrypt is only supported in keyed mode"@,
        Error::KeyedModeOnly(Operation::AeadEncrypt) => "aead_encrypt is only supported in keyed mode"@,
        Error::KeyedModeOnly(Operation::AeadDecrypt) => "aead_decrypt is only supported in keyed mode"@,
        Error::KeyedModeOnly(
            Operation::AeadEncryptDetached,
        ) => "aead_encrypt_detached is only supported in keyed mode"@,
        Error::KeyedModeOnly(
            Operation::AeadDecryptDetached,
        ) => "aead_decrypt_detached is only supported in keyed mode"@,
        Error::KeyedModeOnly(Operation::Ratchet) => "ratchet is only supported in keyed mode"@,
        Error::CiphertextTooShort => "ciphertext is too short to contain a tag"@,
        Error::InvalidTagLength => "tag must be 16 bytes"@,
        Error::KeyedArgumentsWithoutKey =>
            "nonce, key_id, and counter can only be used in keyed mode (when key is provided)"@,
    }
}

/// Every error of the outside operations maps to a different library error
/// of the same kind; only a failed tag check is a verification error, and
/// only an operation refused for want of a key is a keyed-mode error.
pub proof fn law_error_classes(a: SpongeError, b: SpongeError, e: Error)
    ensures
        spec_map_xoodyak_err(a) == spec_map_xoodyak_err(b) ==> a == b,
        spec_map_xoodyak_err(SpongeError::TagMismatch) == Error::TagMismatch,
        spec_map_xoodyak_err(SpongeError::InvalidParameterLength) == Error::InvalidParameterLength,
        error_class(e) == ErrorClass::VerificationError <==> e == Error::TagMismatch,
        error_class(e) == ErrorClass::KeyedModeError <==> (e is KeyedModeOnly),
{
}

impl Error {
    /// The class of this error.
    pub fn class(&self) -> (c: ErrorClass)
        ensures
            c == error_class(*self),
    {
        match self {
            Error::TagMismatch => ErrorClass::VerificationError,
            Error::KeyedModeOnly(_) => ErrorClass::KeyedModeError,
            _ => ErrorClass::ArgumentError,
        }
    }

    /// The message of this error.
    pub fn message(&self) -> (m: &'static str)
        ensures
            m@ == error_message(*self),
    {
        match self {
            Error::InvalidBufferLength => "invalid buffer length",
            Error::InvalidParameterLength => "invalid parameter length",
            Error::KeyRequired => "key required",
            Error::TagMismatch => "tag mismatch",
            Error::KeyedModeOnly(Operation::Encrypt) => "encrypt is only supported in keyed mode",
            Error::KeyedModeOnly(Operation::Decrypt) => "decrypt is only supported in keyed mode",
            Error::KeyedModeOnly(Operation::AeadEncrypt) =>
                "aead_encrypt is only supported in keyed mode",
            Error::KeyedModeOnly(Operation::AeadDecrypt) =>
                "aead_decrypt is only supported in keyed mode",
            Error::KeyedModeOnly(Operation::AeadEncryptDetached) =>
                "aead_encrypt_detached is only supported in keyed mode",
            Error::KeyedModeOnly(Operation::AeadDecryptDetached) =>
                "aead_decrypt_detached is only supported in keyed mode",
            Error::KeyedModeOnly(Operation::Ratchet) => "ratchet is only supported in keyed mode",
            Error::CiphertextTooShort => "ciphertext is too short to contain a tag",
            Error::InvalidTagLength => "tag must be 16 bytes",
            Error::KeyedArgumentsWithoutKey =>
                "nonce, key_id, and counter can only be used in keyed mode (when key is provided)",
        }
    }
}

} // verus!
