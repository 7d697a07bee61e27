//! The errors of the library, one variant for each way an operation can be refused.
use vstd::prelude::*;

verus! {

/// Why a protocol operation was refused.
#[derive(Debug, Clone, Copy, PartialEq, Eq, Structural)]
pub enum SshError {
    /// Fewer than four bytes were left for a string's length.
    StringLengthMissing,
    /// The string's length runs past the end of the buffer.
    StringDataMissing,
    /// A name that must be UTF-8 is not.
    InvalidUtf8,
    /// The peer's window is smaller than what was to be sent.
    InsufficientRemoteWindow,
    /// Our window is smaller than what the peer sent.
    InsufficientLocalWindow,
    /// More data arrived than the flow-control window had room for.
    WindowOverflow,
    /// The cipher name is not one we run.
    UnsupportedCipher,
    /// The MAC name is not one we run.
    UnsupportedMac,
    /// The key is shorter than the cipher needs.
    InvalidKeySize,
    /// The IV is shorter than the cipher needs.
    InvalidIvSize,
    /// The AEAD refused to encrypt.
    EncryptionFailed,
    /// The AEAD tag did not verify.
    DecryptionFailed,
    /// The packet is shorter than its MAC.
    CiphertextTooShort,
    /// The MAC did not verify.
    MacMismatch,
    /// Fewer than five bytes: no packet.
    PacketTooShort,
    /// The packet length runs past the data.
    IncompletePacket,
    /// The packet body is empty.
    EmptyPacket,
    /// The padding leaves no room for the message type.
    InvalidPadding,
    /// The packet body is one byte long or announces more padding than it holds.
    MalformedPacket,
    /// The peers share no algorithm of some kind.
    NoCommonAlgorithm,
    /// No key exchange method has been negotiated.
    NoKexMethod,
    /// The peer's X25519 public key is not 32 bytes long.
    InvalidX25519Key,
    /// The host key text is not a PKCS#8 RSA key, or the key cannot be written out.
    InvalidHostKey,
    /// No RSA host key could be generated.
    HostKeyGenerationFailed,
    /// The host key could not sign.
    SigningFailed,
    /// A message type that has no place in the key exchange.
    UnexpectedKexMessage,
    /// The key exchange has not got far enough for this step.
    KeysNotReady,
    /// The client asked for a service other than `ssh-userauth`.
    InvalidService,
    /// A message type that has no place in authentication.
    UnexpectedAuthMessage,
    /// A complete line starting with `SSH-` names no version we speak.
    InvalidVersion,
    /// Too much non-SSH input before the version line.
    GarbageExceeded,
    /// The version line did not come within the handshake buffer.
    HandshakeBufferExceeded,
    /// A key exchange message before the version exchange.
    KexNotInitialized,
    /// An authentication message before the key exchange completed.
    AuthNotInitialized,
    /// The key exchange completed without negotiated algorithms.
    NoAlgorithms,
    /// An empty message.
    EmptyMessage,
    /// A channel open before authentication.
    NotAuthenticated,
    /// A channel message too short for its fixed fields.
    ChannelMessageTooShort,
    /// Channel data shorter than its announced length.
    IncompleteChannelData,
    /// No channel with that ID.
    ChannelNotFound,
    /// A message too large to frame.
    MessageTooLarge,
}

} // verus!
