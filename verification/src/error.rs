//! What can go wrong in the service.

use vstd::prelude::*;

verus! {

/// A kind of thing that the store keeps.
#[derive(Debug, Clone, Copy, PartialEq, Eq, Structural)]
pub enum Artifact {
    Image,
    Input,
    Receipt,
    Session,
}

/// An error of the service.
#[derive(Debug, Clone, Copy, PartialEq, Eq, Structural)]
pub enum Error {
    /// An image is already stored under the identifier.
    ImageIdExists,
    /// No base URL could be made out for the server.
    ServerUrlResolution,
    /// The prover's queue stayed full for as long as the caller would wait.
    ProverQueueFull,
    /// The prover no longer takes tasks.
    ChannelClosed,
    /// Nothing of this kind is stored under the identifier.
    ArtifactNotFound(Artifact),
    /// A receipt could not be decoded from its bytes, or encoded into bytes.
    Codec,
    /// The prover engine failed.
    ProverEngine,
    /// The store's lock can no longer be taken.
    LockPoisoned,
}

impl Error {
    /// The error in words.
    pub open spec fn spec_message(self) -> Seq<char> {
        match self {
            Error::ImageIdExists => "Image ID already exists"@,
            Error::ServerUrlResolution => "Unable to resolve server URL"@,
            Error::ProverQueueFull => "Prover queue is full"@,
            Error::ChannelClosed => "Prover receiver dropped"@,
            Error::ArtifactNotFound(Artifact::Image) => "Image not found"@,
            Error::ArtifactNotFound(Artifact::Input) => "Input not found"@,
            Error::ArtifactNotFound(Artifact::Receipt) => "Receipt not found"@,
            Error::ArtifactNotFound(Artifact::Session) => "Session not found"@,
            Error::Codec => "Receipt codec error"@,
            Error::ProverEngine => "Prover engine error"@,
            Error::LockPoisoned => "Store lock poisoned"@,
        }
    }

    /// The error in words.
    pub fn message(&self) -> (text: String)
        ensures
            text@ == self.spec_message(),
    {
        match self {
            Error::ImageIdExists => String::from_str("Image ID already exists"),
            Error::ServerUrlResolution => String::from_str("Unable to resolve server URL"),
            Error::ProverQueueFull => String::from_str("Prover queue is full"),
            Error::ChannelClosed => String::from_str("Prover receiver dropped"),
            Error::ArtifactNotFound(Artifact::Image) => String::from_str("Image not found"),
            Error::ArtifactNotFound(Artifact::Input) => String::from_str("Input not found"),
            Error::ArtifactNotFound(Artifact::Receipt) => String::from_str("Receipt not found"),
            Error::ArtifactNotFound(Artifact::Session) => String::from_str("Session not found"),
            Error::Codec => String::from_str("Receipt codec error"),
            Error::ProverEngine => String::from_str("Prover engine error"),
            Error::LockPoisoned => String::from_str("Store lock poisoned"),
        }
    }
}

} // verus!
