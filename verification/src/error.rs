use vstd::prelude::*;
use crate::message::SendMessageError;

verus! {

/// `quinn::ConnectionError`, carried unchanged inside [`SuperQuinnError`].
#[verifier::external_type_specification]
#[verifier::external_body]
pub struct ExConnectionError(quinn::ConnectionError);

/// `std::io::Error`, carried unchanged inside [`SuperQuinnError`].
#[verifier::external_type_specification]
#[verifier::external_body]
pub struct ExIoError(std::io::Error);

/// `tokio::sync::mpsc::error::SendError`, carried unchanged inside [`SuperQuinnError`].
#[verifier::external_type_specification]
#[verifier::external_body]
#[verifier::reject_recursive_types(T)]
pub struct ExSendError<T>(tokio::sync::mpsc::error::SendError<T>);

/// `tokio::sync::mpsc::error::TryRecvError`, carried unchanged inside [`SuperQuinnError`].
#[verifier::external_type_specification]
#[verifier::external_body]
pub struct ExTryRecvError(tokio::sync::mpsc::error::TryRecvError);

/// `tokio::task::JoinError`, carried unchanged inside [`SuperQuinnError`].
#[verifier::external_type_specification]
#[verifier::external_body]
pub struct ExJoinError(tokio::task::JoinError);

/// `anyhow::Error`, carried unchanged inside [`SuperQuinnError`].
#[verifier::external_type_specification]
#[verifier::external_body]
pub struct ExAnyhowError(anyhow::Error);

/// Everything that can go wrong in the library.
pub enum SuperQuinnError {
    InvalidQuicConfig,
    InvalidMessage,
    MessageSendError(tokio::sync::mpsc::error::SendError<String>),
    MessageRecvError(tokio::sync::mpsc::error::TryRecvError),
    QuinnConnError(quinn::ConnectionError),
    IoError(std::io::Error),
    SendMsgError(SendMessageError),
    JoinError(tokio::task::JoinError),
    AnyhowRes(anyhow::Error),
}

pub type SuperQuinnResult<T> = Result<T, SuperQuinnError>;

} // verus!
