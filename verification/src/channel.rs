//! The channels that carry events and tokens between tasks.

use vstd::prelude::*;
use crate::job::StreamingTokenResult;
use crate::response::Response;

verus! {

/// What travels on a token channel: a token, or the message of the failure
/// that ended the stream.
pub type TokenItem = Result<StreamingTokenResult, String>;

/// `flume::Sender`: the sending end of a channel. Nothing is known of what
/// is inside one.
#[verifier::external_type_specification]
#[verifier::external_body]
#[verifier::reject_recursive_types(T)]
pub struct ExFlumeSender<T>(flume::Sender<T>);

/// `flume::Receiver`: the receiving end of a channel. Nothing is known of
/// what is inside one.
#[verifier::external_type_specification]
#[verifier::external_body]
#[verifier::reject_recursive_types(T)]
pub struct ExFlumeReceiver<T>(flume::Receiver<T>);

/// `tokio::sync::mpsc::Sender`: the sending end of the channel on which a
/// pipeline emits its events. The library carries it and never sends on it.
#[verifier::external_type_specification]
#[verifier::external_body]
#[verifier::reject_recursive_types(T)]
pub struct ExResponseSender<T>(tokio::sync::mpsc::Sender<T>);

/// `tokio::sync::mpsc::Receiver`: the receiving end of the channel on which
/// a pipeline emits its events. The library makes it and hands it on; it
/// never receives on it.
#[verifier::external_type_specification]
#[verifier::external_body]
#[verifier::reject_recursive_types(T)]
pub struct ExResponseReceiver<T>(tokio::sync::mpsc::Receiver<T>);

/// `tokio::sync::mpsc::channel`: the two ends of a new channel that holds up
/// to `buffer` events. The outside function panics on a buffer of 0 and on
/// one above `usize::MAX >> 3`, so both are left out. Nothing is claimed of
/// the two ends.
#[verifier::external_body]
pub(crate) fn open_response_channel(buffer: usize) -> (ends: (
    tokio::sync::mpsc::Sender<Response>,
    tokio::sync::mpsc::Receiver<Response>,
))
    requires
        0 < buffer <= usize::MAX / 8,
{
    tokio::sync::mpsc::channel(buffer)
}

/// `flume::unbounded`: the two ends of a new channel without a capacity limit.
/// Nothing is claimed of them.
#[verifier::external_body]
pub(crate) fn open_token_channel() -> (ends: (flume::Sender<TokenItem>, flume::Receiver<TokenItem>)) {
    flume::unbounded()
}

/// `flume::Sender::send`: hands `item` to the channel and says whether it was
/// taken. It is refused once every receiver is gone, which other tasks decide,
/// so nothing is claimed of the answer. On a channel without a capacity limit
/// the call does not block.
#[verifier::external_body]
pub(crate) fn send_token(sender: &flume::Sender<TokenItem>, item: TokenItem) -> (delivered: bool) {
    sender.send(item).is_ok()
}

/// `flume::Receiver::clone`: another handle to the receiving end of the same
/// channel. Nothing is claimed of it.
#[verifier::external_body]
pub(crate) fn share_receiver(receiver: &flume::Receiver<TokenItem>) -> (shared: flume::Receiver<
    TokenItem,
>) {
    receiver.clone()
}

} // verus!
