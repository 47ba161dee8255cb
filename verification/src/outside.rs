//! What the library takes from std, tokio and tokio-util without proof, and how
//! its contracts speak of the calls that reach outside: a cancellation that was
//! requested, a value that was sent, an answer that was given.
use std::sync::OnceLock;
use tokio::sync::oneshot;
use tokio_util::sync::CancellationToken;
use vstd::prelude::*;

verus! {

/// `tokio_util::sync::CancellationToken`: a shared handle through which a
/// cancellation request travels to running work. Its state changes from
/// outside, so nothing is said of what a value holds.
#[verifier::external_type_specification]
#[verifier::external_body]
pub struct ExCancellationToken(CancellationToken);

/// `tokio::sync::oneshot::Sender`: the sending half of a channel for one value.
#[verifier::external_type_specification]
#[verifier::external_body]
#[verifier::reject_recursive_types(T)]
pub struct ExSender<T>(oneshot::Sender<T>);

/// `tokio::sync::oneshot::Receiver`: the receiving half of a channel for one
/// value.
#[verifier::external_type_specification]
#[verifier::external_body]
#[verifier::reject_recursive_types(T)]
pub struct ExReceiver<T>(oneshot::Receiver<T>);

/// `tokio::sync::oneshot::error::RecvError`: what a receiver yields when its
/// sender is gone.
#[verifier::external_type_specification]
#[verifier::external_body]
pub struct ExRecvError(oneshot::error::RecvError);

/// `std::sync::OnceLock`: a shared cell that is written at most once. It is
/// written from outside too, so nothing is said of what a value holds.
#[verifier::external_type_specification]
#[verifier::external_body]
#[verifier::reject_recursive_types(T)]
pub struct ExOnceLock<T>(OnceLock<T>);

/// Whether `child` was made by `CancellationToken::child_token` of `parent`.
pub uninterp spec fn descends_from(child: CancellationToken, parent: CancellationToken) -> bool;

/// `CancellationToken::new` makes a token of its own. That it is not cancelled
/// yet is a matter of time and left unsaid.
pub assume_specification[ CancellationToken::new ]() -> CancellationToken;

/// `CancellationToken::clone` hands out another handle of the same token: the
/// two are cancelled together.
pub assume_specification[ <CancellationToken as Clone>::clone ](token: &CancellationToken) -> (copy:
    CancellationToken)
    ensures
        copy == *token,
;

/// `CancellationToken::is_cancelled` reads whether cancellation was requested
/// so far. The answer depends on when it is asked, so nothing is claimed of it.
pub assume_specification[ CancellationToken::is_cancelled ](token: &CancellationToken) -> bool;

/// `CancellationToken::cancel` requests cancellation of a token and of all its
/// descendants. The effect reaches other tasks and no value here changes, so
/// nothing is claimed.
pub assume_specification[ CancellationToken::cancel ](token: &CancellationToken);

/// `CancellationToken::child_token` makes a token that is cancelled whenever
/// its parent is, while cancelling it leaves the parent alone. The contract
/// records whose child it is; when the two are cancelled is left unsaid.
#[verifier::external_body]
pub(crate) fn child_token(parent: &CancellationToken) -> (child: CancellationToken)
    ensures
        descends_from(child, *parent),
{
    parent.child_token()
}

/// `oneshot::channel` makes a fresh channel for one value. That the two halves
/// belong together is left unsaid.
pub assume_specification<T>[ oneshot::channel::<T> ]() -> (oneshot::Sender<T>, oneshot::Receiver<T>);

/// `oneshot::Sender::send` delivers a value, or hands the same value back when
/// the receiver is gone. Which of the two happens depends on the receiver.
pub assume_specification<T>[ oneshot::Sender::<T>::send ](
    sender: oneshot::Sender<T>,
    value: T,
) -> (result: Result<(), T>)
    ensures
        result matches Err(returned) ==> returned == value,
;

/// `OnceLock::new` makes an empty cell. That nobody has written to it yet is a
/// matter of time and left unsaid.
pub assume_specification<T>[ OnceLock::<T>::new ]() -> OnceLock<T>;

/// `OnceLock::set` writes a value, or hands the same value back when the cell was
/// written before. Which of the two happens depends on the other holders.
pub assume_specification<T>[ OnceLock::<T>::set ](cell: &OnceLock<T>, value: T) -> (result: Result<
    (),
    T,
>)
    ensures
        result matches Err(returned) ==> returned == value,
;

/// `OnceLock::get` reads what was written so far. The answer depends on when it is
/// asked, so nothing is claimed of it.
pub assume_specification<T>[ OnceLock::<T>::get ](cell: &OnceLock<T>) -> Option<&T>;

/// Whether a token was made on its own, as the child of no other.
pub open spec fn token_made(token: CancellationToken) -> bool {
    call_ensures(CancellationToken::new, (), token)
}

/// Whether a token was asked if it is cancelled and gave this answer.
pub open spec fn answered(token: CancellationToken, cancelled: bool) -> bool {
    call_ensures(CancellationToken::is_cancelled, (&token,), cancelled)
}

/// Whether cancellation of a token was requested.
pub open spec fn cancel_requested(token: CancellationToken) -> bool {
    call_ensures(CancellationToken::cancel, (&token,), ())
}

/// Whether cancellation of each of some tokens was requested.
pub open spec fn all_cancelled(tokens: Seq<CancellationToken>) -> bool {
    forall|i: int| 0 <= i < tokens.len() ==> cancel_requested(#[trigger] tokens[i])
}

/// Whether two halves of a channel were made together.
pub open spec fn channel_made<T>(sender: oneshot::Sender<T>, receiver: oneshot::Receiver<T>) -> bool {
    call_ensures(oneshot::channel::<T>, (), (sender, receiver))
}

/// Whether a value was sent on a channel, and whether someone was there to receive
/// it.
pub open spec fn delivered_as<T>(sender: oneshot::Sender<T>, value: T, delivered: bool) -> bool {
    exists|outcome: Result<(), T>|
        {
            &&& #[trigger] call_ensures(oneshot::Sender::<T>::send, (sender, value), outcome)
            &&& delivered == outcome is Ok
        }
}

/// Whether a value was sent on a channel, be it received or not.
pub open spec fn sent<T>(sender: oneshot::Sender<T>, value: T) -> bool {
    exists|outcome: Result<(), T>| #[trigger]
        call_ensures(oneshot::Sender::<T>::send, (sender, value), outcome)
}

} // verus!
