//! The sending end of the channel on which a submitter asks for its outcomes.

use std::sync::mpsc::Sender;
use vstd::prelude::*;

verus! {

/// `std::sync::mpsc::Sender`, carried through as it is: nothing is known of the channel
/// behind it.
#[verifier::external_type_specification]
#[verifier::external_body]
#[verifier::reject_recursive_types(T)]
pub struct ExSender<T>(Sender<T>);

/// `Clone::clone` of `std::sync::mpsc::Sender`: one more sending end of the same channel.
/// Nothing is claimed of it.
pub assume_specification<T>[ <Sender<T> as Clone>::clone ](tx: &Sender<T>) -> (other: Sender<T>)
;

/// Sends `msg` with `std::sync::mpsc::Sender::send`, which does not block. Whether the
/// message is taken depends on the receiving end, so nothing is claimed of that. When it is
/// not taken, `send` hands the message back in its error, and it comes back from here
/// unchanged.
#[verifier::external_body]
pub(crate) fn try_send_msg<T>(tx: &Sender<T>, msg: T) -> (unsent: Option<T>)
    ensures
        unsent matches Some(back) ==> back == msg,
{
    match tx.send(msg) {
        Ok(()) => None,
        Err(refused) => Some(refused.0),
    }
}

} // verus!
