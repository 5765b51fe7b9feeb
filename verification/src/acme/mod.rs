//! Certificates from an ACME CA (Let's Encrypt) through DNS-01 challenges: the decisions
//! of the issuance flow, driven by a caller that performs the network exchanges.
pub mod challenges;
pub mod ready;

use vstd::prelude::*;

verus! {

/// Seconds between polls for the certificate of a finalized order.
pub const CERTIFICATE_POLL_SECS: u64 = 1;

/// Status of an ACME order.
#[derive(Clone, Copy, Debug, PartialEq, Eq, Structural)]
pub enum OrderStatus {
    Pending,
    Ready,
    Processing,
    Valid,
    Invalid,
}

/// Errors of the ACME issuance flow.
#[derive(Clone, Copy, Debug, PartialEq, Eq, Structural)]
pub enum AcmeError {
    /// A new order was not pending.
    UnexpectedOrderStatus(OrderStatus),
    /// The order became invalid while waiting for it to be ready.
    OrderInvalid,
    /// The order did not become ready within the polls allowed.
    OrderNotReady,
    /// A challenge could not be marked ready.
    ChallengeNotReady,
}

/// The account contact URI for `email`.
pub fn contact_uri(email: &str) -> (r: String)
    ensures
        r@ == "mailto:"@ + email@,
{
    let mut r = String::from_str("mailto:");
    r.append(email);
    r
}

/// A newly created order can proceed only while it is pending.
pub fn check_new_order(status: OrderStatus) -> (r: Result<(), AcmeError>)
    ensures
        status == OrderStatus::Pending ==> r is Ok,
        status != OrderStatus::Pending ==> r == Err::<(), AcmeError>(AcmeError::UnexpectedOrderStatus(status)),
{
    match status {
        OrderStatus::Pending => Ok(()),
        _ => Err(AcmeError::UnexpectedOrderStatus(status)),
    }
}

} // verus!
