//! Event classification: mapping the payment provider's event-type string
//! to a kind, and each payment-lifecycle kind to its canonical status code.

use vstd::prelude::*;
use vstd::string::StringExecFns;

verus! {

/// The kinds of provider events the system distinguishes.  The nine
/// payment-lifecycle kinds drive dispatch; the others are acknowledged and
/// dropped.
#[derive(PartialEq, Eq, Structural, Clone, Copy, Debug)]
pub enum EventKind {
    PaymentCreated,
    PaymentProcessing,
    PaymentRequiresAction,
    PaymentRequiresCapture,
    PaymentAmountCapturableUpdated,
    PaymentSucceeded,
    PaymentCanceled,
    PaymentFailed,
    PaymentPartiallyFunded,
    PaymentMethodAttached,
    ChargeSucceeded,
    ChargeUpdated,
    Unrecognized,
}

/// The kind named by a provider event-type string; anything unknown is
/// `Unrecognized`.
pub open spec fn spec_classify(t: Seq<char>) -> EventKind {
    if t == "payment_intent.created"@ {
        EventKind::PaymentCreated
    } else if t == "payment_intent.processing"@ {
        EventKind::PaymentProcessing
    } else if t == "payment_intent.requires_action"@ {
        EventKind::PaymentRequiresAction
    } else if t == "payment_intent.requires_capture"@ {
        EventKind::PaymentRequiresCapture
    } else if t == "payment_intent.amount_capturable_updated"@ {
        EventKind::PaymentAmountCapturableUpdated
    } else if t == "payment_intent.succeeded"@ {
        EventKind::PaymentSucceeded
    } else if t == "payment_intent.canceled"@ {
        EventKind::PaymentCanceled
    } else if t == "payment_intent.payment_failed"@ {
        EventKind::PaymentFailed
    } else if t == "payment_intent.partially_funded"@ {
        EventKind::PaymentPartiallyFunded
    } else if t == "payment_method.attached"@ {
        EventKind::PaymentMethodAttached
    } else if t == "charge.succeeded"@ {
        EventKind::ChargeSucceeded
    } else if t == "charge.updated"@ {
        EventKind::ChargeUpdated
    } else {
        EventKind::Unrecognized
    }
}

/// Whether the kind belongs to the payment lifecycle (the kinds that are
/// persisted and fanned out).
pub open spec fn spec_is_lifecycle(k: EventKind) -> bool {
    match k {
        EventKind::PaymentCreated => true,
        EventKind::PaymentProcessing => true,
        EventKind::PaymentRequiresAction => true,
        EventKind::PaymentRequiresCapture => true,
        EventKind::PaymentAmountCapturableUpdated => true,
        EventKind::PaymentSucceeded => true,
        EventKind::PaymentCanceled => true,
        EventKind::PaymentFailed => true,
        EventKind::PaymentPartiallyFunded => true,
        EventKind::PaymentMethodAttached => false,
        EventKind::ChargeSucceeded => false,
        EventKind::ChargeUpdated => false,
        EventKind::Unrecognized => false,
    }
}

/// The canonical status code of each payment-lifecycle kind, in a one-to-
/// one table; kinds outside the lifecycle have none.
pub open spec fn spec_canonical_status(k: EventKind) -> Option<Seq<char>> {
    match k {
        EventKind::PaymentCreated => Some("created"@),
        EventKind::PaymentProcessing => Some("processing"@),
        EventKind::PaymentRequiresAction => Some("requires_action"@),
        EventKind::PaymentRequiresCapture => Some("requires_capture"@),
        EventKind::PaymentAmountCapturableUpdated => Some("amount_capturable_updated"@),
        EventKind::PaymentSucceeded => Some("succeeded"@),
        EventKind::PaymentCanceled => Some("canceled"@),
        EventKind::PaymentFailed => Some("payment_failed"@),
        EventKind::PaymentPartiallyFunded => Some("partially_funded"@),
        EventKind::PaymentMethodAttached => None,
        EventKind::ChargeSucceeded => None,
        EventKind::ChargeUpdated => None,
        EventKind::Unrecognized => None,
    }
}

/// Exactly the lifecycle kinds carry a canonical status code.
pub proof fn lemma_lifecycle_has_status(k: EventKind)
    ensures
        spec_is_lifecycle(k) <==> spec_canonical_status(k) is Some,
{
}

/// String equality, specified over the views.
pub fn str_eq(a: &str, b: &str) -> (r: bool)
    ensures
        r == (a@ == b@),
{
    let sa = String::from_str(a);
    let sb = String::from_str(b);
    sa == sb
}

/// Classifies a provider event-type string.
pub fn classify(t: &str) -> (k: EventKind)
    ensures
        k == spec_classify(t@),
{
    if str_eq(t, "payment_intent.created") {
        EventKind::PaymentCreated
    } else if str_eq(t, "payment_intent.processing") {
        EventKind::PaymentProcessing
    } else if str_eq(t, "payment_intent.requires_action") {
        EventKind::PaymentRequiresAction
    } else if str_eq(t, "payment_intent.requires_capture") {
        EventKind::PaymentRequiresCapture
    } else if str_eq(t, "payment_intent.amount_capturable_updated") {
        EventKind::PaymentAmountCapturableUpdated
    } else if str_eq(t, "payment_intent.succeeded") {
        EventKind::PaymentSucceeded
    } else if str_eq(t, "payment_intent.canceled") {
        EventKind::PaymentCanceled
    } else if str_eq(t, "payment_intent.payment_failed") {
        EventKind::PaymentFailed
    } else if str_eq(t, "payment_intent.partially_funded") {
        EventKind::PaymentPartiallyFunded
    } else if str_eq(t, "payment_method.attached") {
        EventKind::PaymentMethodAttached
    } else if str_eq(t, "charge.succeeded") {
        EventKind::ChargeSucceeded
    } else if str_eq(t, "charge.updated") {
        EventKind::ChargeUpdated
    } else {
        EventKind::Unrecognized
    }
}

/// Whether the kind belongs to the payment lifecycle.
pub fn is_lifecycle(k: &EventKind) -> (r: bool)
    ensures
        r == spec_is_lifecycle(*k),
{
    match k {
        EventKind::PaymentCreated => true,
        EventKind::PaymentProcessing => true,
        EventKind::PaymentRequiresAction => true,
        EventKind::PaymentRequiresCapture => true,
        EventKind::PaymentAmountCapturableUpdated => true,
        EventKind::PaymentSucceeded => true,
        EventKind::PaymentCanceled => true,
        EventKind::PaymentFailed => true,
        EventKind::PaymentPartiallyFunded => true,
        EventKind::PaymentMethodAttached => false,
        EventKind::ChargeSucceeded => false,
        EventKind::ChargeUpdated => false,
        EventKind::Unrecognized => false,
    }
}

/// The canonical status code of a lifecycle kind.
pub fn canonical_status(k: &EventKind) -> (r: Option<String>)
    ensures
        crate::ledger::opt_view(r) == spec_canonical_status(*k),
{
    match k {
        EventKind::PaymentCreated => Some(String::from_str("created")),
        EventKind::PaymentProcessing => Some(String::from_str("processing")),
        EventKind::PaymentRequiresAction => Some(String::from_str("requires_action")),
        EventKind::PaymentRequiresCapture => Some(String::from_str("requires_capture")),
        EventKind::PaymentAmountCapturableUpdated => Some(
            String::from_str("amount_capturable_updated"),
        ),
        EventKind::PaymentSucceeded => Some(String::from_str("succeeded")),
        EventKind::PaymentCanceled => Some(String::from_str("canceled")),
        EventKind::PaymentFailed => Some(String::from_str("payment_failed")),
        EventKind::PaymentPartiallyFunded => Some(String::from_str("partially_funded")),
        EventKind::PaymentMethodAttached => None,
        EventKind::ChargeSucceeded => None,
        EventKind::ChargeUpdated => None,
        EventKind::Unrecognized => None,
    }
}

/// A verified, classified provider event: what the dispatcher consumes.
pub struct VerifiedEvent {
    pub kind: EventKind,
    pub transaction_id: String,
    pub amount: Option<i64>,
    pub currency: Option<String>,
    pub subscriber_id: Option<String>,
    pub frontend_id: Option<String>,
    pub raw_metadata: Option<String>,
}

} // verus!
