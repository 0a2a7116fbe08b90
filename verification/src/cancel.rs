//! Cooperative cancellation flag shared between the pipeline and the
//! watchers that observe a signal or a `cancel` line on standard input.

use std::sync::atomic::{AtomicBool, Ordering};
use std::sync::Arc;
use vstd::prelude::*;

verus! {

/// A shared, clonable cancellation flag. Clones observe the same flag.
#[derive(Clone)]
pub struct CancelFlag {
    inner: Arc<AtomicBool>,
}

impl CancelFlag {
    /// A fresh flag that has not been requested.
    pub fn new() -> (r: Self) {
        CancelFlag { inner: Arc::new(AtomicBool::new(false)) }
    }

    /// Request cancellation; every clone observes it.
    pub fn request(&self) {
        self.inner.store(true, Ordering::SeqCst);
    }

    /// Has cancellation been requested? Another thread may set the flag at
    /// any moment, so the answer is a snapshot.
    pub fn is_cancelled(&self) -> (r: bool) {
        self.inner.load(Ordering::SeqCst)
    }
}

/// A line on standard input that asks to cancel: `cancel` in any ASCII
/// case (surrounding whitespace ignored), or a JSON object of type
/// `cancel`.
pub open spec fn cancel_line_spec(line: Seq<char>) -> bool {
    let t = crate::text::trim(line);
    crate::text::lower_seq(t) == "cancel"@ || crate::text::contains(t, "\"type\":\"cancel\""@)
        || crate::text::contains(t, "\"type\": \"cancel\""@)
}

/// Does this standard-input line ask to cancel?
pub fn is_cancel_line(line: &str) -> (r: bool)
    ensures
        r == cancel_line_spec(line@),
{
    let t = crate::text::trim_str(line);
    let lower = crate::text::lower_chars(&crate::text::chars_of(t.as_str()));
    crate::text::chars_equal(&lower, &crate::text::chars_of("cancel"))
        || crate::text::str_contains(t.as_str(), "\"type\":\"cancel\"")
        || crate::text::str_contains(t.as_str(), "\"type\": \"cancel\"")
}

} // verus!
