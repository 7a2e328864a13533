//! A string whose value never shows in a diagnostic rendering.

use vstd::prelude::*;

use crate::text::{chars_of, trim, trim_range};

verus! {

/// A string whose value is redacted in every diagnostic representation.
///
/// Wrap credentials and session cookies so an accidental log line cannot spill
/// them.
#[derive(Clone)]
pub struct Secret(String);

impl View for Secret {
    type V = Seq<char>;

    closed spec fn view(&self) -> Seq<char> {
        self.0@
    }
}

impl Secret {
    /// Wrap a raw secret value.
    pub fn new(value: &str) -> (s: Secret)
        ensures
            s@ == value@,
    {
        Secret(value.to_string())
    }

    /// Wrap an owned value without copying it.
    pub fn from_string(value: String) -> (s: Secret)
        ensures
            s@ == value@,
    {
        Secret(value)
    }

    /// Borrow the underlying value. Call sites should stay few and auditable.
    pub fn expose(&self) -> (r: &str)
        ensures
            r@ == self@,
    {
        self.0.as_str()
    }

    /// Whether the secret has no meaningful content: nothing but whitespace.
    pub fn is_empty(&self) -> (b: bool)
        ensures
            b == (trim(self@).len() == 0),
    {
        let s = chars_of(self.0.as_str());
        let n = s.len();
        assert(s@.subrange(0, n as int) =~= s@);
        let (a, b) = trim_range(&s, 0, n);
        a == b
    }

    /// The rendering `Debug` gives: the type name around a mask.
    pub fn debug_string(&self) -> (r: String)
        ensures
            r@ == "Secret(***)"@,
    {
        "Secret(***)".to_string()
    }

    /// The rendering `Display` gives: a mask alone.
    pub fn redacted(&self) -> (r: String)
        ensures
            r@ == "***"@,
    {
        "***".to_string()
    }
}

} // verus!
