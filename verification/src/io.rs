use vstd::prelude::*;

use crate::dynamic::{DynHeap, Dynamic, dyn_display, dyn_wf_in};

verus! {

/// The input/output failure kinds the runtime hands to generated code: an
/// operation that would block, a position outside the valid range, an
/// arithmetic overflow, or a custom payload.
pub enum Error {
    Blocked,
    OutsideBounds,
    Overflow,
    Custom(Dynamic),
}

/// The display text of each failure: its name, with a custom payload
/// rendered by the dynamic display rules inside `Custom(...)`.
pub open spec fn io_error_display(e: &Error, h: &DynHeap) -> Seq<char> {
    match e {
        Error::Blocked => "Blocked"@,
        Error::OutsideBounds => "OutsideBounds"@,
        Error::Overflow => "Overflow"@,
        Error::Custom(d) => "Custom("@ + dyn_display(d, h) + ")"@,
    }
}

impl Error {
    /// The display text; see `io_error_display`.
    pub fn to_haxe_string(&self, h: &DynHeap) -> (r: String)
        requires
            self matches Error::Custom(d) ==> dyn_wf_in(d, h),
        ensures
            r@ == io_error_display(self, h),
    {
        match self {
            Error::Blocked => "Blocked".to_owned(),
            Error::OutsideBounds => "OutsideBounds".to_owned(),
            Error::Overflow => "Overflow".to_owned(),
            Error::Custom(d) => {
                let mut s = String::new();
                s.append("Custom(");
                let body = d.to_haxe_string(h);
                s.append(body.as_str());
                s.append(")");
                proof {
                    assert(s@ =~= "Custom("@ + dyn_display(d, h) + ")"@);
                }
                s
            },
        }
    }
}

impl Clone for Error {
    /// Cloning keeps the value.
    fn clone(&self) -> (res: Self)
        ensures
            res == *self,
    {
        match self {
            Error::Blocked => Error::Blocked,
            Error::OutsideBounds => Error::OutsideBounds,
            Error::Overflow => Error::Overflow,
            Error::Custom(d) => Error::Custom(d.clone()),
        }
    }
}

} // verus!
