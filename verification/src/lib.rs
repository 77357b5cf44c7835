//! Runtime support library for a dynamically-typed, exception-based source
//! language lowered onto Rust: shared-ownership cells and references, a
//! type-erased dynamic value, an aliasing sequence container, a typed
//! exception channel, per-thread mailboxes and event loops, and
//! synchronization primitives.

pub mod anon;
pub mod array;
pub mod bytes;
pub mod cell;
pub mod date;
pub mod db;
pub mod dynamic;
pub mod exception;
pub mod hxref;
pub mod io;
pub mod iter;
pub mod json;
pub mod net;
pub mod string;
pub mod sync;
pub mod thread;
pub mod text;

use vstd::prelude::*;

verus! {

/// The failure taxonomy of the runtime. Every modeled error condition is a
/// value of this type, handed back through `Result`s and recoverable through
/// the exception channel; none of them terminates the process.
#[derive(Debug)]
pub enum HxError {
    /// A null reference or cell was dereferenced.
    NullAccess,
    /// A sequence or range index or length was outside the valid range.
    OutsideBounds,
    /// A message or event-loop operation targeted an unregistered or exited
    /// thread.
    ThreadNotAlive,
    /// A mutex release was attempted by a thread that does not own it.
    MutexOwnershipViolation,
    /// A typed downcast failed on a dynamic value.
    TypeMismatch,
    /// An adapter-reported failure, carrying its message.
    DomainError(String),
}

/// What equality of two errors means: same variant, and for domain errors
/// the same message text.
pub open spec fn hx_error_eq(a: &HxError, b: &HxError) -> bool {
    match a {
        HxError::NullAccess => b is NullAccess,
        HxError::OutsideBounds => b is OutsideBounds,
        HxError::ThreadNotAlive => b is ThreadNotAlive,
        HxError::MutexOwnershipViolation => b is MutexOwnershipViolation,
        HxError::TypeMismatch => b is TypeMismatch,
        HxError::DomainError(x) => b matches HxError::DomainError(y) && x@ == y@,
    }
}

/// The display text of each error: the failure's name, and for a domain
/// error its message.
pub open spec fn hx_error_display(e: &HxError) -> Seq<char> {
    match e {
        HxError::NullAccess => "Null Access"@,
        HxError::OutsideBounds => "OutsideBounds"@,
        HxError::ThreadNotAlive => "Thread is not alive"@,
        HxError::MutexOwnershipViolation => "Mutex access violation"@,
        HxError::TypeMismatch => "Type Mismatch"@,
        HxError::DomainError(m) => m@,
    }
}

impl HxError {
    /// The display text; see `hx_error_display`.
    pub fn to_haxe_string(&self) -> (r: String)
        ensures
            r@ == hx_error_display(self),
    {
        match self {
            HxError::NullAccess => "Null Access".to_owned(),
            HxError::OutsideBounds => "OutsideBounds".to_owned(),
            HxError::ThreadNotAlive => "Thread is not alive".to_owned(),
            HxError::MutexOwnershipViolation => "Mutex access violation".to_owned(),
            HxError::TypeMismatch => "Type Mismatch".to_owned(),
            HxError::DomainError(m) => m.clone(),
        }
    }
}

impl Clone for HxError {
    /// Cloning keeps the value.
    fn clone(&self) -> (res: Self)
        ensures
            res == *self,
    {
        match self {
            HxError::NullAccess => HxError::NullAccess,
            HxError::OutsideBounds => HxError::OutsideBounds,
            HxError::ThreadNotAlive => HxError::ThreadNotAlive,
            HxError::MutexOwnershipViolation => HxError::MutexOwnershipViolation,
            HxError::TypeMismatch => HxError::TypeMismatch,
            HxError::DomainError(s) => HxError::DomainError(s.clone()),
        }
    }
}

impl PartialEq for HxError {
    fn eq(&self, other: &HxError) -> (r: bool) {
        match self {
            HxError::NullAccess => matches!(other, HxError::NullAccess),
            HxError::OutsideBounds => matches!(other, HxError::OutsideBounds),
            HxError::ThreadNotAlive => matches!(other, HxError::ThreadNotAlive),
            HxError::MutexOwnershipViolation => matches!(other, HxError::MutexOwnershipViolation),
            HxError::TypeMismatch => matches!(other, HxError::TypeMismatch),
            HxError::DomainError(x) => match other {
                HxError::DomainError(y) => *x == *y,
                _ => false,
            },
        }
    }
}

impl vstd::std_specs::cmp::PartialEqSpecImpl for HxError {
    open spec fn obeys_eq_spec() -> bool {
        true
    }

    open spec fn eq_spec(&self, other: &HxError) -> bool {
        hx_error_eq(self, other)
    }
}

/// Greatest common divisor of two natural numbers, used to state what the
/// executable `gcd` returns.
pub open spec fn gcd_spec(a: nat, b: nat) -> nat
    decreases b,
{
    if b == 0 {
        a
    } else {
        gcd_spec(b, a % b)
    }
}

/// Prepare the runtime for use. All state of this library lives in values
/// the caller owns (stores, registries, slots), so nothing global needs
/// setting up; generated programs call this once at startup.
pub fn init() {
}

/// Euclid's algorithm on machine integers; the result is the gcd of the
/// absolute values of the arguments.
pub fn gcd(a: i32, b: i32) -> (r: i32)
    requires
        a > i32::MIN,
        b > i32::MIN,
    ensures
        r == gcd_spec(vstd::math::abs(a as int), vstd::math::abs(b as int)),
{
    let mut x = if a < 0 { -a } else { a };
    let mut y = if b < 0 { -b } else { b };
    while y != 0
        invariant
            0 <= x,
            0 <= y,
            gcd_spec(x as nat, y as nat) == gcd_spec(
                vstd::math::abs(a as int),
                vstd::math::abs(b as int),
            ),
        decreases y,
    {
        let t = x % y;
        x = y;
        y = t;
    }
    x
}

} // verus!
