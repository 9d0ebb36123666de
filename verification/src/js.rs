//! Integers and timestamps that a JavaScript client can hold exactly.

use vstd::prelude::*;
use crate::error::DbFault;

verus! {

/// The largest integer that a JavaScript number holds exactly.
pub const MAX_SAFE_INT: i64 = 9007199254740991;

/// The smallest integer that a JavaScript number holds exactly.
pub const MIN_SAFE_INT: i64 = -9007199254740991;

/// Whether `v` lies within JavaScript's safe integers.
pub open spec fn is_safe_int(v: int) -> bool {
    MIN_SAFE_INT <= v <= MAX_SAFE_INT
}

/// Whether a time in seconds is a safe integer once it is in milliseconds.
pub open spec fn is_safe_time(seconds: int) -> bool {
    is_safe_int(seconds * 1000)
}

/// An integer within JavaScript's safe range.
#[derive(Debug, Copy, Clone, PartialEq, Eq, Structural)]
pub struct JsInt(i64);

impl View for JsInt {
    type V = int;

    closed spec fn view(&self) -> int {
        self.0 as int
    }
}

impl JsInt {
    /// Wraps `value` if it is a safe integer.
    pub fn try_from(value: i64) -> (r: Result<JsInt, ()>)
        ensures
            r.is_ok() == is_safe_int(value as int),
            r.is_ok() ==> r.unwrap()@ == value,
    {
        if value <= MAX_SAFE_INT && value >= MIN_SAFE_INT {
            Ok(JsInt(value))
        } else {
            Err(())
        }
    }

    /// Reads a stored integer, refusing one outside the safe range.
    pub fn column_result(value: i64) -> (r: Result<JsInt, DbFault>)
        ensures
            r == Self::spec_column_result(value),
    {
        match JsInt::try_from(value) {
            Ok(x) => {
                proof {
                    Self::lemma_view_injective(x, Self::spec_column_result(value).unwrap());
                }
                Ok(x)
            },
            Err(_) => Err(DbFault::OutOfRange(value)),
        }
    }

    /// What reading the stored integer `value` yields.
    pub closed spec fn spec_column_result(value: i64) -> Result<JsInt, DbFault> {
        if is_safe_int(value as int) {
            Ok(JsInt(value))
        } else {
            Err(DbFault::OutOfRange(value))
        }
    }

    /// Reading succeeds exactly on the safe integers, and keeps the number.
    pub proof fn lemma_column_result(value: i64)
        ensures
            Self::spec_column_result(value).is_ok() == is_safe_int(value as int),
            Self::spec_column_result(value).is_ok() ==> Self::spec_column_result(value).unwrap()@
                == value,
            !is_safe_int(value as int) ==> Self::spec_column_result(value) == Err::<JsInt, DbFault>(
                DbFault::OutOfRange(value),
            ),
    {
    }

    /// Two wrapped integers with the same value are the same.
    pub proof fn lemma_view_injective(a: JsInt, b: JsInt)
        requires
            a@ == b@,
        ensures
            a == b,
    {
    }

    /// The milliseconds of the time `seconds`.
    pub closed spec fn spec_millis(seconds: i64) -> JsInt {
        JsInt((seconds * 1000) as i64)
    }

    /// The milliseconds of the time `seconds`.
    pub fn millis(seconds: i64) -> (r: JsInt)
        requires
            is_safe_time(seconds as int),
        ensures
            r == Self::spec_millis(seconds),
            r@ == seconds * 1000,
    {
        JsInt(seconds * 1000)
    }

    /// The milliseconds of a time are a thousand times its seconds.
    pub proof fn lemma_millis(seconds: i64)
        requires
            is_safe_time(seconds as int),
        ensures
            Self::spec_millis(seconds)@ == seconds * 1000,
    {
    }

    /// A wrapped integer is a safe one.
    #[verifier::type_invariant]
    spec fn safe(self) -> bool {
        is_safe_int(self.0 as int)
    }

    /// The wrapped number, which is a safe integer.
    pub fn get(&self) -> (v: i64)
        ensures
            v == self@,
            is_safe_int(v as int),
    {
        proof {
            use_type_invariant(self);
        }
        self.0
    }
}

/// A time in milliseconds within JavaScript's safe range.
#[derive(Debug, Copy, Clone, PartialEq, Eq, Structural)]
pub struct JsTimestamp(pub JsInt);

impl JsTimestamp {
    /// What reading the stored time `seconds` yields: its milliseconds, or
    /// the number that did not fit.
    pub open spec fn spec_column_result(seconds: i64) -> Result<JsTimestamp, DbFault> {
        if !(i64::MIN <= seconds * 1000 <= i64::MAX) {
            Err(DbFault::OutOfRange(seconds))
        } else {
            match JsInt::spec_column_result((seconds * 1000) as i64) {
                Ok(ms) => Ok(JsTimestamp(ms)),
                Err(e) => Err(e),
            }
        }
    }

    /// Reads a stored time in seconds as milliseconds.
    pub fn column_result(seconds: i64) -> (r: Result<JsTimestamp, DbFault>)
        ensures
            r == Self::spec_column_result(seconds),
    {
        match seconds.checked_mul(1000) {
            None => Err(DbFault::OutOfRange(seconds)),
            Some(ms) => match JsInt::column_result(ms) {
                Ok(ms) => Ok(JsTimestamp(ms)),
                Err(e) => Err(e),
            },
        }
    }

    /// What reading a stored time that may be absent yields.
    pub open spec fn spec_optional(seconds: Option<i64>) -> Result<Option<JsTimestamp>, DbFault> {
        match seconds {
            None => Ok(None),
            Some(t) => match Self::spec_column_result(t) {
                Ok(ms) => Ok(Some(ms)),
                Err(e) => Err(e),
            },
        }
    }

    /// Reads a stored time that may be absent.
    pub fn optional(seconds: Option<i64>) -> (r: Result<Option<JsTimestamp>, DbFault>)
        ensures
            r == Self::spec_optional(seconds),
    {
        match seconds {
            None => Ok(None),
            Some(t) => match JsTimestamp::column_result(t) {
                Ok(ms) => Ok(Some(ms)),
                Err(e) => Err(e),
            },
        }
    }

    /// Reading succeeds exactly on the times that are safe in milliseconds.
    pub proof fn lemma_column_result(seconds: i64)
        ensures
            Self::spec_column_result(seconds).is_ok() == is_safe_time(seconds as int),
            Self::spec_column_result(seconds).is_ok() ==> Self::spec_column_result(
                seconds,
            ).unwrap().0@ == seconds * 1000,
    {
        if i64::MIN <= seconds * 1000 <= i64::MAX {
            JsInt::lemma_column_result((seconds * 1000) as i64);
        }
    }
}

} // verus!
