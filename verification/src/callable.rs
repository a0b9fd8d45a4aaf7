//! The callable abstraction: native functions and user-defined functions,
//! invocable uniformly, dispatched by pattern matching.

use vstd::prelude::*;
use crate::function::{MyFunction, SFun};

verus! {

/// A placeholder callable with no behaviour of its own.
#[derive(Debug, Clone, Copy)]
pub struct MyCallable;

/// The native clock utility: a zero-argument function whose value is the
/// elapsed time in seconds since the Unix epoch, as a number.
#[derive(Debug, Clone, Copy)]
pub struct MyClock;

impl MyClock {
    /// The clock takes no arguments.
    pub fn arity(&self) -> (r: usize)
        ensures
            r == 0,
    {
        0
    }

    /// Relies on std's `SystemTime::now`: the milliseconds elapsed since the
    /// Unix epoch. Nothing can be promised of the reading itself.
    #[verifier::external_body]
    pub fn now_millis(&self) -> u64 {
        match std::time::SystemTime::now().duration_since(std::time::UNIX_EPOCH) {
            Result::Ok(d) => d.as_millis() as u64,
            Result::Err(_) => 0,
        }
    }
}

/// A callable value: the native clock or a user-defined function.
#[verifier::ext_equal]
#[derive(Debug)]
pub enum Callable {
    Clock(MyClock),
    Function(MyFunction),
}

/// The mathematical model of a callable value.
#[verifier::ext_equal]
pub enum SCallable {
    ClockV,
    FunctionV(SFun),
}

impl View for Callable {
    type V = SCallable;

    open spec fn view(&self) -> SCallable
        decreases self,
    {
        match self {
            Callable::Clock(_) => SCallable::ClockV,
            Callable::Function(f) => SCallable::FunctionV(f@),
        }
    }
}

/// The number of parameters a callable requires.
pub open spec fn scallable_arity(c: SCallable) -> nat {
    match c {
        SCallable::ClockV => 0,
        SCallable::FunctionV(f) => f.params.len(),
    }
}

impl Callable {
    /// The number of arguments this callable requires.
    pub fn arity(&self) -> (r: usize)
        ensures
            r == scallable_arity(self@),
    {
        match self {
            Callable::Clock(c) => c.arity(),
            Callable::Function(f) => f.arity(),
        }
    }

    /// An explicit copy with the same model as the original.
    pub fn duplicate(&self) -> (r: Callable)
        ensures
            r@ == self@,
        decreases self,
    {
        match self {
            Callable::Clock(_) => Callable::Clock(MyClock),
            Callable::Function(f) => Callable::Function(f.duplicate()),
        }
    }
}

} // verus!
