use vstd::prelude::*;

use crate::chain::Describe;

verus! {

/// The characters `Error`.
pub open spec fn error_text() -> Seq<char> {
    seq!['E', 'r', 'r', 'o', 'r']
}

fn error_string() -> (text: String)
    ensures
        text@ == error_text(),
{
    proof {
        reveal_strlit("Error");
    }
    "Error".to_owned()
}

/// A plain failure, shown as `Error`.
#[derive(Debug)]
pub struct Error1;

impl Describe for Error1 {
    open spec fn description(&self) -> Seq<char> {
        error_text()
    }

    fn describe(&self) -> (text: String) {
        error_string()
    }
}

/// The error type the helpers' failures are converted into, shown as
/// `Error`.
#[derive(Debug)]
pub enum Error {
    E1(Error1),
}

impl Describe for Error {
    open spec fn description(&self) -> Seq<char> {
        error_text()
    }

    fn describe(&self) -> (text: String) {
        error_string()
    }
}

impl From<Error1> for Error {
    fn from(value: Error1) -> (r: Self) {
        Error::E1(value)
    }
}

impl vstd::std_specs::convert::FromSpecImpl<Error1> for Error {
    open spec fn obeys_from_spec() -> bool {
        true
    }

    open spec fn from_spec(v: Error1) -> Self {
        Error::E1(v)
    }
}

/// Always fails.
pub fn f0() -> (r: Result<(), Error1>)
    ensures
        r == Err::<(), Error1>(Error1),
{
    Err(Error1)
}

/// Always fails, whatever the argument.
pub fn f1(_a: i32) -> (r: Result<(), Error1>)
    ensures
        r == Err::<(), Error1>(Error1),
{
    Err(Error1)
}

/// Always fails, whatever the arguments.
pub fn f2(_a: i32, _b: i32) -> (r: Result<(), Error1>)
    ensures
        r == Err::<(), Error1>(Error1),
{
    Err(Error1)
}

/// Always fails, whatever the arguments.
pub fn f3(_a: i32, _b: i32, _c: i32) -> (r: Result<(), Error1>)
    ensures
        r == Err::<(), Error1>(Error1),
{
    Err(Error1)
}

/// A receiver whose methods always fail.
pub struct Test;

impl Test {
    /// Always fails.
    pub fn f0(&self) -> (r: Result<(), Error1>)
        ensures
            r == Err::<(), Error1>(Error1),
    {
        Err(Error1)
    }

    /// Always fails, whatever the argument.
    pub fn f1(&self, _a: i32) -> (r: Result<(), Error1>)
        ensures
            r == Err::<(), Error1>(Error1),
    {
        Err(Error1)
    }

    /// Always fails, whatever the arguments.
    pub fn f2(&self, _a: i32, _b: i32) -> (r: Result<(), Error1>)
        ensures
            r == Err::<(), Error1>(Error1),
    {
        Err(Error1)
    }

    /// Always fails, whatever the arguments.
    pub fn f3(&self, _a: i32, _b: i32, _c: i32) -> (r: Result<(), Error1>)
        ensures
            r == Err::<(), Error1>(Error1),
    {
        Err(Error1)
    }
}

} // verus!
