//! What planning can refuse, and the text that says so.

use crate::text::{cat, cat_int, cat_num, decimal, signed_decimal};
use vstd::prelude::*;
use vstd::string::*;

verus! {

/// A number in a message.
#[derive(Clone, Copy, Debug, PartialEq, Eq, Structural)]
pub enum Arg {
    U(u64),
    I(i32),
}

/// A message: leading text, then up to three numbers, each followed by text.
#[derive(Clone, Copy, Debug)]
pub struct Reason {
    pub lead: &'static str,
    pub first: Option<(Arg, &'static str)>,
    pub second: Option<(Arg, &'static str)>,
    pub third: Option<(Arg, &'static str)>,
}

/// A number as it stands in a message.
pub open spec fn arg_text(a: Arg) -> Seq<char> {
    match a {
        Arg::U(n) => decimal(n as nat),
        Arg::I(n) => signed_decimal(n as int),
    }
}

/// A number and the text behind it.
pub open spec fn part_text(p: Option<(Arg, &'static str)>) -> Seq<char> {
    match p {
        Some((a, t)) => arg_text(a) + t@,
        None => Seq::empty(),
    }
}

fn cat_part(s: String, p: Option<(Arg, &'static str)>) -> (r: String)
    ensures
        r@ == s@ + part_text(p),
{
    match p {
        Some((a, t)) => {
            let ghost before = s@;
            let s = match a {
                Arg::U(n) => cat_num(s, n),
                Arg::I(n) => cat_int(s, n),
            };
            let r = cat(s, t);
            assert(r@ =~= before + part_text(p));
            r
        },
        None => {
            assert(s@ + part_text(p) =~= s@);
            s
        },
    }
}

impl Reason {
    /// The text of the message.
    pub open spec fn text(self) -> Seq<char> {
        self.lead@ + part_text(self.first) + part_text(self.second) + part_text(self.third)
    }

    /// The text of the message.
    pub fn message(&self) -> (r: String)
        ensures
            r@ == self.text(),
    {
        let s = String::from_str(self.lead);
        cat_part(cat_part(cat_part(s, self.first), self.second), self.third)
    }

    /// A message without numbers.
    pub open spec fn plain_spec(lead: &'static str) -> Reason {
        Reason { lead, first: None, second: None, third: None }
    }

    /// A message without numbers.
    #[verifier::when_used_as_spec(plain_spec)]
    pub fn plain(lead: &'static str) -> (r: Reason)
        ensures
            r == Reason::plain_spec(lead),
    {
        Reason { lead, first: None, second: None, third: None }
    }

    /// A message with one number.
    pub open spec fn one_spec(lead: &'static str, a: Arg, t: &'static str) -> Reason {
        Reason { lead, first: Some((a, t)), second: None, third: None }
    }

    /// A message with one number.
    #[verifier::when_used_as_spec(one_spec)]
    pub fn one(lead: &'static str, a: Arg, t: &'static str) -> (r: Reason)
        ensures
            r == Reason::one_spec(lead, a, t),
    {
        Reason { lead, first: Some((a, t)), second: None, third: None }
    }

    /// A message with two numbers.
    pub open spec fn two_spec(
        lead: &'static str,
        a: Arg,
        t: &'static str,
        b: Arg,
        u: &'static str,
    ) -> Reason {
        Reason { lead, first: Some((a, t)), second: Some((b, u)), third: None }
    }

    /// A message with two numbers.
    #[verifier::when_used_as_spec(two_spec)]
    pub fn two(lead: &'static str, a: Arg, t: &'static str, b: Arg, u: &'static str) -> (r: Reason)
        ensures
            r == Reason::two_spec(lead, a, t, b, u),
    {
        Reason { lead, first: Some((a, t)), second: Some((b, u)), third: None }
    }

    /// A message with three numbers.
    pub open spec fn three_spec(
        lead: &'static str,
        a: Arg,
        t: &'static str,
        b: Arg,
        u: &'static str,
        c: Arg,
        v: &'static str,
    ) -> Reason {
        Reason { lead, first: Some((a, t)), second: Some((b, u)), third: Some((c, v)) }
    }

    /// A message with three numbers.
    #[verifier::when_used_as_spec(three_spec)]
    pub fn three(
        lead: &'static str,
        a: Arg,
        t: &'static str,
        b: Arg,
        u: &'static str,
        c: Arg,
        v: &'static str,
    ) -> (r: Reason)
        ensures
            r == Reason::three_spec(lead, a, t, b, u, c, v),
    {
        Reason { lead, first: Some((a, t)), second: Some((b, u)), third: Some((c, v)) }
    }
}

/// What went wrong with a call into the driver.
#[derive(Clone, Copy, Debug, PartialEq, Eq, Structural)]
pub enum CudaErrorKind {
    MemcpyFailed,
    LaunchFailed,
    Other,
}

/// What planning or running device work reports.
#[derive(Clone, Copy, Debug)]
pub enum RuntimeError {
    /// A configuration field holds a value that cannot be used.
    InvalidField { field: &'static str, reason: Reason },
    /// A call into the driver failed, or a check that stands for one.
    Cuda { op: &'static str, kind: CudaErrorKind },
    /// An operation is not there.
    FeatureNotAvailable {
        op: &'static str,
        backend: &'static str,
        context: &'static str,
        num_seqs: u32,
        head_dim: u32,
    },
}

/// A report about the runtime's own state or arguments.
pub open spec fn runtime_fault(reason: Reason) -> RuntimeError {
    RuntimeError::InvalidField { field: "runtime", reason }
}

/// A report about the runtime's own state or arguments.
#[verifier::when_used_as_spec(runtime_fault)]
pub fn corrupt_runtime_err(reason: Reason) -> (r: RuntimeError)
    ensures
        r == runtime_fault(reason),
{
    RuntimeError::InvalidField { field: "runtime", reason }
}

/// A report that an operation of the drafter is not there.
pub open spec fn drafter_fault(
    op: &'static str,
    context: &'static str,
    head_dim: u32,
) -> RuntimeError {
    RuntimeError::FeatureNotAvailable {
        op,
        backend: "Gemma4Drafter",
        context,
        num_seqs: 1,
        head_dim,
    }
}

/// A report that an operation of the drafter is not there.
#[verifier::when_used_as_spec(drafter_fault)]
pub fn drafter_err(op: &'static str, context: &'static str, head_dim: u32) -> (r: RuntimeError)
    ensures
        r == drafter_fault(op, context, head_dim),
{
    RuntimeError::FeatureNotAvailable {
        op,
        backend: "Gemma4Drafter",
        context,
        num_seqs: 1,
        head_dim,
    }
}

/// A failed check that is reported as an error of the driver.
pub open spec fn cuda_fault(op: &'static str) -> RuntimeError {
    RuntimeError::Cuda { op, kind: CudaErrorKind::Other }
}

/// A failed check that is reported as an error of the driver.
#[verifier::when_used_as_spec(cuda_fault)]
pub fn cuda_err(op: &'static str) -> (r: RuntimeError)
    ensures
        r == cuda_fault(op),
{
    RuntimeError::Cuda { op, kind: CudaErrorKind::Other }
}

impl RuntimeError {
    /// The text of the report.
    pub open spec fn text(self) -> Seq<char> {
        match self {
            RuntimeError::InvalidField { reason, .. } => reason.text(),
            RuntimeError::Cuda { op, .. } => op@,
            RuntimeError::FeatureNotAvailable { op, .. } => op@,
        }
    }

    /// The text of the report.
    pub fn message(&self) -> (r: String)
        ensures
            r@ == self.text(),
    {
        match self {
            RuntimeError::InvalidField { reason, .. } => reason.message(),
            RuntimeError::Cuda { op, .. } => String::from_str(*op),
            RuntimeError::FeatureNotAvailable { op, .. } => String::from_str(*op),
        }
    }
}

} // verus!
