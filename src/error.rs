use vstd::prelude::*;

verus! {

/// A summary field that every decoded document must have.
#[derive(Debug, Clone, Copy, PartialEq, Eq, Structural)]
pub enum RequiredField {
    Currency,
    Resolution,
    PeriodStart,
    PeriodEnd,
}

/// The name of a summary field in words.
pub open spec fn field_name_of(f: RequiredField) -> Seq<char> {
    match f {
        RequiredField::Currency => "currency_Unit.name"@,
        RequiredField::Resolution => "resolution"@,
        RequiredField::PeriodStart => "period start"@,
        RequiredField::PeriodEnd => "period end"@,
    }
}

impl RequiredField {
    /// The name of the field in words.
    pub fn name(&self) -> (r: &'static str)
        ensures
            r@ == field_name_of(*self),
    {
        match self {
            RequiredField::Currency => "currency_Unit.name",
            RequiredField::Resolution => "resolution",
            RequiredField::PeriodStart => "period start",
            RequiredField::PeriodEnd => "period end",
        }
    }
}

/// Why a document, or a request for one, failed.
#[derive(Debug, Clone, PartialEq, Eq)]
pub enum EntsoeError {
    /// The bytes are not well-formed markup; the diagnostic in words.
    SyntaxError(String),
    /// A summary field was never seen.
    MissingField(RequiredField),
    /// No usable sample was left.
    EmptyResult,
    /// A bidding zone code that names no zone.
    InvalidBiddingZone(String),
    /// A requested interval whose start is not before its end.
    InvalidTimeRange(String),
    /// The service answered with a failure status.
    ApiError(String),
}

} // verus!

verus! {

/// Accepts a requested interval only where its start comes before its end.
pub fn check_time_range(period_start: i64, period_end: i64) -> (r: Result<(), EntsoeError>)
    ensures
        r is Ok <==> period_start < period_end,
        r is Err ==> r matches Err(EntsoeError::InvalidTimeRange(_)),
{
    if period_start >= period_end {
        return Err(EntsoeError::InvalidTimeRange("period_start must be before period_end".to_owned()));
    }
    Ok(())
}

} // verus!
