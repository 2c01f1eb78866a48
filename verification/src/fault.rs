//! The failures that construction and mapping report.
use crate::range::{range_text, Range};
use crate::text::{decimal_text, render_decimal};
use vstd::prelude::*;
use vstd::string::*;

verus! {

/// A failure, returned as a value; nothing in this crate panics or logs.
#[derive(Clone, Copy, Debug, PartialEq, Eq)]
pub enum Fault {
    /// A range was asked for with `min > max`.
    InvalidRange { min: i64, max: i64 },
    /// The nominal band reaches outside the destination scale.
    NominalOutOfDestination { nominal: Range, destination: Range },
    /// The domain has size zero, so no reading can be rescaled.
    DegenerateDomain { domain: Range },
}

/// The diagnostic for bounds given in the wrong order.
pub open spec fn invalid_range_text(min: int, max: int) -> Seq<char> {
    "invalid range: min:="@ + decimal_text(min) + ", max:="@ + decimal_text(max)
        + ", min <= max is false!"@
}

/// The diagnostic for a nominal band outside its destination scale.
pub open spec fn nominal_out_of_destination_text(nominal: Seq<char>, destination: Seq<char>) -> Seq<
    char,
> {
    "values nominal:="@ + nominal + " is not contained in values:="@ + destination
}

/// The diagnostic for a domain of size zero.
pub open spec fn degenerate_domain_text(domain: Seq<char>) -> Seq<char> {
    "degenerate domain: domain:="@ + domain + " has size zero"@
}

impl Fault {
    /// The diagnostic text of each failure, which names the offending bounds.
    pub open spec fn text(self) -> Seq<char> {
        match self {
            Fault::InvalidRange { min, max } => invalid_range_text(min as int, max as int),
            Fault::NominalOutOfDestination {
                nominal,
                destination,
            } => nominal_out_of_destination_text(range_text(nominal@), range_text(destination@)),
            Fault::DegenerateDomain { domain } => degenerate_domain_text(range_text(domain@)),
        }
    }

    /// Writes the failure out for logs and callers that match on text.
    pub fn message(&self) -> (text: String)
        ensures
            text@ == self.text(),
    {
        match self {
            Fault::InvalidRange { min, max } => {
                let text = String::from_str("invalid range: min:=");
                let text = text.concat(render_decimal(*min).as_str());
                let text = text.concat(", max:=");
                let text = text.concat(render_decimal(*max).as_str());
                text.concat(", min <= max is false!")
            },
            Fault::NominalOutOfDestination { nominal, destination } => {
                let text = String::from_str("values nominal:=");
                let text = text.concat(nominal.describe().as_str());
                let text = text.concat(" is not contained in values:=");
                text.concat(destination.describe().as_str())
            },
            Fault::DegenerateDomain { domain } => {
                let text = String::from_str("degenerate domain: domain:=");
                let text = text.concat(domain.describe().as_str());
                text.concat(" has size zero")
            },
        }
    }
}

} // verus!
