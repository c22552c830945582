//! The ways in which a tariff calculation can be refused.
use vstd::prelude::*;
use vstd::string::*;

use crate::calendar::QuarterHour;
use crate::index::{index_name, WeightedIndexId};
use crate::sheet::{field_name, nat_string, nat_text, trimmed_string, CellProblem, Field};
use crate::text::trimmed;

verus! {

/// What is wrong with a Belpex time such as `23u45`.
#[derive(Clone, Copy, Debug, PartialEq, Eq, Structural)]
pub enum TimeProblem {
    /// There is no `u` between hour and minute.
    MissingSeparator,
    /// The hour is not an unsigned 8-bit number.
    InvalidHour,
    /// The minute is not an unsigned 8-bit number.
    InvalidMinute,
    /// The hour is after 23 or the minute is not 0, 15, 30 or 45.
    NotAQuarterHour,
}

/// What is wrong with a Belpex date such as `01/04/2026`.
#[derive(Clone, Copy, Debug, PartialEq, Eq, Structural)]
pub enum DateProblem {
    /// The date is not three parts separated by `/`.
    WrongShape,
    /// The day is not an unsigned 8-bit number.
    InvalidDay,
    /// The month is not an unsigned 8-bit number.
    InvalidMonth,
    /// The year is not an unsigned 16-bit number.
    InvalidYear,
}

#[derive(Debug)]
pub enum TariffError {
    /// The month asked for is not in `1..=12`.
    InvalidMonth(u8),
    /// A Belpex time cell (given as read) could not be read.
    InvalidBelpexTime { value: String, time_problem: TimeProblem },
    /// A Belpex date cell (given as read) could not be read.
    InvalidBelpexDate { value: String, date_problem: DateProblem },
    /// A configured price names an index that does not exist.
    UnknownWeightedIndex(String),
    /// The pricing configuration defines no price.
    NoPrices,
    /// No quarter-hour of the weights has a spot price.
    NoMatchingQuarterHours,
    /// The matched quarter-hours have zero total weight.
    ZeroTotalWeight,
    /// A configured price asks for an index that was not calculated.
    MissingWeightedIndex(WeightedIndexId),
    /// A header row lacks a column that is needed.
    MissingColumn(Field),
    /// A worksheet has no header row where one is expected.
    MissingHeaderRow,
    /// The cell of a field in a row (counted from 1) cannot be read.
    Cell { field: Field, row: usize, problem: CellProblem },
    /// A row (counted from 1) was to be averaged over no columns.
    EmptyAverage { row: usize },
    /// No path was given for an input file, on the command line or in the
    /// configuration.
    MissingPath(String),
    /// A quarter-hour with a spot price has a weight that no decimal holds.
    InvalidWeight(QuarterHour),
    /// The spot price of a quarter-hour is one that no decimal holds.
    InvalidBelpexPrice(QuarterHour),
    /// A decimal result is too large to be represented.
    DecimalOverflow,
}

/// How a quarter-hour is shown in a message.
pub open spec fn quarter_hour_text(t: QuarterHour) -> Seq<char> {
    "QuarterHour { year: "@ + nat_text(t.year as nat) + ", month: "@ + nat_text(t.month as nat)
        + ", day: "@ + nat_text(t.day as nat) + ", hour: "@ + nat_text(t.hour as nat)
        + ", minute: "@ + nat_text(t.minute as nat) + " }"@
}

/// `s` between double quotes.
pub open spec fn quoted(s: Seq<char>) -> Seq<char> {
    seq!['"'] + s + seq!['"']
}

/// The message that tells what went wrong.
pub open spec fn error_message(e: TariffError) -> Seq<char> {
    match e {
        TariffError::InvalidMonth(m) => "month must be in the range 1..=12, got "@ + nat_text(
            m as nat,
        ),
        TariffError::InvalidBelpexTime { value, time_problem } => match time_problem {
            TimeProblem::MissingSeparator => "expected Belpex time like 23u45, got "@ + quoted(
                value@,
            ),
            TimeProblem::InvalidHour => "invalid Belpex hour in "@ + quoted(value@),
            TimeProblem::InvalidMinute => "invalid Belpex minute in "@ + quoted(value@),
            TimeProblem::NotAQuarterHour => "invalid quarter-hour Belpex time "@ + quoted(value@),
        },
        TariffError::InvalidBelpexDate { value, date_problem } => match date_problem {
            DateProblem::WrongShape => "expected Belpex date like DD/MM/YYYY, got "@ + quoted(
                trimmed(value@),
            ),
            DateProblem::InvalidDay => "invalid Belpex day in "@ + quoted(trimmed(value@)),
            DateProblem::InvalidMonth => "invalid Belpex month in "@ + quoted(trimmed(value@)),
            DateProblem::InvalidYear => "invalid Belpex year in "@ + quoted(trimmed(value@)),
        },
        TariffError::UnknownWeightedIndex(name) => "unknown weighted index "@ + quoted(name@),
        TariffError::NoPrices => "pricing config must define at least one [[prices]] entry"@,
        TariffError::NoMatchingQuarterHours =>
            "no matching quarter-hour rows found between SPP and Belpex inputs"@,
        TariffError::ZeroTotalWeight => "matched SPP rows have zero total weight"@,
        TariffError::MissingWeightedIndex(id) => "missing weighted index "@ + index_name(id),
        TariffError::MissingColumn(f) => "missing required column "@ + field_name(f),
        TariffError::MissingHeaderRow => "header row not found"@,
        TariffError::Cell { field, row, problem } => match problem {
            CellProblem::Missing => "missing "@ + field_name(field) + " value at row "@ + nat_text(
                row as nat,
            ),
            CellProblem::NoText => "missing or invalid "@ + field_name(field) + " value at row "@
                + nat_text(row as nat),
            CellProblem::Invalid => "invalid "@ + field_name(field) + " value at row "@ + nat_text(
                row as nat,
            ),
            CellProblem::NotInteger => "invalid integer "@ + field_name(field)
                + " value at row "@ + nat_text(row as nat),
            CellProblem::NotRepresentable => "cannot convert "@ + field_name(field)
                + " value at row "@ + nat_text(row as nat) + " to decimal"@,
        },
        TariffError::EmptyAverage { row } => "cannot average zero RLP columns at row "@ + nat_text(
            row as nat,
        ),
        TariffError::MissingPath(name) => "missing --"@ + name@
            + " path; provide it on the CLI or in [files]."@ + name@,
        TariffError::InvalidWeight(t) => "invalid SPP/RLP weight at "@ + quarter_hour_text(t),
        TariffError::InvalidBelpexPrice(t) => "invalid Belpex price at "@ + quarter_hour_text(t),
        TariffError::DecimalOverflow => "decimal arithmetic overflowed"@,
    }
}

/// `s` between double quotes.
fn quote(s: &str) -> (r: String)
    ensures
        r@ == quoted(s@),
{
    let r = String::from_str("\"").concat(s).concat("\"");
    proof {
        reveal_strlit("\"");
    }
    assert(r@ =~= quoted(s@));
    r
}

/// How a quarter-hour is shown in a message.
fn quarter_hour_string(t: QuarterHour) -> (r: String)
    ensures
        r@ == quarter_hour_text(t),
{
    let r = join("QuarterHour { year: ", nat_string(t.year as u64).as_str()).concat(
        ", month: ",
    ).concat(nat_string(t.month as u64).as_str()).concat(", day: ").concat(
        nat_string(t.day as u64).as_str(),
    ).concat(", hour: ").concat(nat_string(t.hour as u64).as_str()).concat(", minute: ").concat(
        nat_string(t.minute as u64).as_str(),
    ).concat(" }");
    assert(r@ =~= quarter_hour_text(t));
    r
}

/// `a` followed by `b`.
fn join(a: &str, b: &str) -> (r: String)
    ensures
        r@ == a@ + b@,
{
    String::from_str(a).concat(b)
}

impl TariffError {
    /// The message that tells what went wrong.
    pub fn message(&self) -> (r: String)
        ensures
            r@ == error_message(*self),
    {
        match self {
            TariffError::InvalidMonth(m) => join(
                "month must be in the range 1..=12, got ",
                nat_string(*m as u64).as_str(),
            ),
            TariffError::InvalidBelpexTime { value, time_problem } => {
                let q = quote(value.as_str());
                match time_problem {
                    TimeProblem::MissingSeparator => join(
                        "expected Belpex time like 23u45, got ",
                        q.as_str(),
                    ),
                    TimeProblem::InvalidHour => join("invalid Belpex hour in ", q.as_str()),
                    TimeProblem::InvalidMinute => join("invalid Belpex minute in ", q.as_str()),
                    TimeProblem::NotAQuarterHour => join(
                        "invalid quarter-hour Belpex time ",
                        q.as_str(),
                    ),
                }
            },
            TariffError::InvalidBelpexDate { value, date_problem } => {
                let t = trimmed_string(value);
                let q = quote(t.as_str());
                match date_problem {
                    DateProblem::WrongShape => join(
                        "expected Belpex date like DD/MM/YYYY, got ",
                        q.as_str(),
                    ),
                    DateProblem::InvalidDay => join("invalid Belpex day in ", q.as_str()),
                    DateProblem::InvalidMonth => join("invalid Belpex month in ", q.as_str()),
                    DateProblem::InvalidYear => join("invalid Belpex year in ", q.as_str()),
                }
            },
            TariffError::UnknownWeightedIndex(name) => join(
                "unknown weighted index ",
                quote(name.as_str()).as_str(),
            ),
            TariffError::NoPrices => String::from_str(
                "pricing config must define at least one [[prices]] entry",
            ),
            TariffError::NoMatchingQuarterHours => String::from_str(
                "no matching quarter-hour rows found between SPP and Belpex inputs",
            ),
            TariffError::ZeroTotalWeight => String::from_str(
                "matched SPP rows have zero total weight",
            ),
            TariffError::MissingWeightedIndex(id) => join("missing weighted index ", id.as_str()),
            TariffError::MissingColumn(f) => join("missing required column ", f.name()),
            TariffError::MissingHeaderRow => String::from_str("header row not found"),
            TariffError::Cell { field, row, problem } => {
                let n = nat_string(*row as u64);
                match problem {
                    CellProblem::Missing => join("missing ", field.name()).concat(
                        " value at row ",
                    ).concat(n.as_str()),
                    CellProblem::NoText => join("missing or invalid ", field.name()).concat(
                        " value at row ",
                    ).concat(n.as_str()),
                    CellProblem::Invalid => join("invalid ", field.name()).concat(
                        " value at row ",
                    ).concat(n.as_str()),
                    CellProblem::NotInteger => join("invalid integer ", field.name()).concat(
                        " value at row ",
                    ).concat(n.as_str()),
                    CellProblem::NotRepresentable => join("cannot convert ", field.name()).concat(
                        " value at row ",
                    ).concat(n.as_str()).concat(" to decimal"),
                }
            },
            TariffError::EmptyAverage { row } => join(
                "cannot average zero RLP columns at row ",
                nat_string(*row as u64).as_str(),
            ),
            TariffError::MissingPath(name) => join("missing --", name.as_str()).concat(
                " path; provide it on the CLI or in [files].",
            ).concat(name.as_str()),
            TariffError::InvalidWeight(t) => join(
                "invalid SPP/RLP weight at ",
                quarter_hour_string(*t).as_str(),
            ),
            TariffError::InvalidBelpexPrice(t) => join(
                "invalid Belpex price at ",
                quarter_hour_string(*t).as_str(),
            ),
            TariffError::DecimalOverflow => String::from_str("decimal arithmetic overflowed"),
        }
    }
}

} // verus!
