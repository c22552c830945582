//! Worksheet cells, the columns of a header row, and the readers of the
//! solar production, load profile and Belpex sheets: the records that a
//! month's rows give, or the first row that cannot be read.
use vstd::prelude::*;
use vstd::string::*;

use crate::calendar::{
    belpex_date_outcome, belpex_time_outcome, is_quarter_minute, lemma_belpex_time_valid,
    parse_belpex_date, parse_belpex_time, QuarterHour,
};
use crate::decimal::{
    add_opt, decimal_checked_quotient, decimal_checked_sum, div_opt, opt_quotient, opt_sum, opt_view,
    lemma_pow10_positive, pow10, whole_number, zero_repr, Dec,
};
use crate::weighted::{price_views, weight_views, BelpexRecord, SppRecord, TimedReading};
use crate::error::{DateProblem, TariffError, TimeProblem};
use crate::text::{chars_of, str_matches, trim_bounds, trimmed};

verus! {

/// A column, or a group of columns, that the reading logic looks for or
/// reports on.
#[derive(Clone, Copy, Debug, PartialEq, Eq, Structural)]
pub enum Field {
    Year,
    Month,
    Day,
    /// The hour column of the production profile sheet.
    Hour,
    /// The hour column of the load profile sheet.
    LoadHour,
    Minute,
    /// The solar production share.
    SppExanteBe,
    Date,
    Time,
    Euro,
    /// The Flemish reference load profile columns.
    VlRlp,
    /// The Belgian reference load profile columns.
    BeRlp,
    /// The load profile columns of Fluvius.
    RlpFluvius,
    /// The load profile columns of the Walloon operators.
    RlpWallonia,
    /// The load profile columns of Sibelga.
    RlpSibelga,
}

/// The header text of a column, or the label of a group of columns.
pub open spec fn field_name(f: Field) -> Seq<char> {
    match f {
        Field::Year => "Year"@,
        Field::Month => "Month"@,
        Field::Day => "Day"@,
        Field::Hour => "Hour"@,
        Field::LoadHour => "h"@,
        Field::Minute => "Min"@,
        Field::SppExanteBe => "SPPExanteBE"@,
        Field::Date => "Date"@,
        Field::Time => "Time"@,
        Field::Euro => "Euro"@,
        Field::VlRlp => "VL RLP"@,
        Field::BeRlp => "BE RLP"@,
        Field::RlpFluvius => "RLP Fluvius"@,
        Field::RlpWallonia => "RLP Wallonia"@,
        Field::RlpSibelga => "RLP Sibelga"@,
    }
}

impl Field {
    pub fn name(self) -> (r: &'static str)
        ensures
            r@ == field_name(self),
    {
        match self {
            Field::Year => "Year",
            Field::Month => "Month",
            Field::Day => "Day",
            Field::Hour => "Hour",
            Field::LoadHour => "h",
            Field::Minute => "Min",
            Field::SppExanteBe => "SPPExanteBE",
            Field::Date => "Date",
            Field::Time => "Time",
            Field::Euro => "Euro",
            Field::VlRlp => "VL RLP",
            Field::BeRlp => "BE RLP",
            Field::RlpFluvius => "RLP Fluvius",
            Field::RlpWallonia => "RLP Wallonia",
            Field::RlpSibelga => "RLP Sibelga",
        }
    }
}

/// What is wrong with the cell of a row.
#[derive(Clone, Copy, Debug, PartialEq, Eq, Structural)]
pub enum CellProblem {
    /// The row has no cell in the column.
    Missing,
    /// The row has no cell in the column, or the cell holds no text.
    NoText,
    /// The cell does not hold a number.
    Invalid,
    /// The number is not a whole number in the range of the field.
    NotInteger,
    /// The number cannot be held as a decimal (infinite, not a number, or
    /// too large).
    NotRepresentable,
}

/// How the text of a text cell reads as a number.
#[derive(Clone, Copy, Debug)]
pub enum CellNumber {
    /// The trimmed text is not a number.
    NotANumber,
    /// The text is a number that no decimal can hold.
    NotFinite,
    Finite(Dec),
}

/// A worksheet cell. Number cells come with their text as the workbook
/// shows it and their value as a decimal; text cells with the number their
/// text reads as.
#[derive(Clone, Debug)]
pub enum Cell {
    Empty,
    Error,
    Text { text: String, number: CellNumber },
    /// A floating-point number cell; `number` is `None` where no decimal can
    /// hold it.
    Float { text: String, number: Option<Dec> },
    Int(i64),
    /// A date and time, as the workbook shows it.
    DateTime(String),
    /// An ISO 8601 date, time or duration.
    Iso(String),
    Bool(bool),
}

/// The character of a decimal digit.
pub open spec fn digit_char(d: int) -> char {
    ((48 + d) as u8) as char
}

/// `n` written in decimal digits.
pub open spec fn nat_text(n: nat) -> Seq<char>
    decreases n,
{
    if n < 10 {
        seq![digit_char(n as int)]
    } else {
        nat_text(n / 10).push(digit_char((n % 10) as int))
    }
}

/// `v` written in decimal, with a leading `-` when negative.
pub open spec fn int_text(v: int) -> Seq<char> {
    if v < 0 {
        seq!['-'] + nat_text((-v) as nat)
    } else {
        nat_text(v as nat)
    }
}

/// The text of a cell, where it has one: text trimmed of white space,
/// numbers as the workbook writes them, truth values as `true` or `false`.
pub open spec fn cell_text(c: Cell) -> Option<Seq<char>> {
    match c {
        Cell::Text { text, .. } => Some(trimmed(text@)),
        Cell::Float { text, .. } => Some(text@),
        Cell::Int(v) => Some(int_text(v as int)),
        Cell::DateTime(text) => Some(text@),
        Cell::Iso(text) => Some(trimmed(text@)),
        Cell::Bool(b) => Some(
            if b {
                "true"@
            } else {
                "false"@
            },
        ),
        Cell::Empty => None,
        Cell::Error => None,
    }
}

pub open spec fn opt_string_view(o: Option<String>) -> Option<Seq<char>> {
    match o {
        Some(s) => Some(s@),
        None => None,
    }
}

fn digit_str(d: u64) -> (r: &'static str)
    requires
        d < 10,
    ensures
        r@ == seq![digit_char(d as int)],
{
    proof {
        reveal_strlit("0");
        reveal_strlit("1");
        reveal_strlit("2");
        reveal_strlit("3");
        reveal_strlit("4");
        reveal_strlit("5");
        reveal_strlit("6");
        reveal_strlit("7");
        reveal_strlit("8");
        reveal_strlit("9");
    }
    let r = if d == 0 {
        "0"
    } else if d == 1 {
        "1"
    } else if d == 2 {
        "2"
    } else if d == 3 {
        "3"
    } else if d == 4 {
        "4"
    } else if d == 5 {
        "5"
    } else if d == 6 {
        "6"
    } else if d == 7 {
        "7"
    } else if d == 8 {
        "8"
    } else {
        "9"
    };
    assert(r@ =~= seq![digit_char(d as int)]);
    r
}

/// `n` written in decimal digits.
pub fn nat_string(n: u64) -> (r: String)
    ensures
        r@ == nat_text(n as nat),
    decreases n,
{
    if n < 10 {
        let r = String::from_str(digit_str(n));
        assert(r@ =~= nat_text(n as nat));
        r
    } else {
        let prefix = nat_string(n / 10);
        let r = prefix.concat(digit_str(n % 10));
        assert(r@ =~= nat_text(n as nat));
        r
    }
}

/// `v` written in decimal, as `to_string` writes an integer.
pub fn int_string(v: i64) -> (r: String)
    ensures
        r@ == int_text(v as int),
{
    if v < 0 {
        let magnitude = (0i128 - v as i128) as u64;
        proof {
            reveal_strlit("-");
        }
        let r = String::from_str("-").concat(nat_string(magnitude).as_str());
        assert(r@ =~= int_text(v as int));
        r
    } else {
        nat_string(v as u64)
    }
}

/// `s` trimmed of leading and trailing white space.
pub fn trimmed_string(s: &String) -> (r: String)
    ensures
        r@ == trimmed(s@),
{
    let chars = chars_of(s.as_str());
    let (lo, hi) = trim_bounds(&chars);
    s.as_str().substring_char(lo, hi).to_owned()
}

/// The text of a cell, where it has one.
pub fn cell_string(cell: &Cell) -> (r: Option<String>)
    ensures
        opt_string_view(r) == cell_text(*cell),
{
    match cell {
        Cell::Text { text, .. } => Some(trimmed_string(text)),
        Cell::Float { text, .. } => Some(text.clone()),
        Cell::Int(v) => Some(int_string(*v)),
        Cell::DateTime(text) => Some(text.clone()),
        Cell::Iso(text) => Some(trimmed_string(text)),
        Cell::Bool(b) => {
            if *b {
                Some("true".to_owned())
            } else {
                Some("false".to_owned())
            }
        },
        Cell::Empty => None,
        Cell::Error => None,
    }
}

/// The texts of a header row, cell by cell.
pub open spec fn header_names(header: Seq<Cell>) -> Seq<Option<Seq<char>>> {
    header.map_values(|c: Cell| cell_text(c))
}

/// The position of the column named `name`: the last header cell with that
/// text, as when the header is collected into a map from name to position.
pub open spec fn column_index(names: Seq<Option<Seq<char>>>, name: Seq<char>) -> Option<int>
    decreases names.len(),
{
    if names.len() == 0 {
        None
    } else if names.last() == Some(name) {
        Some(names.len() - 1)
    } else {
        column_index(names.drop_last(), name)
    }
}

/// The first of the `required` fields that has no column, if any.
pub open spec fn first_missing(names: Seq<Option<Seq<char>>>, required: Seq<Field>) -> Option<
    Field,
>
    decreases required.len(),
{
    if required.len() == 0 {
        None
    } else if column_index(names, field_name(required[0])) is None {
        Some(required[0])
    } else {
        first_missing(names, required.drop_first())
    }
}

pub proof fn lemma_column_index(names: Seq<Option<Seq<char>>>, name: Seq<char>)
    ensures
        match column_index(names, name) {
            Some(i) => 0 <= i < names.len() && names[i] == Some(name) && forall|j: int|
                i < j < names.len() ==> names[j] != Some(name),
            None => forall|j: int| 0 <= j < names.len() ==> names[j] != Some(name),
        },
    decreases names.len(),
{
    if names.len() > 0 && names.last() != Some(name) {
        let prev = names.drop_last();
        lemma_column_index(prev, name);
        assert forall|j: int| 0 <= j < prev.len() implies prev[j] == names[j] by {}
        match column_index(prev, name) {
            Some(i) => {
                assert(names[i] == Some(name));
                assert forall|j: int| i < j < names.len() implies names[j] != Some(name) by {
                    if j < prev.len() {
                        assert(prev[j] == names[j]);
                    }
                }
            },
            None => {
                assert forall|j: int| 0 <= j < names.len() implies names[j] != Some(name) by {
                    if j < prev.len() {
                        assert(prev[j] == names[j]);
                    }
                }
            },
        }
    }
}

/// The columns of a worksheet, found by the texts of its header row.
pub struct Columns {
    names: Vec<Option<String>>,
}

impl View for Columns {
    type V = Seq<Option<Seq<char>>>;

    closed spec fn view(&self) -> Seq<Option<Seq<char>>> {
        self.names@.map_values(|o: Option<String>| opt_string_view(o))
    }
}

impl Columns {
    /// The columns of `header`; refused where one of the `required` fields
    /// has no column (the first such field is reported).
    pub fn from_header(header: &[Cell], required: &[Field]) -> (r: Result<Columns, TariffError>)
        ensures
            match first_missing(header_names(header@), required@) {
                None => r matches Ok(c) && c@ == header_names(header@),
                Some(f) => r == Err::<Columns, TariffError>(TariffError::MissingColumn(f)),
            },
    {
        let mut names: Vec<Option<String>> = Vec::new();
        let mut i: usize = 0;
        while i < header.len()
            invariant
                i <= header.len(),
                names@.len() == i,
                forall|k: int|
                    0 <= k < i ==> opt_string_view(#[trigger] names@[k]) == cell_text(header@[k]),
            decreases header.len() - i,
        {
            names.push(cell_string(&header[i]));
            i += 1;
        }
        let columns = Columns { names };
        assert(columns@ =~= header_names(header@));
        assert(required@.skip(0) =~= required@);
        let mut k: usize = 0;
        while k < required.len()
            invariant
                k <= required.len(),
                columns@ == header_names(header@),
                first_missing(header_names(header@), required@) == first_missing(
                    header_names(header@),
                    required@.skip(k as int),
                ),
            decreases required.len() - k,
        {
            let field = required[k];
            assert(required@.skip(k as int)[0] == field);
            assert(required@.skip(k as int).drop_first() =~= required@.skip(k + 1));
            match columns.get(field) {
                Err(e) => {
                    return Err(e);
                },
                Ok(_) => {},
            }
            k += 1;
        }
        assert(required@.skip(k as int) =~= Seq::<Field>::empty());
        Ok(columns)
    }

    /// The position of the column of `field`: the last header cell whose text
    /// is the field's name.
    pub fn get(&self, field: Field) -> (r: Result<usize, TariffError>)
        ensures
            match column_index(self@, field_name(field)) {
                Some(i) => r matches Ok(k) && k as int == i,
                None => r == Err::<usize, TariffError>(TariffError::MissingColumn(field)),
            },
    {
        let ghost name = field_name(field);
        proof {
            lemma_column_index(self@, name);
        }
        let mut i: usize = self.names.len();
        while i > 0
            invariant
                i <= self.names.len(),
                name == field_name(field),
                forall|j: int| i <= j < self@.len() ==> self@[j] != Some(name),
            decreases i,
        {
            let hit = match &self.names[i - 1] {
                Some(s) => str_matches(s.as_str(), field.name()),
                None => false,
            };
            assert(self@[i - 1] == opt_string_view(self.names@[i - 1]));
            assert(hit == (self@[i - 1] == Some(name)));
            if hit {
                proof {
                    lemma_column_index(self@, name);
                    match column_index(self@, name) {
                        Some(c) => {
                            if c < i - 1 {
                                assert(self@[i - 1] == Some(name));
                            }
                        },
                        None => {
                            assert(self@[i - 1] == Some(name));
                        },
                    }
                }
                return Ok(i - 1);
            }
            assert(self@[i - 1] != Some(name));
            i -= 1;
        }
        proof {
            lemma_column_index(self@, name);
            match column_index(self@, name) {
                Some(c) => {
                    assert(self@[c] == Some(name));
                },
                None => {},
            }
        }
        Err(TariffError::MissingColumn(field))
    }
}

/// The number a cell holds, as a decimal.
pub open spec fn cell_number(c: Cell) -> Result<(int, nat), CellProblem> {
    match c {
        Cell::Float { number, .. } => match number {
            Some(d) => Ok(d@),
            None => Err(CellProblem::NotRepresentable),
        },
        Cell::Text { number, .. } => match number {
            CellNumber::Finite(d) => Ok(d@),
            CellNumber::NotFinite => Err(CellProblem::NotRepresentable),
            CellNumber::NotANumber => Err(CellProblem::Invalid),
        },
        Cell::Int(v) => Ok((v as int, 0nat)),
        _ => Err(CellProblem::Invalid),
    }
}

/// The whole number from 0 to `max` that a cell holds.
pub open spec fn cell_integer(c: Cell, max: int) -> Result<int, CellProblem> {
    match cell_number(c) {
        Ok(v) => match whole_number(v, max) {
            Some(n) => Ok(n),
            None => Err(CellProblem::NotInteger),
        },
        Err(CellProblem::NotRepresentable) => Err(CellProblem::NotInteger),
        Err(p) => Err(p),
    }
}

/// The error for the cell of `field` in row `row_number`.
pub open spec fn cell_error(field: Field, row_number: usize, problem: CellProblem) -> TariffError {
    TariffError::Cell { field, row: row_number, problem }
}

/// The number in column `index` of a row.
pub open spec fn number_at(row: Seq<Cell>, index: int, field: Field, row_number: usize) -> Result<
    (int, nat),
    TariffError,
> {
    if index < 0 || index >= row.len() {
        Err(cell_error(field, row_number, CellProblem::Missing))
    } else {
        match cell_number(row[index]) {
            Ok(v) => Ok(v),
            Err(p) => Err(cell_error(field, row_number, p)),
        }
    }
}

/// The reading of a cell (a weight or a price): the decimal it reads as, or
/// `None` where it holds a number that no decimal can hold (such a reading
/// is only refused where it is used).
pub open spec fn cell_reading(c: Cell) -> Result<Option<(int, nat)>, CellProblem> {
    match c {
        Cell::Float { number, .. } => Ok(opt_view(number)),
        Cell::Text { number, .. } => match number {
            CellNumber::Finite(d) => Ok(Some(d@)),
            CellNumber::NotFinite => Ok(None),
            CellNumber::NotANumber => Err(CellProblem::Invalid),
        },
        Cell::Int(v) => Ok(Some((v as int, 0nat))),
        _ => Err(CellProblem::Invalid),
    }
}

/// The reading in column `index` of a row.
pub open spec fn reading_at(row: Seq<Cell>, index: int, field: Field, row_number: usize) -> Result<
    Option<(int, nat)>,
    TariffError,
> {
    if index < 0 || index >= row.len() {
        Err(cell_error(field, row_number, CellProblem::Missing))
    } else {
        match cell_reading(row[index]) {
            Ok(v) => Ok(v),
            Err(p) => Err(cell_error(field, row_number, p)),
        }
    }
}

/// The whole number from 0 to `max` in column `index` of a row.
pub open spec fn integer_at(
    row: Seq<Cell>,
    index: int,
    field: Field,
    row_number: usize,
    max: int,
) -> Result<int, TariffError> {
    if index < 0 || index >= row.len() {
        Err(cell_error(field, row_number, CellProblem::Missing))
    } else {
        match cell_integer(row[index], max) {
            Ok(v) => Ok(v),
            Err(p) => Err(cell_error(field, row_number, p)),
        }
    }
}

/// The text in column `index` of a row.
pub open spec fn text_at(row: Seq<Cell>, index: int, field: Field, row_number: usize) -> Result<
    Seq<char>,
    TariffError,
> {
    if index < 0 || index >= row.len() {
        Err(cell_error(field, row_number, CellProblem::NoText))
    } else {
        match cell_text(row[index]) {
            Some(t) => Ok(t),
            None => Err(cell_error(field, row_number, CellProblem::NoText)),
        }
    }
}

/// The number in column `index` of a row.
pub fn cell_decimal(row: &[Cell], index: usize, field: Field, row_number: usize) -> (r: Result<
    Dec,
    TariffError,
>)
    ensures
        match number_at(row@, index as int, field, row_number) {
            Ok(v) => r matches Ok(d) && d@ == v,
            Err(e) => r == Err::<Dec, TariffError>(e),
        },
{
    if index >= row.len() {
        return Err(TariffError::Cell { field, row: row_number, problem: CellProblem::Missing });
    }
    let problem = match &row[index] {
        Cell::Float { number, .. } => match number {
            Some(d) => {
                return Ok(*d);
            },
            None => CellProblem::NotRepresentable,
        },
        Cell::Text { number, .. } => match number {
            CellNumber::Finite(d) => {
                return Ok(*d);
            },
            CellNumber::NotFinite => CellProblem::NotRepresentable,
            CellNumber::NotANumber => CellProblem::Invalid,
        },
        Cell::Int(v) => {
            return Ok(Dec::new(*v, 0));
        },
        _ => CellProblem::Invalid,
    };
    Err(TariffError::Cell { field, row: row_number, problem })
}

/// The reading in column `index` of a row.
pub fn cell_reading_at(row: &[Cell], index: usize, field: Field, row_number: usize) -> (r: Result<
    Option<Dec>,
    TariffError,
>)
    ensures
        match reading_at(row@, index as int, field, row_number) {
            Ok(v) => r matches Ok(w) && opt_view(w) == v,
            Err(e) => r == Err::<Option<Dec>, TariffError>(e),
        },
{
    if index >= row.len() {
        return Err(TariffError::Cell { field, row: row_number, problem: CellProblem::Missing });
    }
    match &row[index] {
        Cell::Float { number, .. } => Ok(*number),
        Cell::Text { number, .. } => match number {
            CellNumber::Finite(d) => Ok(Some(*d)),
            CellNumber::NotFinite => Ok(None),
            CellNumber::NotANumber => Err(
                TariffError::Cell { field, row: row_number, problem: CellProblem::Invalid },
            ),
        },
        Cell::Int(v) => Ok(Some(Dec::new(*v, 0))),
        _ => Err(TariffError::Cell { field, row: row_number, problem: CellProblem::Invalid }),
    }
}

/// The whole number from 0 to `max` in column `index` of a row.
fn cell_whole(row: &[Cell], index: usize, field: Field, row_number: usize, max: u64) -> (r: Result<
    u64,
    TariffError,
>)
    ensures
        match integer_at(row@, index as int, field, row_number, max as int) {
            Ok(v) => r matches Ok(n) && n as int == v,
            Err(e) => r == Err::<u64, TariffError>(e),
        },
{
    match cell_decimal(row, index, field, row_number) {
        Ok(d) => match d.to_whole(max) {
            Some(n) => Ok(n),
            None => Err(TariffError::Cell { field, row: row_number, problem: CellProblem::NotInteger }),
        },
        Err(TariffError::Cell { field, row, problem: CellProblem::NotRepresentable }) => Err(
            TariffError::Cell { field, row, problem: CellProblem::NotInteger },
        ),
        Err(e) => Err(e),
    }
}

/// The unsigned 16-bit number in column `index` of a row.
pub fn cell_u16(row: &[Cell], index: usize, field: Field, row_number: usize) -> (r: Result<
    u16,
    TariffError,
>)
    ensures
        match integer_at(row@, index as int, field, row_number, 65535) {
            Ok(v) => r matches Ok(n) && n as int == v,
            Err(e) => r == Err::<u16, TariffError>(e),
        },
{
    match cell_whole(row, index, field, row_number, 65535) {
        Ok(n) => Ok(n as u16),
        Err(e) => Err(e),
    }
}

/// The unsigned 8-bit number in column `index` of a row.
pub fn cell_u8(row: &[Cell], index: usize, field: Field, row_number: usize) -> (r: Result<
    u8,
    TariffError,
>)
    ensures
        match integer_at(row@, index as int, field, row_number, 255) {
            Ok(v) => r matches Ok(n) && n as int == v,
            Err(e) => r == Err::<u8, TariffError>(e),
        },
{
    match cell_whole(row, index, field, row_number, 255) {
        Ok(n) => Ok(n as u8),
        Err(e) => Err(e),
    }
}

/// The text in column `index` of a row.
pub fn cell_string_at(row: &[Cell], index: usize, field: Field, row_number: usize) -> (r: Result<
    String,
    TariffError,
>)
    ensures
        match text_at(row@, index as int, field, row_number) {
            Ok(t) => r matches Ok(s) && s@ == t,
            Err(e) => r == Err::<String, TariffError>(e),
        },
{
    if index >= row.len() {
        return Err(TariffError::Cell { field, row: row_number, problem: CellProblem::NoText });
    }
    match cell_string(&row[index]) {
        Some(s) => Ok(s),
        None => Err(TariffError::Cell { field, row: row_number, problem: CellProblem::NoText }),
    }
}

/// Reading rows `first .. n` of a sheet (counted from 0) in order: what
/// each row gives is collected, rows that give nothing are passed over, and
/// the first refusal ends the reading. `read` is told the row's number
/// counted from 1.
pub open spec fn read_rows<T, E>(
    rows: Seq<Vec<Cell>>,
    first: nat,
    n: nat,
    read: spec_fn(Seq<Cell>, usize) -> Result<Option<T>, E>,
) -> Result<Seq<T>, E>
    decreases n,
{
    if n <= first {
        Ok(Seq::empty())
    } else {
        match read_rows(rows, first, (n - 1) as nat, read) {
            Err(e) => Err(e),
            Ok(acc) => match read(rows[n - 1]@, n as usize) {
                Err(e) => Err(e),
                Ok(None) => Ok(acc),
                Ok(Some(x)) => Ok(acc.push(x)),
            },
        }
    }
}

/// Once a row is refused, the reading stays refused with the same error.
pub proof fn lemma_read_rows_stops<T, E>(
    rows: Seq<Vec<Cell>>,
    first: nat,
    n: nat,
    m: nat,
    read: spec_fn(Seq<Cell>, usize) -> Result<Option<T>, E>,
)
    requires
        n <= m,
        read_rows(rows, first, n, read) is Err,
    ensures
        read_rows(rows, first, m, read) == read_rows(rows, first, n, read),
    decreases m,
{
    if m > n {
        lemma_read_rows_stops(rows, first, n, (m - 1) as nat, read);
    }
}

/// What a row gives, if anything, has property `p`.
pub open spec fn gives_only<T, E>(r: Result<Option<T>, E>, p: spec_fn(T) -> bool) -> bool {
    match r {
        Ok(Some(x)) => p(x),
        _ => true,
    }
}

/// Each item that reading the rows gives is what one of the rows read
/// gives, that row read with its own number.
pub proof fn lemma_read_rows_from_rows<T, E>(
    rows: Seq<Vec<Cell>>,
    first: nat,
    n: nat,
    read: spec_fn(Seq<Cell>, usize) -> Result<Option<T>, E>,
)
    ensures
        read_rows(rows, first, n, read) matches Ok(v) ==> forall|k: int|
            #![trigger v[k]]
            0 <= k < v.len() ==> exists|j: int|
                first <= j < n && #[trigger] read(rows[j]@, (j + 1) as usize) == Ok::<
                    Option<T>,
                    E,
                >(Some(v[k])),
    decreases n,
{
    if n > first {
        lemma_read_rows_from_rows(rows, first, (n - 1) as nat, read);
        match read_rows(rows, first, (n - 1) as nat, read) {
            Ok(acc) => {
                let j0: int = n - 1;
                assert((j0 + 1) as usize == n as usize);
                match read(rows[n - 1]@, n as usize) {
                    Ok(Some(y)) => {
                        let v = acc.push(y);
                        assert forall|k: int| #![trigger v[k]] 0 <= k < v.len() implies exists|j: int|
                            first <= j < n && #[trigger] read(rows[j]@, (j + 1) as usize) == Ok::<
                                Option<T>,
                                E,
                            >(Some(v[k])) by {
                            if k < acc.len() {
                                assert(v[k] == acc[k]);
                                let j = choose|j: int|
                                    first <= j < n - 1 && #[trigger] read(
                                        rows[j]@,
                                        (j + 1) as usize,
                                    ) == Ok::<Option<T>, E>(Some(acc[k]));
                                assert(read(rows[j]@, (j + 1) as usize) == Ok::<Option<T>, E>(
                                    Some(v[k]),
                                ));
                            } else {
                                assert(read(rows[j0]@, (j0 + 1) as usize) == Ok::<Option<T>, E>(
                                    Some(v[k]),
                                ));
                            }
                        }
                    },
                    _ => {},
                }
            },
            Err(_) => {},
        }
    }
}

/// What every row gives, all rows read give.
pub proof fn lemma_read_rows_all<T, E>(
    rows: Seq<Vec<Cell>>,
    first: nat,
    n: nat,
    read: spec_fn(Seq<Cell>, usize) -> Result<Option<T>, E>,
    p: spec_fn(T) -> bool,
)
    requires
        forall|row: Seq<Cell>, k: usize| #[trigger] gives_only(read(row, k), p),
    ensures
        read_rows(rows, first, n, read) matches Ok(v) ==> forall|j: int|
            0 <= j < v.len() ==> p(#[trigger] v[j]),
    decreases n,
{
    if n > first {
        lemma_read_rows_all(rows, first, (n - 1) as nat, read, p);
        match read_rows(rows, first, (n - 1) as nat, read) {
            Ok(acc) => {
                assert(gives_only(read(rows[n - 1]@, n as usize), p));
                match read(rows[n - 1]@, n as usize) {
                    Ok(Some(y)) => {
                        assert(p(y));
                        assert forall|j: int| 0 <= j < acc.push(y).len() implies p(
                            #[trigger] acc.push(y)[j],
                        ) by {
                            if j < acc.len() {
                                assert(acc.push(y)[j] == acc[j]);
                            }
                        }
                    },
                    _ => {},
                }
            },
            Err(_) => {},
        }
    }
}

/// A quarter-hour of the asked month.
pub open spec fn in_month(t: QuarterHour, year: u16, month: u8) -> bool {
    t.year == year && t.month == month
}

/// The position of the column of `f` among the header `names`.
pub open spec fn col(names: Seq<Option<Seq<char>>>, f: Field) -> int {
    column_index(names, field_name(f))->0
}

/// Every required field has a column when none is missing.
pub proof fn lemma_none_missing(names: Seq<Option<Seq<char>>>, required: Seq<Field>, k: int)
    requires
        first_missing(names, required) is None,
        0 <= k < required.len(),
    ensures
        column_index(names, field_name(required[k])) is Some,
    decreases required.len(),
{
    if k > 0 {
        assert(required.drop_first()[k - 1] == required[k]);
        lemma_none_missing(names, required.drop_first(), k - 1);
    }
}

/// The columns of a profile sheet that give a row's quarter-hour, and the
/// field that names its hour column.
#[derive(Clone, Copy, Debug)]
pub struct ProfileColumns {
    pub year: usize,
    pub month: usize,
    pub day: usize,
    pub hour: usize,
    pub minute: usize,
    pub hour_field: Field,
}

/// The quarter-hour of a profile row, or nothing where the row is of
/// another month: year and month are read first, and only the rows of the
/// asked month are read further.
pub open spec fn profile_timestamp(
    row: Seq<Cell>,
    c: ProfileColumns,
    year: u16,
    month: u8,
    n: usize,
) -> Result<Option<QuarterHour>, TariffError> {
    match integer_at(row, c.year as int, Field::Year, n, 65535) {
        Err(e) => Err(e),
        Ok(y) => match integer_at(row, c.month as int, Field::Month, n, 255) {
            Err(e) => Err(e),
            Ok(m) => if y != year || m != month {
                Ok(None)
            } else {
                match integer_at(row, c.day as int, Field::Day, n, 255) {
                    Err(e) => Err(e),
                    Ok(d) => match integer_at(row, c.hour as int, c.hour_field, n, 255) {
                        Err(e) => Err(e),
                        Ok(h) => match integer_at(row, c.minute as int, Field::Minute, n, 255) {
                            Err(e) => Err(e),
                            Ok(mi) => Ok(
                                Some(
                                    QuarterHour {
                                        year: y as u16,
                                        month: m as u8,
                                        day: d as u8,
                                        hour: h as u8,
                                        minute: mi as u8,
                                    },
                                ),
                            ),
                        },
                    },
                }
            },
        },
    }
}

/// A row's quarter-hour with the weight read for it; the weight only counts
/// for a row of the asked month.
pub open spec fn with_weight<W>(
    timestamp: Result<Option<QuarterHour>, TariffError>,
    weight: Result<W, TariffError>,
) -> Result<Option<(QuarterHour, W)>, TariffError> {
    match timestamp {
        Err(e) => Err(e),
        Ok(None) => Ok(None),
        Ok(Some(t)) => match weight {
            Err(e) => Err(e),
            Ok(w) => Ok(Some((t, w))),
        },
    }
}

fn profile_row_timestamp(row: &[Cell], c: ProfileColumns, year: u16, month: u8, n: usize) -> (r:
    Result<Option<QuarterHour>, TariffError>)
    ensures
        r == profile_timestamp(row@, c, year, month, n),
{
    let y = match cell_u16(row, c.year, Field::Year, n) {
        Ok(v) => v,
        Err(e) => {
            return Err(e);
        },
    };
    let m = match cell_u8(row, c.month, Field::Month, n) {
        Ok(v) => v,
        Err(e) => {
            return Err(e);
        },
    };
    if y != year || m != month {
        return Ok(None);
    }
    let d = match cell_u8(row, c.day, Field::Day, n) {
        Ok(v) => v,
        Err(e) => {
            return Err(e);
        },
    };
    let h = match cell_u8(row, c.hour, c.hour_field, n) {
        Ok(v) => v,
        Err(e) => {
            return Err(e);
        },
    };
    let mi = match cell_u8(row, c.minute, Field::Minute, n) {
        Ok(v) => v,
        Err(e) => {
            return Err(e);
        },
    };
    Ok(Some(QuarterHour { year: y, month: m, day: d, hour: h, minute: mi }))
}

/// The columns that the solar production sheet must have.
pub open spec fn spp_fields() -> Seq<Field> {
    seq![Field::Year, Field::Month, Field::Day, Field::Hour, Field::Minute, Field::SppExanteBe]
}

pub open spec fn spp_columns(names: Seq<Option<Seq<char>>>) -> ProfileColumns {
    ProfileColumns {
        year: col(names, Field::Year) as usize,
        month: col(names, Field::Month) as usize,
        day: col(names, Field::Day) as usize,
        hour: col(names, Field::Hour) as usize,
        minute: col(names, Field::Minute) as usize,
        hour_field: Field::Hour,
    }
}

pub open spec fn spp_reader(names: Seq<Option<Seq<char>>>, year: u16, month: u8) -> spec_fn(
    Seq<Cell>,
    usize,
) -> Result<Option<TimedReading>, TariffError> {
    |row: Seq<Cell>, n: usize|
        with_weight(
            profile_timestamp(row, spp_columns(names), year, month, n),
            reading_at(row, col(names, Field::SppExanteBe), Field::SppExanteBe, n),
        )
}

/// What the solar production sheet gives for a month: the header is the
/// first row; each later row of the month gives its quarter-hour and its
/// `SPPExanteBE` share.
pub open spec fn spp_sheet(rows: Seq<Vec<Cell>>, year: u16, month: u8) -> Result<
    Seq<TimedReading>,
    TariffError,
> {
    if rows.len() == 0 {
        Err(TariffError::MissingHeaderRow)
    } else {
        let names = header_names(rows[0]@);
        match first_missing(names, spp_fields()) {
            Some(f) => Err(TariffError::MissingColumn(f)),
            None => read_rows(rows, 1, rows.len(), spp_reader(names, year, month)),
        }
    }
}

/// The column of a field that the header is known to have.
fn known_column(columns: &Columns, field: Field) -> (r: usize)
    requires
        column_index(columns@, field_name(field)) is Some,
    ensures
        r == col(columns@, field),
{
    match columns.get(field) {
        Ok(i) => i,
        Err(_) => 0,
    }
}

/// Reads the solar production profile of a month from the rows of its
/// sheet.
pub fn read_spp_records(rows: &[Vec<Cell>], year: u16, month: u8) -> (r: Result<
    Vec<SppRecord>,
    TariffError,
>)
    ensures
        match spp_sheet(rows@, year, month) {
            Ok(v) => r matches Ok(records) && weight_views(records@) == v,
            Err(e) => r == Err::<Vec<SppRecord>, TariffError>(e),
        },
        r matches Ok(records) ==> forall|k: int|
            0 <= k < records.len() ==> in_month(#[trigger] records@[k].timestamp, year, month),
{
    if rows.len() == 0 {
        return Err(TariffError::MissingHeaderRow);
    }
    let required = [
        Field::Year,
        Field::Month,
        Field::Day,
        Field::Hour,
        Field::Minute,
        Field::SppExanteBe,
    ];
    assert(required@ == spp_fields());
    let columns = match Columns::from_header(rows[0].as_slice(), &required) {
        Ok(c) => c,
        Err(e) => {
            return Err(e);
        },
    };
    let ghost names = header_names(rows@[0]@);
    proof {
        lemma_none_missing(names, spp_fields(), 0);
        lemma_none_missing(names, spp_fields(), 1);
        lemma_none_missing(names, spp_fields(), 2);
        lemma_none_missing(names, spp_fields(), 3);
        lemma_none_missing(names, spp_fields(), 4);
        lemma_none_missing(names, spp_fields(), 5);
    }
    let c = ProfileColumns {
        year: known_column(&columns, Field::Year),
        month: known_column(&columns, Field::Month),
        day: known_column(&columns, Field::Day),
        hour: known_column(&columns, Field::Hour),
        minute: known_column(&columns, Field::Minute),
        hour_field: Field::Hour,
    };
    let weight_col = known_column(&columns, Field::SppExanteBe);
    let ghost read = spp_reader(names, year, month);
    let mut records: Vec<SppRecord> = Vec::new();
    let mut i: usize = 1;
    assert(weight_views(records@) =~= Seq::<TimedReading>::empty());
    while i < rows.len()
        invariant
            1 <= i <= rows.len(),
            names == header_names(rows@[0]@),
            first_missing(names, spp_fields()) is None,
            c == spp_columns(names),
            weight_col == col(names, Field::SppExanteBe),
            read == spp_reader(names, year, month),
            read_rows(rows@, 1, i as nat, read) == Ok::<
                Seq<TimedReading>,
                TariffError,
            >(weight_views(records@)),
        decreases rows.len() - i,
    {
        let row = rows[i].as_slice();
        let n = i + 1;
        let step = match profile_row_timestamp(row, c, year, month, n) {
            Err(e) => Err(e),
            Ok(None) => Ok(None),
            Ok(Some(t)) => match cell_reading_at(row, weight_col, Field::SppExanteBe, n) {
                Err(e) => Err(e),
                Ok(w) => Ok(Some(SppRecord { timestamp: t, weight: w })),
            },
        };
        assert(read(rows@[i as int]@, n) == with_weight(
            profile_timestamp(rows@[i as int]@, c, year, month, n),
            reading_at(rows@[i as int]@, weight_col as int, Field::SppExanteBe, n),
        ));
        match step {
            Err(e) => {
                proof {
                    lemma_read_rows_stops(rows@, 1, (i + 1) as nat, rows@.len(), read);
                }
                return Err(e);
            },
            Ok(None) => {},
            Ok(Some(record)) => {
                let ghost before = records@;
                records.push(record);
                assert(weight_views(records@) =~= weight_views(before).push(
                    (record.timestamp, opt_view(record.weight)),
                ));
            },
        }
        i += 1;
    }
    proof {
        let p = |x: TimedReading| in_month(x.0, year, month);
        assert forall|row: Seq<Cell>, k: usize| #[trigger] gives_only(read(row, k), p) by {}
        lemma_read_rows_all(rows@, 1, rows@.len(), read, p);
        let v = read_rows(rows@, 1, rows@.len(), read)->Ok_0;
        assert(v == weight_views(records@));
        assert forall|k: int| 0 <= k < records.len() implies in_month(#[trigger] records@[k].timestamp, year, month) by {
            assert(v[k].0 == records@[k].timestamp);
            assert(p(v[k]));
        }
    }
    Ok(records)
}

/// The columns `lo ..= hi`, in order.
pub open spec fn span(lo: int, hi: int) -> Seq<int> {
    Seq::new(
        if lo <= hi {
            (hi - lo + 1) as nat
        } else {
            0
        },
        |k: int| lo + k,
    )
}

/// The columns that inclusive ranges cover, range after range.
pub open spec fn range_columns(ranges: Seq<(usize, usize)>) -> Seq<int>
    decreases ranges.len(),
{
    if ranges.len() == 0 {
        Seq::empty()
    } else {
        range_columns(ranges.drop_last()) + span(ranges.last().0 as int, ranges.last().1 as int)
    }
}

/// Adding up the weights in the columns of a row, in order and from zero,
/// as the decimal arithmetic adds them: the sum (`None` once a weight is
/// `None` or the sum overflows) and the number of cells, or the first cell
/// that cannot be read.
pub open spec fn sum_cells(row: Seq<Cell>, cols: Seq<int>, field: Field, n: usize) -> Result<
    (Option<(int, nat)>, nat),
    TariffError,
>
    decreases cols.len(),
{
    if cols.len() == 0 {
        Ok((Some(zero_repr()), 0))
    } else {
        match sum_cells(row, cols.drop_last(), field, n) {
            Err(e) => Err(e),
            Ok(acc) => match reading_at(row, cols.last(), field, n) {
                Err(e) => Err(e),
                Ok(v) => Ok((opt_sum(acc.0, v), acc.1 + 1)),
            },
        }
    }
}

/// The average of the weights in the columns of a row: their sum divided by
/// their count; refused where there are no columns.
pub open spec fn average_outcome(row: Seq<Cell>, cols: Seq<int>, field: Field, n: usize) -> Result<
    Option<(int, nat)>,
    TariffError,
> {
    match sum_cells(row, cols, field, n) {
        Err(e) => Err(e),
        Ok(acc) => if acc.1 == 0 {
            Err(TariffError::EmptyAverage { row: n })
        } else {
            Ok(opt_quotient(acc.0, (acc.1 as int, 0nat)))
        },
    }
}

/// A refusal while adding up the first columns is the refusal of the whole
/// sum.
proof fn lemma_sum_cells_stops(row: Seq<Cell>, cols: Seq<int>, k: int, field: Field, n: usize)
    requires
        0 <= k <= cols.len(),
        sum_cells(row, cols.take(k), field, n) is Err,
    ensures
        sum_cells(row, cols, field, n) == sum_cells(row, cols.take(k), field, n),
    decreases cols.len() - k,
{
    if k == cols.len() {
        assert(cols.take(k) =~= cols);
    } else {
        assert(cols.drop_last().take(k) =~= cols.take(k));
        lemma_sum_cells_stops(row, cols.drop_last(), k, field, n);
    }
}

/// The columns of the first ranges come first among the columns of all.
proof fn lemma_range_columns_prefix(ranges: Seq<(usize, usize)>, k: int)
    requires
        0 <= k <= ranges.len(),
    ensures
        range_columns(ranges.take(k)).len() <= range_columns(ranges).len(),
        range_columns(ranges).take(range_columns(ranges.take(k)).len() as int) == range_columns(
            ranges.take(k),
        ),
    decreases ranges.len() - k,
{
    if k == ranges.len() {
        assert(ranges.take(k) =~= ranges);
        assert(range_columns(ranges).take(range_columns(ranges).len() as int) =~= range_columns(
            ranges,
        ));
    } else {
        lemma_range_columns_prefix(ranges.drop_last(), k);
        assert(ranges.drop_last().take(k) =~= ranges.take(k));
        let p = range_columns(ranges.take(k));
        let d = range_columns(ranges.drop_last());
        assert(range_columns(ranges) == d + span(ranges.last().0 as int, ranges.last().1 as int));
        assert(range_columns(ranges).take(p.len() as int) =~= d.take(p.len() as int));
    }
}

/// The average of the numbers in the columns that the inclusive `ranges`
/// cover, in order.
fn average_cell_ranges(row: &[Cell], ranges: &[(usize, usize)], field: Field, n: usize) -> (r:
    Result<Option<Dec>, TariffError>)
    requires
        range_columns(ranges@).len() <= usize::MAX,
    ensures
        match average_outcome(row@, range_columns(ranges@), field, n) {
            Ok(v) => r matches Ok(d) && opt_view(d) == v,
            Err(e) => r == Err::<Option<Dec>, TariffError>(e),
        },
{
    let ghost all = range_columns(ranges@);
    let mut sum = Some(Dec::zero());
    let mut count: usize = 0;
    let mut k: usize = 0;
    assert(ranges@.take(0) =~= Seq::<(usize, usize)>::empty());
    while k < ranges.len()
        invariant
            k <= ranges.len(),
            all == range_columns(ranges@),
            all.len() <= usize::MAX,
            sum_cells(row@, range_columns(ranges@.take(k as int)), field, n) == Ok::<
                (Option<(int, nat)>, nat),
                TariffError,
            >((opt_view(sum), count as nat)),
            count == range_columns(ranges@.take(k as int)).len(),
        decreases ranges.len() - k,
    {
        let (lo, hi) = ranges[k];
        let ghost done = range_columns(ranges@.take(k as int));
        let ghost next = range_columns(ranges@.take(k + 1));
        let ghost whole = span(lo as int, hi as int);
        proof {
            assert(ranges@.take(k + 1).drop_last() =~= ranges@.take(k as int));
            assert(next == done + whole);
            lemma_range_columns_prefix(ranges@, k + 1);
        }
        if lo <= hi {
            let len = hi - lo + 1;
            let mut j: usize = 0;
            assert(done + whole.take(0) =~= done);
            while j < len
                invariant
                    lo <= hi,
                    len == hi - lo + 1,
                    j <= len,
                    whole == span(lo as int, hi as int),
                    next == done + whole,
                    all == range_columns(ranges@),
                    next.len() <= all.len() <= usize::MAX,
                    all.take(next.len() as int) == next,
                    done.len() == count - j,
                    sum_cells(row@, done + whole.take(j as int), field, n) == Ok::<
                        (Option<(int, nat)>, nat),
                        TariffError,
                    >((opt_view(sum), count as nat)),
                decreases len - j,
            {
                let c = lo + j;
                let ghost before = done + whole.take(j as int);
                let ghost after = done + whole.take(j + 1);
                assert(after.drop_last() =~= before);
                assert(after.last() == c);
                assert(after =~= all.take(after.len() as int));
                let value = match cell_reading_at(row, c, field, n) {
                    Ok(v) => v,
                    Err(e) => {
                        proof {
                            lemma_sum_cells_stops(row@, all, after.len() as int, field, n);
                        }
                        return Err(e);
                    },
                };
                sum = add_opt(sum, value);
                count = count + 1;
                j += 1;
            }
            assert(whole.take(len as int) =~= whole);
        } else {
            assert(next =~= done);
        }
        k += 1;
    }
    assert(ranges@.take(ranges.len() as int) =~= ranges@);
    if count == 0 {
        return Err(TariffError::EmptyAverage { row: n });
    }
    Ok(div_opt(sum, Dec::from_count(count)))
}

/// The average of the numbers in columns `first ..= last` of a row.
pub fn average_cells(row: &[Cell], first: usize, last: usize, field: Field, n: usize) -> (r: Result<
    Option<Dec>,
    TariffError,
>)
    requires
        range_columns(seq![(first, last)]).len() <= usize::MAX,
    ensures
        match average_outcome(row@, range_columns(seq![(first, last)]), field, n) {
            Ok(v) => r matches Ok(d) && opt_view(d) == v,
            Err(e) => r == Err::<Option<Dec>, TariffError>(e),
        },
{
    let ranges = [(first, last)];
    assert(ranges@ == seq![(first, last)]);
    average_cell_ranges(row, &ranges, field, n)
}

/// The Fluvius columns of the load profile sheet.
pub open spec fn fluvius_ranges() -> Seq<(usize, usize)> {
    seq![(7usize, 14usize)]
}

/// The columns of the Walloon operators.
pub open spec fn wallonia_ranges() -> Seq<(usize, usize)> {
    seq![(15usize, 23usize), (26usize, 28usize)]
}

/// The Sibelga columns.
pub open spec fn sibelga_ranges() -> Seq<(usize, usize)> {
    seq![(24usize, 25usize)]
}

/// The weight of a row that counts the three regions equally: the average
/// of the Fluvius, Walloon and Sibelga averages.
pub open spec fn regions_weight(row: Seq<Cell>, n: usize) -> Result<Option<(int, nat)>, TariffError> {
    match average_outcome(row, range_columns(fluvius_ranges()), Field::RlpFluvius, n) {
        Err(e) => Err(e),
        Ok(f) => match average_outcome(row, range_columns(wallonia_ranges()), Field::RlpWallonia, n) {
            Err(e) => Err(e),
            Ok(w) => match average_outcome(row, range_columns(sibelga_ranges()), Field::RlpSibelga, n) {
                Err(e) => Err(e),
                Ok(s) => Ok(opt_quotient(opt_sum(opt_sum(f, w), s), (3, 0nat))),
            },
        },
    }
}

proof fn lemma_region_ranges()
    ensures
        range_columns(fluvius_ranges()).len() == 8,
        range_columns(wallonia_ranges()).len() == 12,
        range_columns(sibelga_ranges()).len() == 2,
{
    reveal_with_fuel(range_columns, 3);
    assert(fluvius_ranges().drop_last() =~= Seq::<(usize, usize)>::empty());
    assert(wallonia_ranges().drop_last().drop_last() =~= Seq::<(usize, usize)>::empty());
    assert(sibelga_ranges().drop_last() =~= Seq::<(usize, usize)>::empty());
}

/// The weight of a load profile row that counts the three regions equally.
pub fn rlp_eneco_weight(row: &[Cell], row_number: usize) -> (r: Result<Option<Dec>, TariffError>)
    ensures
        match regions_weight(row@, row_number) {
            Ok(v) => r matches Ok(d) && opt_view(d) == v,
            Err(e) => r == Err::<Option<Dec>, TariffError>(e),
        },
{
    proof {
        lemma_region_ranges();
    }
    let fluvius_columns = [(7usize, 14usize)];
    let wallonia_columns = [(15usize, 23usize), (26usize, 28usize)];
    let sibelga_columns = [(24usize, 25usize)];
    assert(fluvius_columns@ == fluvius_ranges());
    assert(wallonia_columns@ == wallonia_ranges());
    assert(sibelga_columns@ == sibelga_ranges());
    let fluvius = match average_cell_ranges(row, &fluvius_columns, Field::RlpFluvius, row_number) {
        Ok(v) => v,
        Err(e) => {
            return Err(e);
        },
    };
    let wallonia = match average_cell_ranges(
        row,
        &wallonia_columns,
        Field::RlpWallonia,
        row_number,
    ) {
        Ok(v) => v,
        Err(e) => {
            return Err(e);
        },
    };
    let sibelga = match average_cell_ranges(row, &sibelga_columns, Field::RlpSibelga, row_number) {
        Ok(v) => v,
        Err(e) => {
            return Err(e);
        },
    };
    let total = add_opt(add_opt(fluvius, wallonia), sibelga);
    Ok(div_opt(total, Dec::new(3, 0)))
}

/// How a load profile row is weighted.
#[derive(Clone, Copy, Debug)]
pub enum LoadWeighting {
    /// The average of columns `first ..= last`, reported as `label`.
    Columns { first: usize, last: usize, label: Field },
    /// The three regions counted equally.
    Regions,
}

pub open spec fn load_weighting_ok(w: LoadWeighting) -> bool {
    match w {
        LoadWeighting::Columns { first, last, .. } => range_columns(seq![(first, last)]).len()
            <= usize::MAX,
        LoadWeighting::Regions => true,
    }
}

/// The weight of a load profile row.
pub open spec fn load_weight(row: Seq<Cell>, n: usize, w: LoadWeighting) -> Result<
    Option<(int, nat)>,
    TariffError,
> {
    match w {
        LoadWeighting::Columns { first, last, label } => average_outcome(
            row,
            range_columns(seq![(first, last)]),
            label,
            n,
        ),
        LoadWeighting::Regions => regions_weight(row, n),
    }
}

/// The columns that the load profile sheet must have.
pub open spec fn rlp_fields() -> Seq<Field> {
    seq![Field::Year, Field::Month, Field::Day, Field::LoadHour, Field::Minute]
}

pub open spec fn rlp_columns(names: Seq<Option<Seq<char>>>) -> ProfileColumns {
    ProfileColumns {
        year: col(names, Field::Year) as usize,
        month: col(names, Field::Month) as usize,
        day: col(names, Field::Day) as usize,
        hour: col(names, Field::LoadHour) as usize,
        minute: col(names, Field::Minute) as usize,
        hour_field: Field::LoadHour,
    }
}

pub open spec fn rlp_reader(
    names: Seq<Option<Seq<char>>>,
    year: u16,
    month: u8,
    w: LoadWeighting,
) -> spec_fn(Seq<Cell>, usize) -> Result<Option<TimedReading>, TariffError> {
    |row: Seq<Cell>, n: usize|
        with_weight(
            profile_timestamp(row, rlp_columns(names), year, month, n),
            load_weight(row, n, w),
        )
}

/// What the load profile sheet gives for a month: the header is the third
/// row; each later row of the month gives its quarter-hour and its weight.
pub open spec fn rlp_sheet(rows: Seq<Vec<Cell>>, year: u16, month: u8, w: LoadWeighting) -> Result<
    Seq<TimedReading>,
    TariffError,
> {
    if rows.len() < 3 {
        Err(TariffError::MissingHeaderRow)
    } else {
        let names = header_names(rows[2]@);
        match first_missing(names, rlp_fields()) {
            Some(f) => Err(TariffError::MissingColumn(f)),
            None => read_rows(rows, 3, rows.len(), rlp_reader(names, year, month, w)),
        }
    }
}

/// Row `row` (number `n`) of a profile sheet states quarter-hour `t`: its
/// year, month, day, hour and minute cells read as `t`'s.
pub open spec fn row_states_time(row: Seq<Cell>, c: ProfileColumns, n: usize, t: QuarterHour) -> bool {
    &&& integer_at(row, c.year as int, Field::Year, n, 65535) == Ok::<int, TariffError>(
        t.year as int,
    )
    &&& integer_at(row, c.month as int, Field::Month, n, 255) == Ok::<int, TariffError>(
        t.month as int,
    )
    &&& integer_at(row, c.day as int, Field::Day, n, 255) == Ok::<int, TariffError>(t.day as int)
    &&& integer_at(row, c.hour as int, c.hour_field, n, 255) == Ok::<int, TariffError>(
        t.hour as int,
    )
    &&& integer_at(row, c.minute as int, Field::Minute, n, 255) == Ok::<int, TariffError>(
        t.minute as int,
    )
}

/// What `integer_at` reads is a number from 0 to `max`.
proof fn lemma_integer_at_range(row: Seq<Cell>, index: int, field: Field, n: usize, max: int)
    ensures
        integer_at(row, index, field, n, max) matches Ok(v) ==> 0 <= v <= max,
{
    if 0 <= index < row.len() {
        match cell_number(row[index]) {
            Ok(r) => {
                lemma_pow10_positive(r.1);
                if r.0 >= 0 {
                    assert(r.0 / pow10(r.1) >= 0) by (nonlinear_arith)
                        requires
                            r.0 >= 0,
                            pow10(r.1) > 0,
                    ;
                }
            },
            Err(_) => {},
        }
    }
}

/// A profile row gives a quarter-hour only where its year and month cells
/// read as the asked year and month; then the quarter-hour is the one its
/// cells state. A row whose year or month cell reads otherwise gives
/// nothing.
pub proof fn law_profile_row_of_month(row: Seq<Cell>, c: ProfileColumns, year: u16, month: u8, n: usize)
    ensures
        profile_timestamp(row, c, year, month, n) matches Ok(Some(t)) ==> t.year == year && t.month
            == month && row_states_time(row, c, n, t),
        (integer_at(row, c.year as int, Field::Year, n, 65535) matches Ok(y) && integer_at(
            row,
            c.month as int,
            Field::Month,
            n,
            255,
        ) matches Ok(m) && (y != year || m != month)) ==> profile_timestamp(row, c, year, month, n)
            == Ok::<Option<QuarterHour>, TariffError>(None),
{
    lemma_integer_at_range(row, c.year as int, Field::Year, n, 65535);
    lemma_integer_at_range(row, c.month as int, Field::Month, n, 255);
    lemma_integer_at_range(row, c.day as int, Field::Day, n, 255);
    lemma_integer_at_range(row, c.hour as int, c.hour_field, n, 255);
    lemma_integer_at_range(row, c.minute as int, Field::Minute, n, 255);
}

/// Every weight read from the solar production sheet for a month is stated
/// by a row of the sheet: a row whose cells read as a quarter-hour of that
/// month and year, with the row's `SPPExanteBE` reading.
pub proof fn law_spp_weights_stated_by_rows(rows: Seq<Vec<Cell>>, year: u16, month: u8)
    ensures
        spp_sheet(rows, year, month) matches Ok(v) ==> forall|k: int|
            0 <= k < v.len() ==> {
                let names = header_names(rows[0]@);
                &&& (#[trigger] v[k]).0.year == year
                &&& v[k].0.month == month
                &&& exists|i: int|
                    0 <= i < rows.len() && row_states_time(
                        rows[i]@,
                        spp_columns(names),
                        (i + 1) as usize,
                        v[k].0,
                    ) && reading_at(
                        rows[i]@,
                        col(names, Field::SppExanteBe),
                        Field::SppExanteBe,
                        (i + 1) as usize,
                    ) == Ok::<Option<(int, nat)>, TariffError>(v[k].1)
            },
{
    if rows.len() > 0 {
        let names = header_names(rows[0]@);
        if first_missing(names, spp_fields()) is None {
            let read = spp_reader(names, year, month);
            lemma_read_rows_from_rows(rows, 1, rows.len(), read);
            if spp_sheet(rows, year, month) is Ok {
                let v = spp_sheet(rows, year, month)->Ok_0;
                assert forall|k: int| 0 <= k < v.len() implies {
                    &&& (#[trigger] v[k]).0.year == year
                    &&& v[k].0.month == month
                    &&& exists|i: int|
                        0 <= i < rows.len() && row_states_time(
                            rows[i]@,
                            spp_columns(names),
                            (i + 1) as usize,
                            v[k].0,
                        ) && reading_at(
                            rows[i]@,
                            col(names, Field::SppExanteBe),
                            Field::SppExanteBe,
                            (i + 1) as usize,
                        ) == Ok::<Option<(int, nat)>, TariffError>(v[k].1)
                } by {
                    let j = choose|j: int|
                        1 <= j < rows.len() && #[trigger] read(rows[j]@, (j + 1) as usize) == Ok::<
                            Option<TimedReading>,
                            TariffError,
                        >(Some(v[k]));
                    law_profile_row_of_month(
                        rows[j]@,
                        spp_columns(names),
                        year,
                        month,
                        (j + 1) as usize,
                    );
                }
            }
        }
    }
}

/// Every weight read from a load profile sheet for a month is stated by a
/// row of the sheet: a row whose cells read as a quarter-hour of that month
/// and year, weighted as `w` says.
pub proof fn law_load_weights_stated_by_rows(
    rows: Seq<Vec<Cell>>,
    year: u16,
    month: u8,
    w: LoadWeighting,
)
    ensures
        rlp_sheet(rows, year, month, w) matches Ok(v) ==> forall|k: int|
            0 <= k < v.len() ==> {
                let names = header_names(rows[2]@);
                &&& (#[trigger] v[k]).0.year == year
                &&& v[k].0.month == month
                &&& exists|i: int|
                    0 <= i < rows.len() && row_states_time(
                        rows[i]@,
                        rlp_columns(names),
                        (i + 1) as usize,
                        v[k].0,
                    ) && load_weight(rows[i]@, (i + 1) as usize, w) == Ok::<
                        Option<(int, nat)>,
                        TariffError,
                    >(v[k].1)
            },
{
    if rows.len() >= 3 {
        let names = header_names(rows[2]@);
        if first_missing(names, rlp_fields()) is None {
            let read = rlp_reader(names, year, month, w);
            lemma_read_rows_from_rows(rows, 3, rows.len(), read);
            if rlp_sheet(rows, year, month, w) is Ok {
                let v = rlp_sheet(rows, year, month, w)->Ok_0;
                assert forall|k: int| 0 <= k < v.len() implies {
                    &&& (#[trigger] v[k]).0.year == year
                    &&& v[k].0.month == month
                    &&& exists|i: int|
                        0 <= i < rows.len() && row_states_time(
                            rows[i]@,
                            rlp_columns(names),
                            (i + 1) as usize,
                            v[k].0,
                        ) && load_weight(rows[i]@, (i + 1) as usize, w) == Ok::<
                            Option<(int, nat)>,
                            TariffError,
                        >(v[k].1)
                } by {
                    let j = choose|j: int|
                        3 <= j < rows.len() && #[trigger] read(rows[j]@, (j + 1) as usize) == Ok::<
                            Option<TimedReading>,
                            TariffError,
                        >(Some(v[k]));
                    law_profile_row_of_month(
                        rows[j]@,
                        rlp_columns(names),
                        year,
                        month,
                        (j + 1) as usize,
                    );
                }
            }
        }
    }
}

fn row_load_weight(row: &[Cell], n: usize, w: LoadWeighting) -> (r: Result<
    Option<Dec>,
    TariffError,
>)
    requires
        load_weighting_ok(w),
    ensures
        match load_weight(row@, n, w) {
            Ok(v) => r matches Ok(d) && opt_view(d) == v,
            Err(e) => r == Err::<Option<Dec>, TariffError>(e),
        },
{
    match w {
        LoadWeighting::Columns { first, last, label } => average_cells(row, first, last, label, n),
        LoadWeighting::Regions => rlp_eneco_weight(row, n),
    }
}

/// Reads a load profile of a month from the rows of its sheet, each row
/// weighted as `w` says.
pub fn read_load_profile(rows: &[Vec<Cell>], year: u16, month: u8, w: LoadWeighting) -> (r:
    Result<Vec<SppRecord>, TariffError>)
    requires
        load_weighting_ok(w),
    ensures
        match rlp_sheet(rows@, year, month, w) {
            Ok(v) => r matches Ok(records) && weight_views(records@) == v,
            Err(e) => r == Err::<Vec<SppRecord>, TariffError>(e),
        },
        r matches Ok(records) ==> forall|k: int|
            0 <= k < records.len() ==> in_month(#[trigger] records@[k].timestamp, year, month),
{
    if rows.len() < 3 {
        return Err(TariffError::MissingHeaderRow);
    }
    let required = [Field::Year, Field::Month, Field::Day, Field::LoadHour, Field::Minute];
    assert(required@ == rlp_fields());
    let columns = match Columns::from_header(rows[2].as_slice(), &required) {
        Ok(c) => c,
        Err(e) => {
            return Err(e);
        },
    };
    let ghost names = header_names(rows@[2]@);
    proof {
        lemma_none_missing(names, rlp_fields(), 0);
        lemma_none_missing(names, rlp_fields(), 1);
        lemma_none_missing(names, rlp_fields(), 2);
        lemma_none_missing(names, rlp_fields(), 3);
        lemma_none_missing(names, rlp_fields(), 4);
    }
    let c = ProfileColumns {
        year: known_column(&columns, Field::Year),
        month: known_column(&columns, Field::Month),
        day: known_column(&columns, Field::Day),
        hour: known_column(&columns, Field::LoadHour),
        minute: known_column(&columns, Field::Minute),
        hour_field: Field::LoadHour,
    };
    let ghost read = rlp_reader(names, year, month, w);
    let mut records: Vec<SppRecord> = Vec::new();
    let mut i: usize = 3;
    assert(weight_views(records@) =~= Seq::<TimedReading>::empty());
    while i < rows.len()
        invariant
            3 <= i <= rows.len(),
            load_weighting_ok(w),
            names == header_names(rows@[2]@),
            first_missing(names, rlp_fields()) is None,
            c == rlp_columns(names),
            read == rlp_reader(names, year, month, w),
            read_rows(rows@, 3, i as nat, read) == Ok::<
                Seq<TimedReading>,
                TariffError,
            >(weight_views(records@)),
        decreases rows.len() - i,
    {
        let row = rows[i].as_slice();
        let n = i + 1;
        let step = match profile_row_timestamp(row, c, year, month, n) {
            Err(e) => Err(e),
            Ok(None) => Ok(None),
            Ok(Some(t)) => match row_load_weight(row, n, w) {
                Err(e) => Err(e),
                Ok(weight) => Ok(Some(SppRecord { timestamp: t, weight })),
            },
        };
        assert(read(rows@[i as int]@, n) == with_weight(
            profile_timestamp(rows@[i as int]@, c, year, month, n),
            load_weight(rows@[i as int]@, n, w),
        ));
        match step {
            Err(e) => {
                proof {
                    lemma_read_rows_stops(rows@, 3, (i + 1) as nat, rows@.len(), read);
                }
                return Err(e);
            },
            Ok(None) => {},
            Ok(Some(record)) => {
                let ghost before = records@;
                records.push(record);
                assert(weight_views(records@) =~= weight_views(before).push(
                    (record.timestamp, opt_view(record.weight)),
                ));
            },
        }
        i += 1;
    }
    proof {
        let p = |x: TimedReading| in_month(x.0, year, month);
        assert forall|row: Seq<Cell>, k: usize| #[trigger] gives_only(read(row, k), p) by {}
        lemma_read_rows_all(rows@, 3, rows@.len(), read, p);
        let v = read_rows(rows@, 3, rows@.len(), read)->Ok_0;
        assert(v == weight_views(records@));
        assert forall|k: int| 0 <= k < records.len() implies in_month(#[trigger] records@[k].timestamp, year, month) by {
            assert(v[k].0 == records@[k].timestamp);
            assert(p(v[k]));
        }
    }
    Ok(records)
}

/// Reads a load profile of a month, each row weighted by the average of its
/// columns `first ..= last`.
pub fn read_rlp_records(
    rows: &[Vec<Cell>],
    year: u16,
    month: u8,
    first: usize,
    last: usize,
    label: Field,
) -> (r: Result<Vec<SppRecord>, TariffError>)
    requires
        range_columns(seq![(first, last)]).len() <= usize::MAX,
    ensures
        match rlp_sheet(rows@, year, month, LoadWeighting::Columns { first, last, label }) {
            Ok(v) => r matches Ok(records) && weight_views(records@) == v,
            Err(e) => r == Err::<Vec<SppRecord>, TariffError>(e),
        },
        r matches Ok(records) ==> forall|k: int|
            0 <= k < records.len() ==> in_month(#[trigger] records@[k].timestamp, year, month),
{
    read_load_profile(rows, year, month, LoadWeighting::Columns { first, last, label })
}

/// Reads a load profile of a month, each row weighted with the three regions
/// counted equally.
pub fn read_rlp_eneco_records(rows: &[Vec<Cell>], year: u16, month: u8) -> (r: Result<
    Vec<SppRecord>,
    TariffError,
>)
    ensures
        match rlp_sheet(rows@, year, month, LoadWeighting::Regions) {
            Ok(v) => r matches Ok(records) && weight_views(records@) == v,
            Err(e) => r == Err::<Vec<SppRecord>, TariffError>(e),
        },
        r matches Ok(records) ==> forall|k: int|
            0 <= k < records.len() ==> in_month(#[trigger] records@[k].timestamp, year, month),
{
    read_load_profile(rows, year, month, LoadWeighting::Regions)
}

/// A header row of the Belpex export: one of its cells reads `Date`.
pub open spec fn is_date_header(row: Seq<Cell>) -> bool {
    exists|k: int| 0 <= k < row.len() && #[trigger] cell_text(row[k]) == Some("Date"@)
}

/// The position of the first header row of the Belpex export.
pub open spec fn date_header_index(rows: Seq<Vec<Cell>>) -> Option<int>
    decreases rows.len(),
{
    if rows.len() == 0 {
        None
    } else {
        match date_header_index(rows.drop_last()) {
            Some(i) => Some(i),
            None => if is_date_header(rows.last()@) {
                Some(rows.len() - 1)
            } else {
                None
            },
        }
    }
}

/// The columns of the Belpex export.
#[derive(Clone, Copy, Debug)]
pub struct BelpexColumns {
    pub date: usize,
    pub time: usize,
    pub euro: usize,
}

/// Why a row of the Belpex export is refused: a cell that cannot be read (the
/// error itself), or the date or the time cell's text.
pub enum BelpexFailure {
    Other(TariffError),
    Date(DateProblem),
    Time(TimeProblem),
}

/// What a row of the Belpex export gives: nothing for a row without a date
/// or of another month; otherwise its quarter-hour and its price. The date
/// is read first, then the time, then the price. A refusal comes with the
/// row's number.
pub open spec fn belpex_row(
    row: Seq<Cell>,
    c: BelpexColumns,
    year: u16,
    month: u8,
    n: usize,
) -> Result<Option<TimedReading>, (usize, BelpexFailure)> {
    match text_at(row, c.date as int, Field::Date, n) {
        Err(e) => Err((n, BelpexFailure::Other(e))),
        Ok(date) => match belpex_date_outcome(date) {
            Err(p) => Err((n, BelpexFailure::Date(p))),
            Ok(None) => Ok(None),
            Ok(Some((d, m, y))) => if y != year || m != month {
                Ok(None)
            } else {
                match text_at(row, c.time as int, Field::Time, n) {
                    Err(e) => Err((n, BelpexFailure::Other(e))),
                    Ok(time) => match belpex_time_outcome(time) {
                        Err(p) => Err((n, BelpexFailure::Time(p))),
                        Ok((h, mi)) => match reading_at(row, c.euro as int, Field::Euro, n) {
                            Err(e) => Err((n, BelpexFailure::Other(e))),
                            Ok(price) => Ok(
                                Some(
                                    (
                                        QuarterHour {
                                            year: y,
                                            month: m,
                                            day: d,
                                            hour: h,
                                            minute: mi,
                                        },
                                        price,
                                    ),
                                ),
                            ),
                        },
                    },
                }
            },
        },
    }
}

pub open spec fn belpex_fields() -> Seq<Field> {
    seq![Field::Date, Field::Time, Field::Euro]
}

pub open spec fn belpex_columns(names: Seq<Option<Seq<char>>>) -> BelpexColumns {
    BelpexColumns {
        date: col(names, Field::Date) as usize,
        time: col(names, Field::Time) as usize,
        euro: col(names, Field::Euro) as usize,
    }
}

/// The header names of the Belpex export.
pub open spec fn belpex_names(rows: Seq<Vec<Cell>>) -> Seq<Option<Seq<char>>> {
    header_names(rows[date_header_index(rows)->0]@)
}

pub open spec fn belpex_reader(names: Seq<Option<Seq<char>>>, year: u16, month: u8) -> spec_fn(
    Seq<Cell>,
    usize,
) -> Result<Option<TimedReading>, (usize, BelpexFailure)> {
    |row: Seq<Cell>, n: usize| belpex_row(row, belpex_columns(names), year, month, n)
}

/// Row `row` (number `n`) of the Belpex export states price `x`: its date
/// reads as the day, month and year of `x`'s quarter-hour, its time as the
/// quarter-hour's hour and minute, and its `Euro` cell as `x`'s price.
pub open spec fn row_states_price(row: Seq<Cell>, c: BelpexColumns, n: usize, x: TimedReading) -> bool {
    &&& text_at(row, c.date as int, Field::Date, n) matches Ok(date) && belpex_date_outcome(date)
        == Ok::<Option<(u8, u8, u16)>, DateProblem>(Some((x.0.day, x.0.month, x.0.year)))
    &&& text_at(row, c.time as int, Field::Time, n) matches Ok(time) && belpex_time_outcome(time)
        == Ok::<(u8, u8), TimeProblem>((x.0.hour, x.0.minute))
    &&& reading_at(row, c.euro as int, Field::Euro, n) == Ok::<Option<(int, nat)>, TariffError>(
        x.1,
    )
}

/// A row of the Belpex export gives a price only where its date reads as a
/// day of the asked month and year; then it gives the price the row states,
/// at the quarter-hour the row states. A row whose date reads as a day of
/// another month or year gives nothing.
pub proof fn law_belpex_row_of_month(row: Seq<Cell>, c: BelpexColumns, year: u16, month: u8, n: usize)
    ensures
        belpex_row(row, c, year, month, n) matches Ok(Some(x)) ==> x.0.year == year && x.0.month
            == month && row_states_price(row, c, n, x),
        (text_at(row, c.date as int, Field::Date, n) matches Ok(date) && belpex_date_outcome(date)
            matches Ok(Some(dmy)) && (dmy.2 != year || dmy.1 != month)) ==> belpex_row(
            row,
            c,
            year,
            month,
            n,
        ) == Ok::<Option<TimedReading>, (usize, BelpexFailure)>(None),
{
}

/// Every price read from the Belpex export for a month is stated by a row of
/// the sheet: a row whose date reads as a day of that month and year, at the
/// row's time, with the row's price.
pub proof fn law_belpex_prices_stated_by_rows(rows: Seq<Vec<Cell>>, year: u16, month: u8)
    ensures
        belpex_sheet(rows, year, month) matches Ok(v) ==> forall|k: int|
            0 <= k < v.len() ==> {
                &&& (#[trigger] v[k]).0.year == year
                &&& v[k].0.month == month
                &&& exists|i: int|
                    0 <= i < rows.len() && row_states_price(
                        rows[i]@,
                        belpex_columns(belpex_names(rows)),
                        (i + 1) as usize,
                        v[k],
                    )
            },
{
    match date_header_index(rows) {
        Some(h) => {
            let names = header_names(rows[h]@);
            if first_missing(names, belpex_fields()) is None {
                let read = belpex_reader(names, year, month);
                lemma_read_rows_from_rows(rows, (h + 1) as nat, rows.len(), read);
                if belpex_sheet(rows, year, month) is Ok {
                    let v = belpex_sheet(rows, year, month)->Ok_0;
                    assert forall|k: int| 0 <= k < v.len() implies {
                        &&& (#[trigger] v[k]).0.year == year
                        &&& v[k].0.month == month
                        &&& exists|i: int|
                            0 <= i < rows.len() && row_states_price(
                                rows[i]@,
                                belpex_columns(belpex_names(rows)),
                                (i + 1) as usize,
                                v[k],
                            )
                    } by {
                        let j = choose|j: int|
                            h + 1 <= j < rows.len() && #[trigger] read(rows[j]@, (j + 1) as usize)
                                == Ok::<Option<TimedReading>, (usize, BelpexFailure)>(Some(v[k]));
                        law_belpex_row_of_month(
                            rows[j]@,
                            belpex_columns(names),
                            year,
                            month,
                            (j + 1) as usize,
                        );
                    }
                }
            }
        },
        None => {},
    }
}

/// What the Belpex export gives for a month: the header is the first row
/// with a `Date` cell; each later row of the month gives its quarter-hour
/// and its price.
pub open spec fn belpex_sheet(rows: Seq<Vec<Cell>>, year: u16, month: u8) -> Result<
    Seq<TimedReading>,
    (usize, BelpexFailure),
> {
    match date_header_index(rows) {
        None => Err((0, BelpexFailure::Other(TariffError::MissingHeaderRow))),
        Some(h) => {
            let names = header_names(rows[h]@);
            match first_missing(names, belpex_fields()) {
                Some(f) => Err((0, BelpexFailure::Other(TariffError::MissingColumn(f)))),
                None => read_rows(rows, (h + 1) as nat, rows.len(), belpex_reader(names, year, month)),
            }
        },
    }
}

/// `e` is the error that the refusal `failure` of the Belpex export
/// reports: the error itself, or an unreadable date or time with the text of
/// its cell.
pub open spec fn reports_belpex_failure(
    e: TariffError,
    failure: (usize, BelpexFailure),
    rows: Seq<Vec<Cell>>,
) -> bool {
    let row = rows[failure.0 - 1]@;
    let c = belpex_columns(belpex_names(rows));
    match failure.1 {
        BelpexFailure::Other(x) => e == x,
        BelpexFailure::Date(p) => match text_at(row, c.date as int, Field::Date, failure.0) {
            Ok(text) => e matches TariffError::InvalidBelpexDate { value, date_problem } && value@
                == text && date_problem == p,
            Err(_) => false,
        },
        BelpexFailure::Time(p) => match text_at(row, c.time as int, Field::Time, failure.0) {
            Ok(text) => e matches TariffError::InvalidBelpexTime { value, time_problem } && value@
                == text && time_problem == p,
            Err(_) => false,
        },
    }
}

/// Whether one of the cells of `row` reads `Date`.
fn has_date_cell(row: &[Cell]) -> (r: bool)
    ensures
        r == is_date_header(row@),
{
    let mut k: usize = 0;
    while k < row.len()
        invariant
            k <= row.len(),
            forall|j: int| 0 <= j < k ==> #[trigger] cell_text(row@[j]) != Some("Date"@),
        decreases row.len() - k,
    {
        let hit = match cell_string(&row[k]) {
            Some(text) => str_matches(text.as_str(), "Date"),
            None => false,
        };
        if hit {
            assert(cell_text(row@[k as int]) == Some("Date"@));
            return true;
        }
        k += 1;
    }
    false
}

/// The position of the first header row of the Belpex export.
fn find_date_header(rows: &[Vec<Cell>]) -> (r: Option<usize>)
    ensures
        match date_header_index(rows@) {
            Some(i) => r matches Some(k) && k as int == i,
            None => r is None,
        },
        r matches Some(i) ==> i < rows.len(),
{
    let mut i: usize = 0;
    assert(rows@.take(0) =~= Seq::<Vec<Cell>>::empty());
    while i < rows.len()
        invariant
            i <= rows.len(),
            date_header_index(rows@.take(i as int)) is None,
        decreases rows.len() - i,
    {
        assert(rows@.take(i + 1).drop_last() =~= rows@.take(i as int));
        if has_date_cell(rows[i].as_slice()) {
            proof {
                lemma_date_header_kept(rows@, i + 1);
            }
            return Some(i);
        }
        i += 1;
    }
    assert(rows@.take(i as int) =~= rows@);
    None
}

/// The first header row of a prefix of the rows is the first of all rows.
proof fn lemma_date_header_kept(rows: Seq<Vec<Cell>>, k: int)
    requires
        0 <= k <= rows.len(),
        date_header_index(rows.take(k)) is Some,
    ensures
        date_header_index(rows) == date_header_index(rows.take(k)),
    decreases rows.len() - k,
{
    if k == rows.len() {
        assert(rows.take(k) =~= rows);
    } else {
        assert(rows.drop_last().take(k) =~= rows.take(k));
        lemma_date_header_kept(rows.drop_last(), k);
    }
}

fn belpex_row_record(row: &[Cell], c: BelpexColumns, year: u16, month: u8, n: usize) -> (r: Result<
    Option<BelpexRecord>,
    TariffError,
>)
    ensures
        match belpex_row(row@, c, year, month, n) {
            Ok(None) => r == Ok::<Option<BelpexRecord>, TariffError>(None),
            Ok(Some(v)) => r matches Ok(Some(record)) && (record.timestamp, opt_view(
                record.euro_per_mwh,
            )) == v,
            Err((k, BelpexFailure::Other(x))) => k == n && r == Err::<
                Option<BelpexRecord>,
                TariffError,
            >(x),
            Err((k, BelpexFailure::Date(p))) => {
                &&& k == n
                &&& text_at(row@, c.date as int, Field::Date, n) is Ok
                &&& r matches Err(TariffError::InvalidBelpexDate { value, date_problem })
                &&& value@ == text_at(row@, c.date as int, Field::Date, n)->Ok_0
                &&& date_problem == p
            },
            Err((k, BelpexFailure::Time(p))) => {
                &&& k == n
                &&& text_at(row@, c.time as int, Field::Time, n) is Ok
                &&& r matches Err(TariffError::InvalidBelpexTime { value, time_problem })
                &&& value@ == text_at(row@, c.time as int, Field::Time, n)->Ok_0
                &&& time_problem == p
            },
        },
{
    let date = match cell_string_at(row, c.date, Field::Date, n) {
        Ok(t) => t,
        Err(e) => {
            return Err(e);
        },
    };
    let (day, row_month, row_year) = match parse_belpex_date(date.as_str()) {
        Ok(Some(dmy)) => dmy,
        Ok(None) => {
            return Ok(None);
        },
        Err(e) => {
            return Err(e);
        },
    };
    if row_year != year || row_month != month {
        return Ok(None);
    }
    let time = match cell_string_at(row, c.time, Field::Time, n) {
        Ok(t) => t,
        Err(e) => {
            return Err(e);
        },
    };
    let (hour, minute) = match parse_belpex_time(time.as_str()) {
        Ok(hm) => hm,
        Err(e) => {
            return Err(e);
        },
    };
    let price = match cell_reading_at(row, c.euro, Field::Euro, n) {
        Ok(p) => p,
        Err(e) => {
            return Err(e);
        },
    };
    Ok(
        Some(
            BelpexRecord {
                timestamp: QuarterHour { year: row_year, month: row_month, day, hour, minute },
                euro_per_mwh: price,
            },
        ),
    )
}

/// Reads the Belpex prices of a month from the rows of the export's sheet.
pub fn read_belpex_records(rows: &[Vec<Cell>], year: u16, month: u8) -> (r: Result<
    Vec<BelpexRecord>,
    TariffError,
>)
    ensures
        match belpex_sheet(rows@, year, month) {
            Ok(v) => r matches Ok(records) && price_views(records@) == v,
            Err(failure) => r matches Err(e) && reports_belpex_failure(e, failure, rows@),
        },
        r matches Ok(records) ==> forall|k: int|
            0 <= k < records.len() ==> in_month(#[trigger] records@[k].timestamp, year, month)
                && records@[k].timestamp.hour <= 23 && is_quarter_minute(
                records@[k].timestamp.minute as int,
            ),
{
    let h = match find_date_header(rows) {
        Some(h) => h,
        None => {
            return Err(TariffError::MissingHeaderRow);
        },
    };
    let required = [Field::Date, Field::Time, Field::Euro];
    assert(required@ == belpex_fields());
    let columns = match Columns::from_header(rows[h].as_slice(), &required) {
        Ok(c) => c,
        Err(e) => {
            return Err(e);
        },
    };
    let ghost names = header_names(rows@[h as int]@);
    proof {
        lemma_none_missing(names, belpex_fields(), 0);
        lemma_none_missing(names, belpex_fields(), 1);
        lemma_none_missing(names, belpex_fields(), 2);
    }
    let c = BelpexColumns {
        date: known_column(&columns, Field::Date),
        time: known_column(&columns, Field::Time),
        euro: known_column(&columns, Field::Euro),
    };
    let ghost read = belpex_reader(names, year, month);
    let mut records: Vec<BelpexRecord> = Vec::new();
    let mut i: usize = h + 1;
    assert(price_views(records@) =~= Seq::<TimedReading>::empty());
    while i < rows.len()
        invariant
            h + 1 <= i <= rows.len(),
            date_header_index(rows@) == Some(h as int),
            names == header_names(rows@[h as int]@),
            names == belpex_names(rows@),
            first_missing(names, belpex_fields()) is None,
            c == belpex_columns(names),
            read == belpex_reader(names, year, month),
            read_rows(rows@, (h + 1) as nat, i as nat, read) == Ok::<
                Seq<TimedReading>,
                (usize, BelpexFailure),
            >(price_views(records@)),
        decreases rows.len() - i,
    {
        let row = rows[i].as_slice();
        let n = i + 1;
        let step = belpex_row_record(row, c, year, month, n);
        assert(read(rows@[i as int]@, n) == belpex_row(rows@[i as int]@, c, year, month, n));
        match step {
            Err(e) => {
                proof {
                    lemma_read_rows_stops(rows@, (h + 1) as nat, (i + 1) as nat, rows@.len(), read);
                }
                return Err(e);
            },
            Ok(None) => {},
            Ok(Some(record)) => {
                let ghost before = records@;
                records.push(record);
                assert(price_views(records@) =~= price_views(before).push(
                    (record.timestamp, opt_view(record.euro_per_mwh)),
                ));
            },
        }
        i += 1;
    }
    proof {
        let p = |x: TimedReading|
            in_month(x.0, year, month) && x.0.hour <= 23 && is_quarter_minute(x.0.minute as int);
        assert forall|row: Seq<Cell>, k: usize| #[trigger] gives_only(read(row, k), p) by {
            let c = belpex_columns(names);
            match text_at(row, c.time as int, Field::Time, k) {
                Ok(time) => {
                    lemma_belpex_time_valid(time);
                },
                Err(_) => {},
            }
        }
        lemma_read_rows_all(rows@, (h + 1) as nat, rows@.len(), read, p);
        let v = read_rows(rows@, (h + 1) as nat, rows@.len(), read)->Ok_0;
        assert(v == price_views(records@));
        assert forall|k: int| 0 <= k < records.len() implies in_month(
            #[trigger] records@[k].timestamp,
            year,
            month,
        ) && records@[k].timestamp.hour <= 23 && is_quarter_minute(
            records@[k].timestamp.minute as int,
        ) by {
            assert(v[k].0 == records@[k].timestamp);
            assert(p(v[k]));
        }
    }
    Ok(records)
}

} // verus!
