use belgian_spot_tariff_calculator::calendar::QuarterHour;
use belgian_spot_tariff_calculator::error::{DateProblem, TariffError, TimeProblem};
use belgian_spot_tariff_calculator::sheet::{
    average_cells, cell_decimal, cell_string, cell_reading_at, cell_string_at, cell_u16, cell_u8, int_string,
    read_belpex_records, read_rlp_eneco_records, read_rlp_records, read_spp_records,
    rlp_eneco_weight, Cell, CellNumber, CellProblem, Columns, Field,
};
use belgian_spot_tariff_calculator::Dec;

fn float(value: i64, scale: u32) -> Cell {
    let d = Dec::new(value, scale);
    Cell::Float {
        text: format!("{}", value as f64 / 10f64.powi(scale as i32)),
        number: Some(d),
    }
}

fn whole(value: i64) -> Cell {
    float(value, 0)
}

fn text(value: &str) -> Cell {
    Cell::Text {
        text: value.to_owned(),
        number: CellNumber::NotANumber,
    }
}

fn as_f64(d: Dec) -> f64 {
    d.mantissa() as f64 / 10f64.powi(d.scale() as i32)
}

fn counting_row() -> Vec<Cell> {
    (0..32).map(whole).collect()
}

#[test]
fn averages_vl_rlp_columns() {
    let row = vec![
        Cell::Empty,
        Cell::Empty,
        Cell::Empty,
        Cell::Empty,
        Cell::Empty,
        Cell::Empty,
        Cell::Empty,
        whole(1),
        whole(2),
        whole(3),
        whole(4),
        whole(5),
        whole(6),
        whole(7),
        whole(8),
    ];

    assert_eq!(
        average_cells(&row, 7, 14, Field::VlRlp, 1).unwrap(),
        Some(Dec::new(45, 1))
    );
}

#[test]
fn averages_be_rlp_columns() {
    let row = counting_row();

    assert_eq!(
        average_cells(&row, 7, 28, Field::BeRlp, 1).unwrap(),
        Some(Dec::new(175, 1))
    );
}

#[test]
fn averages_eneco_rlp_regions_equally() {
    let row = counting_row();

    let result = rlp_eneco_weight(&row, 1).unwrap().unwrap();

    assert!((as_f64(result) - 18.666666666666668).abs() < 0.000001);
}

#[test]
fn averaging_reports_the_first_bad_cell() {
    let mut row = counting_row();
    row[9] = text("n/a");
    row[11] = Cell::Empty;

    assert!(matches!(
        average_cells(&row, 7, 14, Field::VlRlp, 5),
        Err(TariffError::Cell { field: Field::VlRlp, row: 5, problem: CellProblem::Invalid })
    ));
    assert!(matches!(
        average_cells(&row[..10], 7, 14, Field::VlRlp, 5),
        Err(TariffError::Cell { field: Field::VlRlp, row: 5, problem: CellProblem::Invalid })
    ));
    assert!(matches!(
        average_cells(&counting_row()[..10], 7, 14, Field::BeRlp, 6),
        Err(TariffError::Cell { field: Field::BeRlp, row: 6, problem: CellProblem::Missing })
    ));
    assert!(matches!(
        average_cells(&counting_row(), 14, 7, Field::BeRlp, 6),
        Err(TariffError::EmptyAverage { row: 6 })
    ));
}

#[test]
fn cells_read_as_text() {
    assert_eq!(cell_string(&text("  Date \t")), Some("Date".to_owned()));
    assert_eq!(cell_string(&whole(12)), Some("12".to_owned()));
    assert_eq!(cell_string(&Cell::Int(-42)), Some("-42".to_owned()));
    assert_eq!(cell_string(&Cell::Int(0)), Some("0".to_owned()));
    assert_eq!(cell_string(&Cell::Bool(true)), Some("true".to_owned()));
    assert_eq!(cell_string(&Cell::Bool(false)), Some("false".to_owned()));
    assert_eq!(
        cell_string(&Cell::Iso(" 2026-01-01T00:00:00 ".to_owned())),
        Some("2026-01-01T00:00:00".to_owned())
    );
    assert_eq!(
        cell_string(&Cell::DateTime(" 45000 ".to_owned())),
        Some(" 45000 ".to_owned())
    );
    assert_eq!(cell_string(&Cell::Empty), None);
    assert_eq!(cell_string(&Cell::Error), None);
}

#[test]
fn integers_are_written_as_to_string_writes_them() {
    for v in [0i64, 7, 10, 99, 100, 2026, -1, -305, i64::MAX, i64::MIN] {
        assert_eq!(int_string(v), v.to_string());
    }
}

#[test]
fn cells_read_as_numbers() {
    let row = vec![
        whole(2026),
        float(25, 1),
        Cell::Int(7),
        Cell::Text {
            text: " 3 ".to_owned(),
            number: CellNumber::Finite(Dec::new(3, 0)),
        },
        Cell::Float {
            text: "inf".to_owned(),
            number: None,
        },
        Cell::Bool(true),
        Cell::Int(300),
        Cell::Int(-1),
        Cell::Text {
            text: "NaN".to_owned(),
            number: CellNumber::NotFinite,
        },
    ];

    assert_eq!(cell_u16(&row, 0, Field::Year, 2).unwrap(), 2026);
    assert_eq!(cell_decimal(&row, 1, Field::Euro, 2).unwrap(), Dec::new(25, 1));
    assert_eq!(cell_u8(&row, 2, Field::Day, 2).unwrap(), 7);
    assert_eq!(cell_u8(&row, 3, Field::Day, 2).unwrap(), 3);
    assert!(matches!(
        cell_u8(&row, 1, Field::Day, 2),
        Err(TariffError::Cell { field: Field::Day, row: 2, problem: CellProblem::NotInteger })
    ));
    assert!(matches!(
        cell_decimal(&row, 4, Field::Euro, 2),
        Err(TariffError::Cell { problem: CellProblem::NotRepresentable, .. })
    ));
    assert!(matches!(
        cell_u8(&row, 4, Field::Hour, 2),
        Err(TariffError::Cell { problem: CellProblem::NotInteger, .. })
    ));
    assert!(matches!(
        cell_decimal(&row, 5, Field::Euro, 2),
        Err(TariffError::Cell { problem: CellProblem::Invalid, .. })
    ));
    assert!(matches!(
        cell_u8(&row, 6, Field::Minute, 2),
        Err(TariffError::Cell { problem: CellProblem::NotInteger, .. })
    ));
    assert!(matches!(
        cell_u8(&row, 7, Field::Minute, 2),
        Err(TariffError::Cell { problem: CellProblem::NotInteger, .. })
    ));
    assert!(matches!(
        cell_u8(&row, 8, Field::Minute, 2),
        Err(TariffError::Cell { problem: CellProblem::NotInteger, .. })
    ));
    assert!(matches!(
        cell_decimal(&row, 9, Field::Euro, 4),
        Err(TariffError::Cell { field: Field::Euro, row: 4, problem: CellProblem::Missing })
    ));
    assert_eq!(cell_string_at(&row, 0, Field::Date, 2).unwrap(), "2026");
    assert!(matches!(
        cell_string_at(&[Cell::Empty], 0, Field::Date, 3),
        Err(TariffError::Cell { field: Field::Date, row: 3, problem: CellProblem::NoText })
    ));
    assert!(matches!(
        cell_string_at(&[], 0, Field::Time, 3),
        Err(TariffError::Cell { field: Field::Time, row: 3, problem: CellProblem::NoText })
    ));
}

#[test]
fn columns_are_found_by_the_last_header_with_their_name() {
    let header = vec![
        text("Year"),
        text("Day"),
        Cell::Empty,
        text(" Year "),
        whole(5),
    ];
    let columns = Columns::from_header(&header, &[Field::Year, Field::Day]).unwrap();

    assert_eq!(columns.get(Field::Year).unwrap(), 3);
    assert_eq!(columns.get(Field::Day).unwrap(), 1);
    assert!(matches!(
        columns.get(Field::Month),
        Err(TariffError::MissingColumn(Field::Month))
    ));
    assert!(matches!(
        Columns::from_header(&header, &[Field::Year, Field::Minute, Field::Month]),
        Err(TariffError::MissingColumn(Field::Minute))
    ));
}

fn spp_header() -> Vec<Cell> {
    ["Year", "Month", "Day", "Hour", "Min", "SPPExanteBE"]
        .iter()
        .map(|name| text(name))
        .collect()
}

fn spp_row(year: i64, month: i64, day: i64, hour: i64, minute: i64, weight: Cell) -> Vec<Cell> {
    vec![
        whole(year),
        whole(month),
        whole(day),
        whole(hour),
        whole(minute),
        weight,
    ]
}

fn at(year: u16, month: u8, day: u8, hour: u8, minute: u8) -> QuarterHour {
    QuarterHour {
        year,
        month,
        day,
        hour,
        minute,
    }
}

#[test]
fn reads_the_solar_profile_of_a_month() {
    let rows = vec![
        spp_header(),
        spp_row(2026, 4, 30, 23, 45, float(5, 2)),
        spp_row(2026, 5, 1, 0, 0, float(125, 3)),
        spp_row(2026, 5, 1, 0, 15, Cell::Int(2)),
        spp_row(2025, 5, 1, 0, 30, text("whatever")),
    ];

    let records = read_spp_records(&rows, 2026, 5).unwrap();

    assert_eq!(records.len(), 2);
    assert_eq!(records[0].timestamp, at(2026, 5, 1, 0, 0));
    assert_eq!(records[0].weight, Some(Dec::new(125, 3)));
    assert_eq!(records[1].timestamp, at(2026, 5, 1, 0, 15));
    assert_eq!(records[1].weight, Some(Dec::new(2, 0)));
}

#[test]
fn solar_profile_problems_are_reported() {
    assert!(matches!(
        read_spp_records(&[], 2026, 5),
        Err(TariffError::MissingHeaderRow)
    ));
    let mut header = spp_header();
    header.remove(4);
    assert!(matches!(
        read_spp_records(&[header], 2026, 5),
        Err(TariffError::MissingColumn(Field::Minute))
    ));
    let rows = vec![
        spp_header(),
        spp_row(2026, 5, 1, 0, 0, float(1, 0)),
        spp_row(2026, 5, 1, 0, 15, text("n/a")),
    ];
    assert!(matches!(
        read_spp_records(&rows, 2026, 5),
        Err(TariffError::Cell { field: Field::SppExanteBe, row: 3, problem: CellProblem::Invalid })
    ));
    let rows = vec![spp_header(), spp_row(2026, 13, 1, 0, 0, float(1, 0)), vec![text("x")]];
    assert!(matches!(
        read_spp_records(&rows, 2026, 5),
        Err(TariffError::Cell { field: Field::Year, row: 3, problem: CellProblem::Invalid })
    ));
}

fn rlp_rows() -> Vec<Vec<Cell>> {
    let mut header: Vec<Cell> = ["Year", "Month", "Day", "h", "Min"]
        .iter()
        .map(|name| text(name))
        .collect();
    header.extend((5..32).map(|_| Cell::Empty));
    let mut first: Vec<Cell> = vec![whole(2026), whole(5), whole(2), whole(3), whole(15)];
    first.extend((5..32).map(whole));
    let mut other: Vec<Cell> = vec![whole(2026), whole(6), whole(2), whole(3), whole(15)];
    other.extend((5..32).map(|_| Cell::Empty));
    vec![vec![text("title")], vec![], header, first, other]
}

#[test]
fn reads_load_profiles_with_their_weighting() {
    let rows = rlp_rows();

    let flanders = read_rlp_records(&rows, 2026, 5, 7, 14, Field::VlRlp).unwrap();
    let belgium = read_rlp_records(&rows, 2026, 5, 7, 28, Field::BeRlp).unwrap();
    let regions = read_rlp_eneco_records(&rows, 2026, 5).unwrap();

    assert_eq!(flanders.len(), 1);
    assert_eq!(flanders[0].timestamp, at(2026, 5, 2, 3, 15));
    assert_eq!(flanders[0].weight, Some(Dec::new(105, 1)));
    assert_eq!(belgium[0].weight, Some(Dec::new(175, 1)));
    assert!((as_f64(regions[0].weight.unwrap()) - 18.666666666666668).abs() < 0.000001);
    assert!(matches!(
        read_rlp_records(&rows[..2], 2026, 5, 7, 14, Field::VlRlp),
        Err(TariffError::MissingHeaderRow)
    ));
    assert!(matches!(
        read_rlp_records(&rows, 2026, 6, 7, 14, Field::VlRlp),
        Err(TariffError::Cell { field: Field::VlRlp, row: 5, problem: CellProblem::Invalid })
    ));
}

fn belpex_rows() -> Vec<Vec<Cell>> {
    vec![
        vec![text("Quarter-hourly Belpex")],
        vec![text("Date"), text("Time"), text("Euro")],
        vec![text("01/05/2026"), text("0u00"), float(305, 1)],
        vec![text(""), text("junk"), text("junk")],
        vec![text("30/04/2026"), text("junk"), text("junk")],
        vec![text("01/05/2026"), text(" 23u45 "), Cell::Int(-5)],
    ]
}

#[test]
fn reads_the_belpex_prices_of_a_month() {
    let records = read_belpex_records(&belpex_rows(), 2026, 5).unwrap();

    assert_eq!(records.len(), 2);
    assert_eq!(records[0].timestamp, at(2026, 5, 1, 0, 0));
    assert_eq!(records[0].euro_per_mwh, Some(Dec::new(305, 1)));
    assert_eq!(records[1].timestamp, at(2026, 5, 1, 23, 45));
    assert_eq!(records[1].euro_per_mwh, Some(Dec::new(-5, 0)));
}

#[test]
fn belpex_problems_are_reported() {
    assert!(matches!(
        read_belpex_records(&belpex_rows()[..1], 2026, 5),
        Err(TariffError::MissingHeaderRow)
    ));
    let rows = vec![vec![text("Date"), text("Euro")]];
    assert!(matches!(
        read_belpex_records(&rows, 2026, 5),
        Err(TariffError::MissingColumn(Field::Time))
    ));
    let mut rows = belpex_rows();
    rows.push(vec![text("01/05/2026"), text("7:15"), whole(1)]);
    match read_belpex_records(&rows, 2026, 5) {
        Err(TariffError::InvalidBelpexTime {
            value,
            time_problem,
        }) => {
            assert_eq!(value, "7:15");
            assert_eq!(time_problem, TimeProblem::MissingSeparator);
        }
        other => panic!("unexpected {other:?}"),
    }
    let mut rows = belpex_rows();
    rows.push(vec![text("1-5-2026"), text("7u15"), whole(1)]);
    match read_belpex_records(&rows, 2026, 5) {
        Err(TariffError::InvalidBelpexDate {
            value,
            date_problem,
        }) => {
            assert_eq!(value, "1-5-2026");
            assert_eq!(date_problem, DateProblem::WrongShape);
        }
        other => panic!("unexpected {other:?}"),
    }
    let mut rows = belpex_rows();
    rows.push(vec![text("02/05/2026"), text("7u15")]);
    assert!(matches!(
        read_belpex_records(&rows, 2026, 5),
        Err(TariffError::Cell { field: Field::Euro, row: 7, problem: CellProblem::Missing })
    ));
}

fn infinite() -> Cell {
    Cell::Float {
        text: "inf".to_owned(),
        number: None,
    }
}

#[test]
fn weights_that_no_decimal_holds_are_read_as_none() {
    let row = vec![
        infinite(),
        Cell::Text {
            text: "NaN".to_owned(),
            number: CellNumber::NotFinite,
        },
        float(15, 1),
        text("n/a"),
    ];
    assert_eq!(cell_reading_at(&row, 0, Field::SppExanteBe, 2).unwrap(), None);
    assert_eq!(cell_reading_at(&row, 1, Field::SppExanteBe, 2).unwrap(), None);
    assert_eq!(cell_reading_at(&row, 2, Field::SppExanteBe, 2).unwrap(), Some(Dec::new(15, 1)));
    assert!(matches!(
        cell_reading_at(&row, 3, Field::SppExanteBe, 2),
        Err(TariffError::Cell { field: Field::SppExanteBe, row: 2, problem: CellProblem::Invalid })
    ));
    assert!(matches!(
        cell_reading_at(&row, 4, Field::SppExanteBe, 2),
        Err(TariffError::Cell { field: Field::SppExanteBe, row: 2, problem: CellProblem::Missing })
    ));

    let rows = vec![
        spp_header(),
        spp_row(2026, 5, 1, 0, 0, infinite()),
        spp_row(2026, 5, 1, 0, 15, float(3, 0)),
    ];
    let records = read_spp_records(&rows, 2026, 5).unwrap();
    assert_eq!(records.len(), 2);
    assert_eq!(records[0].timestamp, at(2026, 5, 1, 0, 0));
    assert_eq!(records[0].weight, None);
    assert_eq!(records[1].weight, Some(Dec::new(3, 0)));
}

#[test]
fn an_average_over_a_weight_no_decimal_holds_is_none() {
    let mut rows = rlp_rows();
    rows[3][9] = infinite();
    let flanders = read_rlp_records(&rows, 2026, 5, 7, 14, Field::VlRlp).unwrap();
    let regions = read_rlp_eneco_records(&rows, 2026, 5).unwrap();
    assert_eq!(flanders[0].weight, None);
    assert_eq!(regions[0].weight, None);
    let sibelga_only = read_rlp_records(&rows, 2026, 5, 24, 25, Field::RlpSibelga).unwrap();
    assert_eq!(sibelga_only[0].weight, Some(Dec::new(245, 1)));
    rows[3][12] = text("n/a");
    assert!(matches!(
        read_rlp_records(&rows, 2026, 5, 7, 14, Field::VlRlp),
        Err(TariffError::Cell { field: Field::VlRlp, row: 4, problem: CellProblem::Invalid })
    ));
}

#[test]
fn belpex_prices_that_no_decimal_holds_are_read_as_none() {
    let mut rows = belpex_rows();
    rows.push(vec![text("02/05/2026"), text("7u15"), infinite()]);
    rows.push(vec![text("02/05/2026"), text("7u30"), text("n/a")]);
    assert!(matches!(
        read_belpex_records(&rows, 2026, 5),
        Err(TariffError::Cell { field: Field::Euro, row: 8, problem: CellProblem::Invalid })
    ));
    rows.pop();
    let records = read_belpex_records(&rows, 2026, 5).unwrap();
    assert_eq!(records.len(), 3);
    assert_eq!(records[2].timestamp, at(2026, 5, 2, 7, 15));
    assert_eq!(records[2].euro_per_mwh, None);
}
