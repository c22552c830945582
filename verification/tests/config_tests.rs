use std::path::PathBuf;

use belgian_spot_tariff_calculator::calendar::QuarterHour;
use belgian_spot_tariff_calculator::error::{DateProblem, TariffError, TimeProblem};
use belgian_spot_tariff_calculator::index::WeightedIndexId;
use belgian_spot_tariff_calculator::pricing::{
    AppConfig, PriceCalculation, PriceFormula, RawAppConfig, RawConfiguredPrice, RawInputFiles,
};
use belgian_spot_tariff_calculator::report::{
    index_figure, month_coverage, price_figures, resolve_path,
};
use belgian_spot_tariff_calculator::sheet::{CellProblem, Field};
use belgian_spot_tariff_calculator::weighted::WeightedIndexResult;
use belgian_spot_tariff_calculator::Dec;

fn dec(value: i64, scale: u32) -> Dec {
    Dec::new(value, scale)
}

fn raw_price(name: &str, index: &str, a: Dec, b: Dec, vat: Dec) -> RawConfiguredPrice {
    RawConfiguredPrice {
        name: name.to_owned(),
        index: index.to_owned(),
        a,
        b,
        vat_percent: vat,
    }
}

#[test]
fn builds_pricing_config_from_file_contents() {
    let raw = RawAppConfig {
        files: Some(RawInputFiles {
            spp: PathBuf::from("SPP_ex-ante_and_ex-post_2026.xlsx"),
            rlp: PathBuf::from("RLP0N 2026 Electricity all DSOs.xlsb"),
            belpex: PathBuf::from("quarter-hourly-spot-belpex--c--elexys.xlsx"),
        }),
        prices: vec![
            raw_price("Injection", "belpex-q-spp", dec(95, 3), dec(-25, 1), dec(6, 0)),
            raw_price(
                "Consumption Belgium Hourly",
                "belpex-h-rlp-be",
                dec(107, 3),
                dec(15, 1),
                dec(21, 0),
            ),
        ],
    };

    let config = AppConfig::from_raw(raw).unwrap();

    assert_eq!(config.prices.len(), 2);
    let files = config.files.as_ref().unwrap();
    assert_eq!(files.spp, PathBuf::from("SPP_ex-ante_and_ex-post_2026.xlsx"));
    assert_eq!(files.rlp, PathBuf::from("RLP0N 2026 Electricity all DSOs.xlsb"));
    assert_eq!(
        files.belpex,
        PathBuf::from("quarter-hourly-spot-belpex--c--elexys.xlsx")
    );
    assert_eq!(config.prices[0].name, "Injection");
    assert_eq!(config.prices[0].index, WeightedIndexId::BelpexQSpp);
    assert_eq!(config.prices[0].formula.coefficient, dec(95, 3));
    assert_eq!(config.prices[0].formula.offset, dec(-25, 1));
    assert_eq!(config.prices[1].index, WeightedIndexId::BelpexHRlpBe);
    assert_eq!(config.prices[1].vat_percent, dec(21, 0));
}

#[test]
fn rejects_unknown_weighted_index() {
    let raw = RawAppConfig {
        files: None,
        prices: vec![raw_price(
            "Bad",
            "belpex-q-unknown",
            dec(1, 0),
            dec(0, 0),
            dec(6, 0),
        )],
    };

    let error = AppConfig::from_raw(raw).unwrap_err();

    assert!(error.message().contains("unknown weighted index"));
}

#[test]
fn reports_the_first_unknown_index_and_an_empty_config() {
    let raw = RawAppConfig {
        files: None,
        prices: vec![
            raw_price("Good", "belpex-h-spp", dec(1, 0), dec(0, 0), dec(0, 0)),
            raw_price("Bad", "belpex-x", dec(1, 0), dec(0, 0), dec(0, 0)),
            raw_price("Worse", "belpex-y", dec(1, 0), dec(0, 0), dec(0, 0)),
        ],
    };
    match AppConfig::from_raw(raw) {
        Err(TariffError::UnknownWeightedIndex(name)) => assert_eq!(name, "belpex-x"),
        other => panic!("unexpected {other:?}"),
    }
    let empty = RawAppConfig {
        files: None,
        prices: vec![],
    };
    assert!(matches!(
        AppConfig::from_raw(empty),
        Err(TariffError::NoPrices)
    ));
}

#[test]
fn index_names_read_back_to_their_index() {
    for id in WeightedIndexId::ALL {
        assert_eq!(WeightedIndexId::from_name(id.as_str()).unwrap(), id);
        assert_eq!(id.as_str().parse::<WeightedIndexId>().unwrap(), id);
    }
    assert_eq!(WeightedIndexId::all(), WeightedIndexId::ALL);
    assert_eq!(WeightedIndexId::BelpexHRlpM.as_str(), "belpex-h-rlp-m");
    assert!(matches!(
        WeightedIndexId::from_name("Belpex-Q-SPP"),
        Err(TariffError::UnknownWeightedIndex(_))
    ));
}

#[test]
fn error_messages_tell_what_went_wrong() {
    assert_eq!(
        TariffError::InvalidMonth(13).message(),
        "month must be in the range 1..=12, got 13"
    );
    assert_eq!(
        TariffError::InvalidBelpexTime {
            value: "24u00".to_owned(),
            time_problem: TimeProblem::NotAQuarterHour
        }
        .message(),
        "invalid quarter-hour Belpex time \"24u00\""
    );
    assert_eq!(
        TariffError::InvalidBelpexDate {
            value: " 1-5-2026 ".to_owned(),
            date_problem: DateProblem::WrongShape
        }
        .message(),
        "expected Belpex date like DD/MM/YYYY, got \"1-5-2026\""
    );
    assert_eq!(
        TariffError::MissingWeightedIndex(WeightedIndexId::BelpexQSpp).message(),
        "missing weighted index belpex-q-spp"
    );
    assert_eq!(
        TariffError::MissingColumn(Field::SppExanteBe).message(),
        "missing required column SPPExanteBE"
    );
    assert_eq!(
        TariffError::Cell {
            field: Field::Minute,
            row: 12,
            problem: CellProblem::NotInteger
        }
        .message(),
        "invalid integer Min value at row 12"
    );
    assert_eq!(
        TariffError::Cell {
            field: Field::Date,
            row: 4,
            problem: CellProblem::NoText
        }
        .message(),
        "missing or invalid Date value at row 4"
    );
    assert_eq!(
        TariffError::MissingPath("spp".to_owned()).message(),
        "missing --spp path; provide it on the CLI or in [files].spp"
    );
    assert_eq!(
        TariffError::NoMatchingQuarterHours.message(),
        "no matching quarter-hour rows found between SPP and Belpex inputs"
    );
}

#[test]
fn input_paths_come_from_the_command_line_first() {
    let cli = PathBuf::from("cli.xlsx");
    let configured = PathBuf::from("config.xlsx");

    assert_eq!(
        resolve_path("spp", Some(&cli), Some(&configured)).unwrap(),
        &cli
    );
    assert_eq!(resolve_path("spp", None, Some(&configured)).unwrap(), &configured);
    match resolve_path("belpex", None, None) {
        Err(TariffError::MissingPath(name)) => assert_eq!(name, "belpex"),
        other => panic!("unexpected {other:?}"),
    }
}

fn index(id: WeightedIndexId, quarters: usize) -> WeightedIndexResult {
    WeightedIndexResult {
        id,
        matched_quarter_hours: quarters,
        total_weight: dec(1, 0),
        weighted_price: dec(12345, 3),
    }
}

#[test]
fn month_coverage_shows_the_fewest_matched_hours() {
    let indices = [
        index(WeightedIndexId::BelpexQSpp, 400),
        index(WeightedIndexId::BelpexHSpp, 403),
        index(WeightedIndexId::BelpexQRlpVl, 2880),
    ];
    assert_eq!(month_coverage(2026, 4, &indices), Some((100, 720)));
    let full = [index(WeightedIndexId::BelpexQSpp, 2976)];
    assert_eq!(month_coverage(2026, 5, &full), None);
    assert_eq!(month_coverage(2026, 13, &indices), None);
    assert_eq!(month_coverage(2026, 4, &[]), None);
    assert_eq!(month_coverage(2024, 2, &full[..0]), None);
    assert_eq!(
        month_coverage(2024, 2, &[index(WeightedIndexId::BelpexQSpp, 4 * 24 * 28)]),
        Some((672, 696))
    );
}

#[test]
fn printed_figures_are_rounded() {
    let price = PriceCalculation {
        name: "Consumption".to_owned(),
        index: WeightedIndexId::BelpexQRlpVl,
        formula: PriceFormula {
            coefficient: dec(107, 3),
            offset: dec(15, 1),
        },
        vat_percent: dec(6, 0),
        price_excl_vat: dec(640595, 5),
        price_incl_vat: Dec::from_parts(67903075, 7).unwrap(),
    };

    let figures = price_figures(&price);

    assert_eq!(figures.excl_vat_ct, dec(640595, 5));
    assert_eq!(figures.excl_vat_eur, dec(64060, 6));
    assert_eq!(figures.incl_vat_ct, dec(6790308, 6));
    assert_eq!(figures.incl_vat_eur, dec(67903, 6));
    assert!(figures.shows_vat);
    let untaxed = PriceCalculation {
        vat_percent: dec(0, 2),
        ..price
    };
    assert!(!price_figures(&untaxed).shows_vat);
    assert_eq!(
        index_figure(&index(WeightedIndexId::BelpexQSpp, 4)),
        dec(1234, 2)
    );
}

#[test]
fn timestamps_compare_by_their_fields() {
    let a = QuarterHour {
        year: 2026,
        month: 1,
        day: 2,
        hour: 3,
        minute: 45,
    };
    let b = a;
    assert_eq!(a, b);
    assert_ne!(
        a,
        QuarterHour {
            minute: 30,
            ..a
        }
    );
}
