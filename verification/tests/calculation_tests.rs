use std::collections::HashMap;

use belgian_spot_tariff_calculator::calc::{
    calculate, calculate_all_with_config, calculate_both, calculate_configured,
    calculate_import, calculate_import_both, calculate_import_with_config,
    calculate_weighted_indices, calculate_with_config,
};
use belgian_spot_tariff_calculator::calendar::QuarterHour;
use belgian_spot_tariff_calculator::error::TariffError;
use belgian_spot_tariff_calculator::hourly::{
    average_belpex_to_hourly,
};
use belgian_spot_tariff_calculator::index::WeightedIndexId;
use belgian_spot_tariff_calculator::pricing::{
    checked_price_incl_vat, import_price_excl_vat, import_price_incl_vat,
    import_price_incl_vat_with_config, terugleveringsvergoeding,
    terugleveringsvergoeding_with_config, AppConfig, ConfiguredPrice, PriceFormula,
    PricingConfig,
};
use belgian_spot_tariff_calculator::weighted::{
    calculate_weighted_index, BelpexRecord, SppRecord, WeightedIndexResult,
};
use belgian_spot_tariff_calculator::Dec;

fn ts(day: u8, hour: u8, minute: u8) -> QuarterHour {
    QuarterHour {
        year: 2026,
        month: 5,
        day,
        hour,
        minute,
    }
}

fn dec(value: i64, scale: u32) -> Dec {
    Dec::new(value, scale)
}

fn custom_config() -> PricingConfig {
    PricingConfig {
        export_formula: PriceFormula {
            coefficient: dec(2, 1),
            offset: dec(-1, 0),
        },
        import_formula: PriceFormula {
            coefficient: dec(5, 1),
            offset: dec(2, 0),
        },
        vat_percent: dec(21, 0),
    }
}

fn sample_belpex() -> [BelpexRecord; 2] {
    [
        BelpexRecord {
            timestamp: ts(1, 10, 0),
            euro_per_mwh: Some(dec(30, 0)),
        },
        BelpexRecord {
            timestamp: ts(1, 10, 15),
            euro_per_mwh: Some(dec(60, 0)),
        },
    ]
}

fn sample_weights() -> [SppRecord; 2] {
    [
        SppRecord {
            timestamp: ts(1, 10, 0),
            weight: Some(dec(2, 0)),
        },
        SppRecord {
            timestamp: ts(1, 10, 15),
            weight: Some(dec(1, 0)),
        },
    ]
}

fn index_by_id(indices: &[WeightedIndexResult], id: WeightedIndexId) -> WeightedIndexResult {
    *indices.iter().find(|index| index.id == id).unwrap()
}

#[test]
fn joins_on_quarter_hour_timestamp() {
    let spp = [
        SppRecord {
            timestamp: ts(1, 12, 0),
            weight: Some(dec(1, 0)),
        },
        SppRecord {
            timestamp: ts(1, 12, 15),
            weight: Some(dec(1, 0)),
        },
    ];
    let belpex = [BelpexRecord {
        timestamp: ts(1, 12, 15),
        euro_per_mwh: Some(dec(40, 0)),
    }];

    let result = calculate(&spp, &belpex).unwrap();

    assert_eq!(result.matched_quarter_hours, 1);
    assert_eq!(result.belpex_spp_be, dec(40, 0));
}

#[test]
fn calculates_weighted_average() {
    let spp = sample_weights();
    let belpex = sample_belpex();

    let result = calculate(&spp, &belpex).unwrap();

    assert_eq!(result.matched_quarter_hours, 2);
    assert_eq!(result.total_spp_weight, dec(3, 0));
    assert_eq!(result.belpex_spp_be, dec(40, 0));
}

#[test]
fn averages_belpex_quarter_hours_to_hourly_prices() {
    let belpex = [
        BelpexRecord {
            timestamp: ts(1, 10, 0),
            euro_per_mwh: Some(dec(10, 0)),
        },
        BelpexRecord {
            timestamp: ts(1, 10, 15),
            euro_per_mwh: Some(dec(20, 0)),
        },
        BelpexRecord {
            timestamp: ts(1, 10, 30),
            euro_per_mwh: Some(dec(30, 0)),
        },
        BelpexRecord {
            timestamp: ts(1, 10, 45),
            euro_per_mwh: Some(dec(40, 0)),
        },
    ];

    let hourly = average_belpex_to_hourly(&belpex);

    assert_eq!(hourly.len(), 4);
    assert!(hourly.iter().all(|record| record.euro_per_mwh == Some(dec(25, 0))));
    assert!(hourly
        .iter()
        .any(|record| record.timestamp == ts(1, 10, 45)));
}

#[test]
fn calculates_both_hourly_and_exact_quarter_hour_modes() {
    let spp = sample_weights();
    let belpex = sample_belpex();

    let comparison = calculate_both(&spp, &belpex).unwrap();

    assert_eq!(comparison.exact_quarter_hour.belpex_spp_be, dec(40, 0));
    assert_eq!(comparison.hourly_averaged.belpex_spp_be, dec(45, 0));
}

#[test]
fn calculates_import_formulas() {
    assert_eq!(import_price_excl_vat(dec(4585, 2)), dec(640595, 5));
    assert_eq!(import_price_incl_vat(dec(4585, 2)), dec(6790307, 6));
}

#[test]
fn calculates_configured_formula_and_per_formula_vat() {
    let price = ConfiguredPrice {
        name: "Custom".to_owned(),
        index: WeightedIndexId::BelpexQSpp,
        formula: PriceFormula {
            coefficient: dec(5, 1),
            offset: dec(2, 0),
        },
        vat_percent: dec(21, 0),
    };
    let index = WeightedIndexResult {
        id: WeightedIndexId::BelpexQSpp,
        matched_quarter_hours: 2,
        total_weight: dec(3, 0),
        weighted_price: dec(40, 0),
    };

    let result = price.calculate(&index);

    assert_eq!(result.price_excl_vat, dec(22, 0));
    assert_eq!(result.price_incl_vat, dec(2662, 2));
}

#[test]
fn default_config_recreates_current_default_formula_outputs() {
    let config = AppConfig::default();
    let indices = [
        WeightedIndexResult {
            id: WeightedIndexId::BelpexQSpp,
            matched_quarter_hours: 2,
            total_weight: dec(3, 0),
            weighted_price: dec(4585, 2),
        },
        WeightedIndexResult {
            id: WeightedIndexId::BelpexQRlpVl,
            matched_quarter_hours: 2,
            total_weight: dec(3, 0),
            weighted_price: dec(4585, 2),
        },
    ];
    let by_id = indices
        .iter()
        .map(|index| (index.id, index))
        .collect::<HashMap<_, _>>();
    let prices = config
        .prices
        .iter()
        .map(|price| price.calculate(by_id.get(&price.index).unwrap()))
        .collect::<Vec<_>>();

    assert_eq!(prices[0].price_excl_vat, dec(185575, 5));
    assert_eq!(prices[1].price_excl_vat, dec(640595, 5));
    assert_eq!(prices[1].price_incl_vat, dec(6790307, 6));
}

#[test]
fn calculates_weighted_index_registry() {
    let spp = sample_weights();
    let rlp_flanders = sample_weights();
    let rlp_belgium = sample_weights();
    let rlp_eneco = sample_weights();
    let belpex = sample_belpex();

    let indices =
        calculate_weighted_indices(&spp, &rlp_flanders, &rlp_belgium, &rlp_eneco, &belpex)
            .unwrap();

    assert_eq!(
        indices.iter().map(|index| index.id).collect::<Vec<_>>(),
        WeightedIndexId::ALL
    );
    assert_eq!(
        index_by_id(&indices, WeightedIndexId::BelpexQSpp).weighted_price,
        dec(40, 0)
    );
    assert_eq!(
        index_by_id(&indices, WeightedIndexId::BelpexHSpp).weighted_price,
        dec(45, 0)
    );
    assert_eq!(
        index_by_id(&indices, WeightedIndexId::BelpexQRlpVl).weighted_price,
        dec(40, 0)
    );
    assert_eq!(
        index_by_id(&indices, WeightedIndexId::BelpexHRlpM).weighted_price,
        dec(45, 0)
    );
}

#[test]
fn calculates_custom_export_formula() {
    let spp = [SppRecord {
        timestamp: ts(1, 10, 0),
        weight: Some(dec(1, 0)),
    }];
    let belpex = [BelpexRecord {
        timestamp: ts(1, 10, 0),
        euro_per_mwh: Some(dec(40, 0)),
    }];

    let result = calculate_with_config(&spp, &belpex, custom_config()).unwrap();

    assert_eq!(result.belpex_spp_be, dec(40, 0));
    assert_eq!(result.terugleveringsvergoeding, dec(7, 0));
}

#[test]
fn calculates_custom_import_formula_and_vat() {
    let rlp = [SppRecord {
        timestamp: ts(1, 10, 0),
        weight: Some(dec(1, 0)),
    }];
    let belpex = [BelpexRecord {
        timestamp: ts(1, 10, 0),
        euro_per_mwh: Some(dec(40, 0)),
    }];

    let result = calculate_import_with_config(&rlp, &belpex, custom_config()).unwrap();

    assert_eq!(result.belpex_rlp_vl, dec(40, 0));
    assert_eq!(result.price_excl_vat, dec(22, 0));
    assert_eq!(result.price_incl_vat, dec(2662, 2));
}

#[test]
fn calculates_import_both_hourly_and_exact_quarter_hour_modes() {
    let rlp = sample_weights();
    let belpex = sample_belpex();

    let comparison = calculate_import_both(&rlp, &belpex).unwrap();

    assert_eq!(comparison.exact_quarter_hour.belpex_rlp_vl, dec(40, 0));
    assert_eq!(comparison.hourly_averaged.belpex_rlp_vl, dec(45, 0));
    assert_eq!(comparison.exact_quarter_hour.price_excl_vat, dec(578, 2));
    assert_eq!(comparison.exact_quarter_hour.price_incl_vat, dec(61268, 4));
}

#[test]
fn calculates_formula() {
    assert_eq!(terugleveringsvergoeding(dec(2917, 2)), dec(27115, 5));
}

#[test]
fn errors_for_no_matches_or_zero_weight() {
    let spp = [SppRecord {
        timestamp: ts(1, 1, 0),
        weight: Some(dec(0, 0)),
    }];
    let belpex = [BelpexRecord {
        timestamp: ts(1, 1, 0),
        euro_per_mwh: Some(dec(10, 0)),
    }];

    assert!(calculate(&[], &belpex).is_err());
    assert!(calculate(&spp, &belpex).is_err());
}

#[test]
fn reports_which_weighting_error_occurred() {
    let spp = [SppRecord {
        timestamp: ts(1, 1, 0),
        weight: Some(dec(0, 0)),
    }];
    let belpex = [BelpexRecord {
        timestamp: ts(1, 1, 0),
        euro_per_mwh: Some(dec(10, 0)),
    }];
    let other_hour = [BelpexRecord {
        timestamp: ts(1, 2, 0),
        euro_per_mwh: Some(dec(10, 0)),
    }];

    assert!(matches!(
        calculate_weighted_index(&[], &belpex),
        Err(TariffError::NoMatchingQuarterHours)
    ));
    assert!(matches!(
        calculate_weighted_index(&spp, &other_hour),
        Err(TariffError::NoMatchingQuarterHours)
    ));
    assert!(matches!(
        calculate_weighted_index(&spp, &belpex),
        Err(TariffError::ZeroTotalWeight)
    ));
}

#[test]
fn weights_without_a_spot_price_do_not_count() {
    let mut spp = sample_weights().to_vec();
    let belpex = sample_belpex();
    let before = calculate_weighted_index(&spp, &belpex).unwrap();
    spp.push(SppRecord {
        timestamp: ts(2, 10, 0),
        weight: Some(dec(100, 0)),
    });
    let after = calculate_weighted_index(&spp, &belpex).unwrap();

    assert_eq!(before, after);
    assert_eq!(after.matched_quarter_hours, 2);
    assert_eq!(after.id, WeightedIndexId::BelpexQSpp);
}

#[test]
fn the_last_price_of_a_quarter_hour_counts() {
    let spp = [SppRecord {
        timestamp: ts(1, 10, 0),
        weight: Some(dec(1, 0)),
    }];
    let belpex = [
        BelpexRecord {
            timestamp: ts(1, 10, 0),
            euro_per_mwh: Some(dec(30, 0)),
        },
        BelpexRecord {
            timestamp: ts(1, 10, 0),
            euro_per_mwh: Some(dec(50, 0)),
        },
    ];

    let result = calculate_weighted_index(&spp, &belpex).unwrap();

    assert_eq!(result.weighted_price, dec(50, 0));
}

#[test]
fn weighted_price_divides_the_weighted_sum_by_the_total_weight() {
    let spp = [
        SppRecord {
            timestamp: ts(3, 0, 0),
            weight: Some(dec(1, 0)),
        },
        SppRecord {
            timestamp: ts(3, 0, 15),
            weight: Some(dec(2, 0)),
        },
    ];
    let belpex = [
        BelpexRecord {
            timestamp: ts(3, 0, 0),
            euro_per_mwh: Some(dec(10, 0)),
        },
        BelpexRecord {
            timestamp: ts(3, 0, 15),
            euro_per_mwh: Some(dec(11, 0)),
        },
    ];

    let result = calculate_weighted_index(&spp, &belpex).unwrap();

    assert_eq!(result.total_weight, dec(3, 0));
    // (10 + 22) / 3, rounded to 28 significant digits.
    assert_eq!(
        result.weighted_price,
        Dec::from_parts(10666666666666666666666666667, 27).unwrap()
    );
}

#[test]
fn hourly_prices_cover_every_hour_in_order_of_first_appearance() {
    let belpex = [
        BelpexRecord {
            timestamp: ts(1, 11, 15),
            euro_per_mwh: Some(dec(8, 0)),
        },
        BelpexRecord {
            timestamp: ts(1, 10, 0),
            euro_per_mwh: Some(dec(3, 0)),
        },
        BelpexRecord {
            timestamp: ts(1, 11, 45),
            euro_per_mwh: Some(dec(4, 0)),
        },
    ];

    let hourly = average_belpex_to_hourly(&belpex);

    assert_eq!(hourly.len(), 8);
    let minutes = [0, 15, 30, 45];
    for (k, record) in hourly.iter().enumerate() {
        let hour = if k < 4 { 11 } else { 10 };
        assert_eq!(record.timestamp, ts(1, hour, minutes[k % 4]));
    }
    assert!(hourly[..4].iter().all(|r| r.euro_per_mwh == Some(dec(6, 0))));
    assert!(hourly[4..].iter().all(|r| r.euro_per_mwh == Some(dec(3, 0))));
    assert!(average_belpex_to_hourly(&[]).is_empty());
}

#[test]
fn configured_prices_use_their_own_index() {
    let spp = sample_weights();
    let belpex = sample_belpex();
    let config = AppConfig {
        files: None,
        prices: vec![ConfiguredPrice {
            name: "Hourly solar".to_owned(),
            index: WeightedIndexId::BelpexHSpp,
            formula: PriceFormula {
                coefficient: dec(1, 0),
                offset: dec(0, 0),
            },
            vat_percent: dec(0, 0),
        }],
    };

    let result = calculate_configured(&spp, &spp, &spp, &spp, &belpex, &config).unwrap();

    assert_eq!(result.indices.len(), 7);
    assert_eq!(result.prices.len(), 1);
    assert_eq!(result.prices[0].name, "Hourly solar");
    assert_eq!(result.prices[0].price_excl_vat, dec(45, 0));
    assert_eq!(result.prices[0].price_incl_vat, dec(45, 0));
}

#[test]
fn default_config_matches_the_fixed_two_price_setup() {
    let spp = sample_weights();
    let belpex = sample_belpex();
    let configured =
        calculate_configured(&spp, &spp, &spp, &spp, &belpex, &AppConfig::default()).unwrap();
    let fixed =
        calculate_all_with_config(&spp, &spp, &spp, &spp, &belpex, PricingConfig::default())
            .unwrap();

    assert_eq!(
        configured.prices[0].price_excl_vat,
        fixed.export.exact_quarter_hour.terugleveringsvergoeding
    );
    assert_eq!(
        configured.prices[1].price_excl_vat,
        fixed.import.exact_quarter_hour.price_excl_vat
    );
    assert_eq!(
        configured.prices[1].price_incl_vat,
        fixed.import.exact_quarter_hour.price_incl_vat
    );
    assert_eq!(fixed.belpex_rlp_m.belpex_rlp_vl, dec(45, 0));
    assert_eq!(fixed.import_belgium.hourly_averaged.belpex_rlp_vl, dec(45, 0));
}

#[test]
fn default_pricing_uses_the_default_prices() {
    let app = AppConfig::default();
    let pricing = PricingConfig::default();

    assert!(app.files.is_none());
    assert_eq!(app.prices.len(), 2);
    assert_eq!(app.prices[0].name, "Injection");
    assert_eq!(app.prices[1].name, "Consumption Flanders");
    assert_eq!(pricing.export_formula, app.prices[0].formula);
    assert_eq!(pricing.import_formula, app.prices[1].formula);
    assert_eq!(pricing.vat_percent, dec(6, 0));
    assert_eq!(pricing.export_formula.coefficient, dec(95, 3));
    assert_eq!(pricing.export_formula.offset, dec(-25, 1));
}

#[test]
fn zero_vat_leaves_the_price_unchanged() {
    let price = dec(123456, 4);
    assert_eq!(checked_price_incl_vat(price, dec(0, 0)).unwrap(), price);
    assert_eq!(
        checked_price_incl_vat(price, dec(21, 0)).unwrap(),
        dec(14938176, 6)
    );
}

#[test]
fn formula_with_config_applies_coefficient_and_offset() {
    assert_eq!(
        terugleveringsvergoeding_with_config(dec(40, 0), custom_config()),
        dec(7, 0)
    );
    assert_eq!(
        import_price_incl_vat_with_config(dec(40, 0), custom_config()),
        dec(2662, 2)
    );
    let formula = PriceFormula {
        coefficient: dec(3, 0),
        offset: dec(-5, 1),
    };
    assert_eq!(formula.apply(dec(2, 0)), dec(55, 1));
    assert_eq!(formula.checked_apply(dec(2, 0)), Some(dec(55, 1)));
}

#[test]
fn default_calculation_import_uses_default_formula() {
    let rlp = sample_weights();
    let belpex = sample_belpex();

    let result = calculate_import(&rlp, &belpex).unwrap();

    assert_eq!(result.price_excl_vat, dec(578, 2));
    assert_eq!(result.price_incl_vat, dec(61268, 4));
}

#[test]
fn both_modes_agree_with_single_calculations() {
    let spp = sample_weights();
    let belpex = sample_belpex();
    let hourly = average_belpex_to_hourly(&belpex);

    let both = calculate_both(&spp, &belpex).unwrap();

    assert_eq!(both.exact_quarter_hour, calculate(&spp, &belpex).unwrap());
    assert_eq!(both.hourly_averaged, calculate(&spp, &hourly).unwrap());
}

#[test]
fn import_builds_on_the_plain_calculation() {
    let rlp = sample_weights();
    let belpex = sample_belpex();

    let plain = calculate(&rlp, &belpex).unwrap();
    let import = calculate_import(&rlp, &belpex).unwrap();

    assert_eq!(import.matched_quarter_hours, plain.matched_quarter_hours);
    assert_eq!(import.total_rlp_weight, plain.total_spp_weight);
    assert_eq!(import.belpex_rlp_vl, plain.belpex_spp_be);
    assert_eq!(import.price_excl_vat, import_price_excl_vat(plain.belpex_spp_be));
    assert_eq!(import.price_incl_vat, import_price_incl_vat(plain.belpex_spp_be));
}

#[test]
fn a_weight_no_decimal_holds_is_refused_only_where_priced() {
    let belpex = sample_belpex();
    let unpriced = [
        SppRecord {
            timestamp: ts(1, 10, 0),
            weight: Some(dec(2, 0)),
        },
        SppRecord {
            timestamp: ts(1, 10, 15),
            weight: Some(dec(1, 0)),
        },
        SppRecord {
            timestamp: ts(2, 10, 0),
            weight: None,
        },
    ];
    let result = calculate_weighted_index(&unpriced, &belpex).unwrap();
    assert_eq!(result.matched_quarter_hours, 2);
    assert_eq!(result.total_weight, dec(3, 0));

    let priced = [
        SppRecord {
            timestamp: ts(1, 10, 0),
            weight: Some(dec(2, 0)),
        },
        SppRecord {
            timestamp: ts(1, 10, 15),
            weight: None,
        },
    ];
    let error = calculate_weighted_index(&priced, &belpex).unwrap_err();
    assert!(matches!(error, TariffError::InvalidWeight(t) if t == ts(1, 10, 15)));
    assert_eq!(
        error.message(),
        "invalid SPP/RLP weight at QuarterHour { year: 2026, month: 5, day: 1, hour: 10, minute: 15 }"
    );
}

#[test]
fn a_price_no_decimal_holds_is_refused_when_weighting() {
    let belpex = [
        BelpexRecord {
            timestamp: ts(1, 10, 0),
            euro_per_mwh: Some(dec(30, 0)),
        },
        BelpexRecord {
            timestamp: ts(1, 11, 15),
            euro_per_mwh: None,
        },
        BelpexRecord {
            timestamp: ts(1, 11, 30),
            euro_per_mwh: Some(dec(50, 0)),
        },
    ];

    let hourly = average_belpex_to_hourly(&belpex);
    assert_eq!(hourly.len(), 8);
    assert!(hourly[..4].iter().all(|r| r.euro_per_mwh == Some(dec(30, 0))));
    assert!(hourly[4..].iter().all(|r| r.euro_per_mwh.is_none()));

    let error = calculate_weighted_index(&sample_weights(), &belpex).unwrap_err();
    assert!(matches!(error, TariffError::InvalidBelpexPrice(t) if t == ts(1, 11, 15)));
    assert_eq!(
        error.message(),
        "invalid Belpex price at QuarterHour { year: 2026, month: 5, day: 1, hour: 11, minute: 15 }"
    );
    let hourly_error = calculate_weighted_index(&sample_weights(), &hourly).unwrap_err();
    assert!(matches!(hourly_error, TariffError::InvalidBelpexPrice(t) if t == ts(1, 11, 0)));
    assert!(matches!(
        calculate(&sample_weights(), &belpex),
        Err(TariffError::InvalidBelpexPrice(_))
    ));
}
