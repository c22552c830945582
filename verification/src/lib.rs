//! Belgian variable electricity tariffs computed from Belpex day-ahead spot
//! prices weighted by Synergrid profiles.
pub mod calc;
pub mod calendar;
pub mod decimal;
pub mod error;
pub mod hourly;
pub mod index;
pub mod laws;
pub mod pricing;
pub mod report;
pub mod sheet;
pub mod text;
pub mod weighted;

pub use calc::{
    calculate, calculate_all_with_config, calculate_both, calculate_both_with_config,
    calculate_configured, calculate_import, calculate_import_both,
    calculate_import_both_with_config, calculate_import_with_config, calculate_weighted_indices,
    calculate_with_config, AppCalculation, Calculation, CalculationComparison,
    ConfiguredAppCalculation, ImportCalculation, ImportCalculationComparison,
};
pub use calendar::{parse_belpex_date, parse_belpex_time, QuarterHour};
pub use decimal::Dec;
pub use error::TariffError;
pub use hourly::average_belpex_to_hourly;
pub use index::WeightedIndexId;
pub use pricing::{
    import_price_excl_vat, import_price_excl_vat_with_config, import_price_incl_vat,
    import_price_incl_vat_with_config, terugleveringsvergoeding,
    terugleveringsvergoeding_with_config, AppConfig, ConfiguredPrice, InputFiles,
    PriceCalculation, PriceFormula, PricingConfig,
};
pub use weighted::{BelpexRecord, SppRecord, WeightedIndexResult};
