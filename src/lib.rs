//! Ingestion and alignment layer of a market backtest: date-tolerant
//! parsing of price tables, extraction of a maturity column from rate
//! tables, recognition of numeric cells, and reconciliation of series
//! lengths.

pub mod date;
pub mod table;
pub mod prices;
pub mod rates;
pub mod align;
pub mod number;
