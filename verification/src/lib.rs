//! Household balance-sheet logic: calendar dates, exact decimal amounts,
//! shares of a whole in basis points, market-data coverage, freshness
//! maintenance, pending Activity payloads, image normalisation and the
//! records exchanged with the persistence and interface layers.

pub mod error;
pub mod text;
pub mod calendar;
pub mod coverage;
pub mod raster;
pub mod image_processing;
pub mod currency;
pub mod amount;
pub mod decimal_parts;
pub mod providers;
pub mod reference;
pub mod query_count;
pub mod history_records;
pub mod history;
pub mod holdings;
pub mod institutions;
pub mod members;
pub mod instruments;
pub mod quotes;
pub mod onboarding;
pub mod income_fee;
pub mod overview;
pub mod allocation;
pub mod allocation_laws;
pub mod keyed_sums;
pub mod accounts;
pub mod portfolio;
pub mod net_worth;
pub mod history_items;
pub mod maintenance_builder;
pub mod media;
pub mod market_data;
pub mod market_history;
pub mod ids;
pub mod time;
pub mod pending;
pub mod pending_payload;
pub mod pending_input;
pub mod pending_cursor;
pub mod pending_pages;
pub mod maintenance;
pub mod maintenance_queue;
pub mod maintenance_observations;
pub mod maintenance_requests;
