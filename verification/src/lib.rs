//! Helpers that prepare Avanza fund and stock data for a Ghostfolio database:
//! JSON documents for countries, sectors and scraper settings, SQL text for
//! new symbol profiles, ticker lists read from CSV exports, and the requests
//! sent to Avanza's search and fund-guide endpoints.

pub mod json;
pub mod text;
pub mod avanza;
pub mod ghostfolio;
pub mod order;
pub mod tickers;
pub mod routes;
pub mod backend;
