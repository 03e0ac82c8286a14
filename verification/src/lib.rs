//! Decision logic of the Wake workbench: session list grouping and paging,
//! cleanup outcomes and filters, scan bookkeeping and transcript detail rules.
pub mod text;
pub mod model;
pub mod reasons;
pub mod outcome;
pub mod calendar;
pub mod groups;
pub mod query;
pub mod delegate;
pub mod seek;
pub mod scan;
pub mod palette;
pub mod transcript;
pub mod detail;
pub mod images;
pub mod cleanup;
pub mod cleanup_run;
pub mod cleanup_view;
pub mod insights;
pub mod stamp;
pub mod workspace;
