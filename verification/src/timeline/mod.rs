pub mod ai;
pub mod albums;
pub mod calendar;
pub mod contact_sheet;
pub mod enrichment;
pub mod holidays;
pub mod membership;
pub mod models;
pub mod places;
pub mod scan;
pub mod status;
pub mod store;
pub mod time;
