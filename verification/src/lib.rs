// Texts of numbers and the calendar.
pub mod text;
pub mod date;

// The instruments, prices and records of a bhavcopy, and how records are ordered.
pub mod instrument;
pub mod price;
pub mod order;
pub mod record;
pub mod record_key;
pub mod record_set;
pub mod record_order;
pub mod record_eq;

// Where bhavcopies come from and where they are kept.
pub mod download;
pub mod storage;

// The service around them.
pub mod config;
pub mod bhav;
pub mod persist;
