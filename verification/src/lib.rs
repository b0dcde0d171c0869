//! Classification of file names by financial year.
//!
//! A financial year runs from July to June and is named after the calendar
//! year in which it ends. The trailing date token of a file stem (`2022FY`,
//! `JAN2022` or `21JAN2022`) determines the financial year of the file:
//! [`extract`] takes the token from the stem, [`resolve`] reads the year
//! from the token, and [`get_fy`] does both.

pub mod classify;
pub mod error;
pub mod extractor;
pub mod laws;
pub mod month;
pub mod number;
pub mod placement;
pub mod resolver;

pub use classify::get_fy;
pub use error::{ClassifyError, ExtractError, ResolveError};
pub use extractor::extract;
pub use month::get_month_offset;
pub use placement::{directory_name, plan_placement, Destination, Placement};
pub use resolver::{
    get_fy_fy_year_only, get_fy_full_date, process_month_and_year, resolve, DateFormat,
};
