//! A very simple embedded time-series store.
//!
//! A store is one flat file: a header of fixed size, then records of fixed
//! size. A record is a value of one byte and the time at which it was
//! taken, as a number of seconds since the origin date that the header
//! holds.
//!
//! ```text
//! +--------------------------------------------+
//! | HEADER | RECORD1 | RECORD2 | RECORD3 | ... |
//! +--------------------------------------------+
//! ```
//!
//! ```text
//! +-------------------------------------------[HEADER]---------------------------------------------+
//! |--------------------------[TIMESTAMP]------------------------|---------[RECORD COUNT]-----------|
//! |      year      |  month |  day   |  hour  | minute | second |              64bit               |
//! |     16bit      |  8bit  |  8bit  |  8bit  |  8bit  |  8bit  |                                  |
//! +------------------------------------------------------------------------------------------------+
//! ```
//!
//! ```text
//! +-------------------[RECORD]------------+
//! |--------[TIME OFFSET]--------|-[VALUE]-|
//! |            32bit            |   8bit  |
//! +---------------------------------------+
//! ```
//!
//! Every number is stored little-endian. Records are meant to stand in the
//! order of their time, the latest at the end of the file:
//! [`PhysicalDB::check_db_file`] tells whether they do, and
//! [`PhysicalDB::reorder_record`] sorts them where they do not.
//!
//! The library works on the bytes of the file and leaves the file itself to
//! its user: [`PhysicalDB`] holds the bytes, and each of its operations
//! states what becomes of them.
pub mod clock;
pub mod endian;
pub mod header;
pub mod image;
pub mod issue;
pub mod laws;
pub mod layout;
pub mod record;
pub mod store;
pub mod timestamp;

pub use header::{DbHeader, HEADER_SIZE};
pub use issue::{DbIssue, EnodError};
pub use record::{RecordInfo, RECORD_SIZE};
pub use store::PhysicalDB;
pub use timestamp::{Timestamp, TIMESTAMP_SIZE};
