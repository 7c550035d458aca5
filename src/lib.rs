//! Scale-tagged time instants and durations, conversions between time
//! scales, and Earth orientation data providers.

pub mod celestrak;
mod epoch;
pub mod name;
mod provider;
mod scale;
pub mod text;
mod time_delta;

pub use celestrak::{CelestrakProvider, Column, Entry, Error, Type};
pub use epoch::{epoch_view, Epoch};
pub use name::{j2000, name_gregorian, name_julian, DateTimeName};
pub use provider::{delta_view, EmptyProvider, Provider};
pub use scale::{
    at_tai_of, at_utc_of, gps_tai_nanos, lemma_identity, lemma_tai_tt_round_trip, shifted,
    tai_of_utc, tt_tai_nanos, utc_of_tai, Scale, ToScale, ToScaleWith, GPS, TAI, TT, UT1, UTC,
};
pub use time_delta::{
    max_nanos, min_nanos, nanos_in_range, order_of, raw_nanos, raw_secs,
    TimeDelta, NANOS_PER_MICRO, NANOS_PER_MILLI, NANOS_PER_SEC, SECS_PER_DAY, SECS_PER_HOUR,
    SECS_PER_MIN,
};
