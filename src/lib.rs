//! A live monitor for NMEA 0183 position receivers.
//!
//! The library holds what the monitor decides: how a received sentence is
//! folded into the current fix and the bounded message history
//! (`telemetry`), which lines of the stream are forwarded (`reader`), how
//! keyboard and timer events drive the display loop (`events`), and how the
//! status lines are composed (`display`).

mod display;
mod events;
mod reader;
mod telemetry;

pub use display::{datetime_str, option_str, NOT_AVAILABLE};
pub use events::{input_continues, is_exit, Action, Config, Event, Key, RenderLoop};
pub use reader::LineFilter;
pub use telemetry::{
    accepted_lines, lemma_fold_supplied_fields, lemma_full_history_is_newest, lemma_history_keeps_newest, lemma_trimmed_sentence_starts_with_dollar, merged, min_int, parsed_fields, pick, gsv_of, satellites_in_view, sky_has_room, takes_satellites, tracks_satellites, GSV_SLOTS,
    MAX_GSV_PACK, MAX_SATELLITES, NO_STAMP,
    pushed_all, pushed_front, is_trim_of, is_white, unknown, with_satellites, Aggregator, Entry, EntryView,
    Telemetry, TelemetryView, HISTORY_CAPACITY,
};
