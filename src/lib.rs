//! Calendar ingestion and query engine for a meeting-room display.
//!
//! The library turns a calendar feed into an ordered set of events and answers
//! "what is on now", "what is next" and "what is still to come". Everything
//! that touches the network, the disk or a font lives outside it.
pub mod bmp;
pub mod calendar;
pub mod clock;
pub mod datetime;
pub mod events;
pub mod ical;
pub mod order;
pub mod server;
pub mod time;
