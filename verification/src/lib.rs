//! Extraction pipeline for "track records" documents: a streaming XML log
//! format whose root `TRACKRECORDS` element carries a sequence of `RECORD`
//! elements, each with the string attributes `date`, `class`, `comment` and
//! `laptime`. The library validates the document shape with a small state
//! machine, builds one typed record per `RECORD` element in document order,
//! and decodes the `date` attribute's digit string into a seconds +
//! nanoseconds timestamp under one of two selectable encodings.

pub mod event;
pub mod machine;
pub mod pipeline;
pub mod record;
pub mod timestamp;
