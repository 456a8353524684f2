//! Mirroring of HLS playlists: byte-range resolution for serving stored
//! segments, playlist rewriting and segment-URL resolution, and the retry
//! policy of segment downloads.
pub mod text;
pub mod range;
pub mod playlist;
pub mod fetch;
pub mod pattern;
pub mod paths;
pub mod html;
pub mod clock;
