//! Host-side operations for a desktop application shell: a key-press delta
//! tracker that turns absolute key-state samples into an edge-triggered
//! stream of newly pressed keys, together with the path and MIME-type logic
//! behind the image-to-data-URI operation and the directory-listing records.

pub mod fs_entry;
pub mod image;
pub mod pathing;
pub mod tracker;
