//! Snapshots of a tiling window manager's desktop: the state that is saved
//! across restarts, the document that clients query, and the window tree that
//! scripts transform.

pub mod agreement_laws;
pub mod clock;
pub mod desktop;
pub mod document_laws;
pub mod geometry;
pub mod layout;
pub mod lookup_laws;
pub mod matching;
pub mod params;
pub mod platform;
pub mod query;
pub mod query_laws;
pub mod saved;
pub mod saved_content_laws;
pub mod saved_laws;
pub mod saving;
pub mod seqs;
pub mod spaces;
pub mod tree_laws;
pub mod view_laws;
pub mod windowset;
pub mod world;
