//! Catalog data model of a wargame data editor.
//!
//! A catalog holds a tag dictionary and the weapons and ship systems that are
//! labelled with its tags. Weapons and systems refer to tags by name, so a
//! reference survives a reordering of the dictionary and is left dangling when
//! its tag is renamed or dropped; a dangling reference is shown as such and can
//! be repointed or removed.
//!
//! - [`app_data`] holds the catalog, its entries, the lookup view that
//!   resolves names to tags, and the pass of the editor over one entry.
//! - [`editor`] holds the pass over the whole catalog.
//! - [`document`] and [`storage`] hold the document that a catalog is stored
//!   as, and how a catalog is written to it and read from it.
//!
//! The library shows nothing and reads no input. What the user did in one pass
//! over the widgets is handed to it as plain values, the edits, and it says
//! what the catalog is after them.

pub mod app_data;
pub mod document;
pub mod editor;
pub mod storage;
