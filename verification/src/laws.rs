//! What the operations are for: what each gives back of what it was given.
pub mod answers;
pub mod changes;
pub mod coming;
pub mod connections;
pub mod conversation;
pub mod details;
pub mod events;
pub mod files;
pub mod given;
pub mod going;
pub mod images;
pub mod lines;
pub mod panels;
pub mod people;
pub mod pictures;
pub mod previews;
pub mod reading;
pub mod relay;
pub mod sidebar;
pub mod stores;
pub mod styles;
pub mod texts;
pub mod tidings;
pub mod typing;
pub mod writing;
