pub mod models;
pub mod entries;
pub mod ordered_map;
pub mod stored_key;
pub mod stored_form;
pub mod round_trip;
pub mod bookmark_manager;
