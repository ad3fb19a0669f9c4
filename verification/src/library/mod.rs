//! The ROM library: recently played games and their thumbnails.
pub mod db;
pub mod thumbnails;
