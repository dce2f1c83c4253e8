pub mod bundle;
pub mod client;
pub mod error;
pub mod login;
pub mod identity;
pub mod room;
pub mod strutil;
pub mod sync;
pub mod telegram;
