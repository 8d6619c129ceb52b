pub mod bytes;
pub mod clock;
pub mod encoding;
pub mod text;
pub mod crypto;
pub mod encryption;
pub mod email;
pub mod chat;
pub mod ui;
pub mod platform;
