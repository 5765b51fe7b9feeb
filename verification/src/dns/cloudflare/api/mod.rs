pub mod dns;
pub mod zone;
