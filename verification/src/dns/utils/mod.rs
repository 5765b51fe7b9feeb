pub mod lookup;
pub mod rfind;
pub mod text;
