pub mod division;
pub mod quiz;
pub mod text;
pub mod view;
