pub mod keyed;
pub mod numbers;
pub mod text;
