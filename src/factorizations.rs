pub mod lu;
