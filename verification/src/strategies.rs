pub mod dca;
