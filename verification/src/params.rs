pub mod initializer;
pub mod param;
pub mod regularizer;
