pub mod batch;
