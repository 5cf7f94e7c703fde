pub mod block;
pub mod layer;
