
pub mod app;
pub mod canvas;
pub mod progressive;
pub mod screenshot;
