pub mod analyser;
pub mod scoper;
