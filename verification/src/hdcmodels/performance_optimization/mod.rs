pub mod profiling;
