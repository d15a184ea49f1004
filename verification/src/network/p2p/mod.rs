pub mod peer;
