pub mod state_sync;
