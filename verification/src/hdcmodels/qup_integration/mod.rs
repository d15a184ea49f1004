pub mod qup_error_correction;
