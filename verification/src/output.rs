pub mod csv_output;
