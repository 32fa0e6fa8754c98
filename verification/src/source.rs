pub mod csv_transaction;
