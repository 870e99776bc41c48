pub mod import;
