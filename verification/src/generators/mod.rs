pub mod vanilla;
