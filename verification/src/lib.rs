pub mod interpreter;
