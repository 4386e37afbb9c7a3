pub mod parsing;
