pub mod abbr;
