pub mod flylang;
