//! An in-memory store inventory: a ledger of products addressed by position,
//! with the decimal text that its report is made of.

pub mod account;
pub mod decimal;
pub mod exception;
pub mod inventory;
pub mod menu;
pub mod password;
pub mod price;
pub mod product;
pub mod text;
