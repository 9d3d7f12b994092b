pub mod account;
pub mod account_laws;
pub mod codec;
pub mod constants;
pub mod error;
pub mod instructions;
pub mod keys;
pub mod laws;
pub mod layout;
pub mod processor;
pub mod state;
pub mod validation;
pub mod vault;
pub mod seeds;
