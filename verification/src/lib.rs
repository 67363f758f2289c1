//! A fungible-token ledger with its rules proved: initialize, mint, burn,
//! transfer, approve and delegated transfer over an explicit ledger value,
//! the storage requests that each of them makes, and the laws that hold of
//! every state they can reach. Beside it stand a greeter with counters and a
//! few small routines on plain values.

pub mod address;
pub mod allowances;
pub mod assoc;
pub mod auth;
pub mod balances;
pub mod contadores;
pub mod ejercicios;
pub mod errors;
pub mod hello;
pub mod laws;
pub mod saludos;
pub mod state;
pub mod storage;
pub mod sums;
pub mod token;
