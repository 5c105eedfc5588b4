//! The calls a contract makes to its host: each request is encoded and framed
//! into the shared buffer, and each reply read back from it is interpreted here.

pub mod native_amount;

pub use native_amount::{Amount, NativeAmount};
pub mod native_address;

pub use native_address::{Address, NativeAddress};
pub mod generate_event;

pub use generate_event::generate_event;
pub mod call;

pub use call::{call_request, call_result};
pub mod create_sc;
pub mod transfer_coins;
pub mod abort;
pub mod decode;

pub use create_sc::{create_sc_request, create_sc_result};
pub use transfer_coins::transfer_coins_request;
pub use abort::abort_request;
pub use native_address::{native_address_to_string_request, native_address_to_string_result};
