//! Building, combining and scheduling cross-contract promises.

pub mod types;
pub mod env;
mod sealed;
pub mod promise;
pub mod laws;

pub use types::{AccountId, Balance, Gas, GasWeight, NoReturn, PromiseIndex, PublicKey};
pub use env::{Env, EnvView, HostCall, PromiseAction, PromiseRecord};
pub use promise::{
    FunctionCallOpts, Promise, promise_and_declaration, PromiseAnd, PromiseBuilder, PromiseOrValue, PromiseThen,
    SchedulablePromise,
};
