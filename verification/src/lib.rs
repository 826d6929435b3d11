//! An authentication service core: credential verification, session tokens,
//! role resolution, and user registration.
//!
//! The library is organised around two stores. The user store holds the user
//! rows and their role rows (one role per user) and enforces the schema's
//! uniqueness rules. The token store maps opaque session tokens to sessions.
//! The `AuthServer` facade owns both and dispatches the request kinds:
//! authenticate, deauthenticate, register, role lookup and role assignment.
//!
//! Password hashing and verification go through the `pbkdf2` crate, token
//! material through `rand` and `base64`, and timestamps through `chrono`;
//! each such call stands behind a small trusted wrapper whose contract the
//! rest of the library is proved against.

pub mod error;
pub mod laws;
pub mod pass_funcs;
pub mod role;
pub mod service;
pub mod token;
pub mod token_store;
pub mod user_store;
