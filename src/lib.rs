//! An in-memory user directory with paginated listing, a closed error
//! taxonomy mapped to HTTP responses, and request/response log lines.
//!
//! Everything here is plain data and verified logic: the HTTP transport, the
//! lock around the store and the JSON codec live with the caller.

pub mod errors;
pub mod handlers;
pub mod logging;
pub mod store;
pub mod user;

pub use errors::{ErrorResponse, UserError};
pub use handlers::{
    create_user, delete_user, get_user, get_users, update_user, PaginatedResponse,
    PaginationParams, Reply,
};
pub use store::UserStore;
pub use user::{User, UserRequest};
