//! Response envelope types shared by every caller-facing surface.

pub mod response;

pub use response::ApiMessage;
pub use response::ApiResponse;
