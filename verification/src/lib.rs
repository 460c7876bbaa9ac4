pub mod authorize;
pub mod callback;
pub mod entrypoints;
pub mod external;
pub mod form_laws;
pub mod gravity_sketch;
pub mod live;
pub mod live_laws;
pub mod login_laws;
pub mod process;
pub mod server;
pub mod stream;
pub mod text;
pub mod tool_call;
pub mod tool_laws;
