//! NotebookLM integration: notebook library, chat sessions, and the decision
//! logic of the browser-driven query flow, with their contracts.
//!
//! - `library`: notebook metadata CRUD and search
//! - `session`: chat session lifecycle
//! - `persistence`: layout of the data directory
//! - `browser`: browser lifecycle state and the authentication check
//! - `auth`: authentication results
//! - `notebook`: text normalisation, readiness and response polling, delays
//! - `stealth`: Chrome launch arguments and injected script
//! - `selectors`: DOM selectors and timing constants
//! - `scripts`: JavaScript evaluated in the page
//! - `text`: lowercase folding, white space and substring matching
//! - `lookup`: first-match lookup by identifier
//! - `clock`: timestamps (microseconds since the Unix epoch)

pub mod auth;
pub mod browser;
pub mod clock;
pub mod error;
pub mod library;
pub mod lookup;
pub mod notebook;
pub mod persistence;
pub mod scripts;
pub mod selectors;
pub mod session;
pub mod stealth;
pub mod text;
pub mod types;

pub use auth::AuthResult;
pub use error::NotebookLmError;
pub use library::Library;
pub use notebook::QueryResult;
pub use session::SessionStore;
pub use types::{AuthState, HealthStatus, LibraryStats, Notebook, Session};
