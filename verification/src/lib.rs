//! Core logic of the authentication service, verified with Verus.
//!
//! The heart of the crate is [`queue`]: a background job queue in which
//! workers lease jobs for a bounded time, so that no job runs twice at once,
//! none is lost, and retries are bounded. Around it stand a few small pieces
//! of the service: the filters of the claim-mapping templates, the check that
//! all templates are loaded, and the registration link.

pub mod filters;
pub mod iana;
pub mod queue;
pub mod register;
pub mod templates;
