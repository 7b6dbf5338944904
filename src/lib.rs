//! Request translation and rate-limit bookkeeping for a photo-search API proxy.

pub mod gateway;
pub mod params;
pub mod rate_limit;
pub mod routes;
pub mod text;

pub use gateway::Unsplash;
pub use params::{Optional, Optionals, Orientation, PhotosRandom, Required, SearchPhotos};
pub use rate_limit::RateLimitTracker;
pub use routes::{Method, Route};
