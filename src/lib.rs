//! Daily outfit recommendation: eligibility-aware top choice, weighted
//! bottom sampling, rating-driven weight adjustment, and the request
//! pipeline that ties them together.
pub mod random;
pub mod wardrobe;
pub mod sampler;
pub mod rating;
pub mod combo;
