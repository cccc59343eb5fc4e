//! Appraisals of sandboxes: fresh evidence, what a trustee makes of it, and how it is shown.

pub mod claims;
pub mod json;
pub mod promises;
pub mod reference;
pub mod report;
pub mod trustee;
