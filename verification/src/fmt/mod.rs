//! The module formats the library reads.
pub mod it;
pub mod s3m;
pub mod amig_mod;
pub mod xm;
pub mod umx;
