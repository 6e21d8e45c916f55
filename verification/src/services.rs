//! One module per provider service, each with the reports it offers.

pub mod ec2;
pub mod iam;
pub mod s3;
pub mod sts;
