//! Identity-provider hooks: the user details each provider hands back, and
//! the identity matching each contributes.
pub mod facebook;
pub mod okta;
