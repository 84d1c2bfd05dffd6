pub mod admin;
pub mod recovery;
pub mod ussd;
pub mod validation;
pub mod wallet;
pub mod webhooks;
