pub mod admin_service;
pub mod fiat_service;
pub mod recovery_service;
pub mod ussd_service;
pub mod wallet_service;
