pub mod breez;
