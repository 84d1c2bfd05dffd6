pub mod phone_number;
