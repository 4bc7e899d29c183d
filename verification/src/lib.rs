pub mod mac_address;
