pub mod client_end;
pub mod server_end;
