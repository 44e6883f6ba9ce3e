pub mod text;
pub mod java;
pub mod ram;
pub mod provider;
pub mod checksum;
pub mod update;
pub mod launch;
pub mod console;
pub mod cli;
