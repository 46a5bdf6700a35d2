use vstd::prelude::*;

verus! {

/// The link to open: a serial port or a Bluetooth Low-Energy device.
#[derive(Debug)]
pub enum Commands {
    Serial { port: String, baudrate: u32 },
    Ble { name_device: String, mtu: u16 },
}

/// The command line after parsing.
#[derive(Debug)]
pub struct Cli {
    pub command: Commands,
}

impl Cli {
    /// Runs the chosen command. Neither command does anything yet: the
    /// links are opened by the program around the library.
    pub fn exec(&self) {
        match &self.command {
            Commands::Serial { port: _, baudrate: _ } => {},
            Commands::Ble { name_device: _, mtu: _ } => {},
        }
    }
}

} // verus!
