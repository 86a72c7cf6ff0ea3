//! Configuration of a conversion.

use vstd::prelude::*;
use vstd::string::*;
use crate::text::{decimal64, decimal_chars};

verus! {

/// Version of the converter.
pub const VERSION: &'static str = "1.90-Beta";

/// Where a conversion keeps its working files.
#[derive(Debug, Clone)]
pub struct Config {
    pub work_path: String,
}

/// The name of the working directory made at time `stamp` below `temp_base`.
pub open spec fn work_dir_name(temp_base: Seq<char>, stamp: nat) -> Seq<char> {
    temp_base + "/ViceSnapshotConvert."@ + decimal_chars(stamp)
}

impl Config {
    /// A configuration with the working directory `work_path`.
    pub fn new(work_path: &str) -> (r: Self)
        ensures
            r.work_path@ == work_path@,
    {
        Config { work_path: String::from_str(work_path) }
    }

    /// The working directory.
    pub fn work_str(&self) -> (r: &str)
        ensures
            r@ == self.work_path@,
    {
        self.work_path.as_str()
    }

    /// A configuration with a working directory of its own below
    /// `temp_base`, named after the time `stamp`.
    pub fn auto(temp_base: &str, stamp: u64) -> (r: Self)
        ensures
            r.work_path@ == work_dir_name(temp_base@, stamp as nat),
    {
        let mut path = String::from_str(temp_base);
        path.append("/ViceSnapshotConvert.");
        path.append(decimal64(stamp).as_str());
        Config { work_path: path }
    }
}

/// Configuration of a cartridge conversion.
#[derive(Debug, Clone)]
pub struct CrtConfig {
    /// Where the conversion keeps its working files.
    pub base_config: Config,
    /// Directory of the files to embed, if any.
    pub include_dir: Option<String>,
    /// Address of the load/save trampoline, if it is fixed.
    pub trampoline_address: Option<u16>,
    /// Whether the trampoline is placed by the stack pointer.
    pub auto_location: bool,
    /// Name of the cartridge, at most 32 characters.
    pub cartridge_name: Option<String>,
    /// Whether the load and save vectors are hooked.
    pub patch_load_save: bool,
}

impl CrtConfig {
    /// A configuration without embedded files, with the trampoline placed
    /// automatically, and without a name.
    pub fn new(base_config: Config) -> (r: Self)
        ensures
            r.base_config == base_config,
            r.include_dir is None,
            r.trampoline_address is None,
            r.auto_location,
            r.cartridge_name is None,
            !r.patch_load_save,
    {
        CrtConfig {
            base_config,
            include_dir: None,
            trampoline_address: None,
            auto_location: true,
            cartridge_name: None,
            patch_load_save: false,
        }
    }

    /// As `new`, with a working directory of its own below `temp_base`.
    pub fn auto(temp_base: &str, stamp: u64) -> (r: Self)
        ensures
            r.base_config.work_path@ == work_dir_name(temp_base@, stamp as nat),
            r.include_dir is None,
            r.trampoline_address is None,
            r.auto_location,
            r.cartridge_name is None,
            !r.patch_load_save,
    {
        Self::new(Config::auto(temp_base, stamp))
    }

    /// Sets the directory of the files to embed, and hooks load and save.
    pub fn with_include_dir(self, dir: &str) -> (r: Self)
        ensures
            r.include_dir matches Some(d) && d@ == dir@,
            r.patch_load_save,
            r.base_config == self.base_config,
            r.trampoline_address == self.trampoline_address,
            r.auto_location == self.auto_location,
            r.cartridge_name == self.cartridge_name,
    {
        let mut r = self;
        r.include_dir = Some(String::from_str(dir));
        r.patch_load_save = true;
        r
    }

    /// Fixes the address of the trampoline.
    pub fn with_trampoline_address(self, addr: u16) -> (r: Self)
        ensures
            r.trampoline_address == Some(addr),
            !r.auto_location,
            r.base_config == self.base_config,
            r.include_dir == self.include_dir,
            r.cartridge_name == self.cartridge_name,
            r.patch_load_save == self.patch_load_save,
    {
        let mut r = self;
        r.trampoline_address = Some(addr);
        r.auto_location = false;
        r
    }

    /// Sets the name of the cartridge.
    pub fn with_cartridge_name(self, name: &str) -> (r: Self)
        ensures
            r.cartridge_name matches Some(n) && n@ == name@,
            r.base_config == self.base_config,
            r.include_dir == self.include_dir,
            r.trampoline_address == self.trampoline_address,
            r.auto_location == self.auto_location,
            r.patch_load_save == self.patch_load_save,
    {
        let mut r = self;
        r.cartridge_name = Some(String::from_str(name));
        r
    }

    /// Switches the hooking of load and save on or off.
    pub fn with_patch_load_save(self, enabled: bool) -> (r: Self)
        ensures
            r.patch_load_save == enabled,
            r.base_config == self.base_config,
            r.include_dir == self.include_dir,
            r.trampoline_address == self.trampoline_address,
            r.auto_location == self.auto_location,
            r.cartridge_name == self.cartridge_name,
    {
        let mut r = self;
        r.patch_load_save = enabled;
        r
    }
}

} // verus!
