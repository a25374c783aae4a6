//! DSPRE project directories and the configuration records of ds-rom-tool
//! projects.
use vstd::prelude::*;
use crate::error::{UxieError, ErrorKind};
use crate::path::{join, path_join};
use crate::text::{dec, dec_padded, push_dec, push_str, u64_to_padded};

verus! {

/// A DSPRE project: a directory with an `unpacked` directory of extracted
/// ROM data.
#[derive(Debug, Clone)]
pub struct DspreProject {
    pub root: String,
}

/// The unpacked data directory of a project root.
pub open spec fn dspre_unpacked(root: Seq<char>) -> Seq<char> {
    path_join(root, "unpacked"@)
}

/// The message of the error for a root without an `unpacked` directory.
pub open spec fn not_dspre_msg() -> Seq<char> {
    "Not a DSPRE project (missing 'unpacked' directory)"@
}

impl DspreProject {
    /// Open the project at `root`; `has_unpacked` tells whether
    /// `root/unpacked` exists. Without it the root is not a DSPRE project.
    pub fn open(root: &str, has_unpacked: bool) -> (r: Result<Self, UxieError>)
        ensures
            has_unpacked ==> (r matches Ok(p) && p.root@ == root@),
            !has_unpacked ==> (r matches Err(e) && e matches UxieError::Io { kind, message }
                && kind == ErrorKind::NotFound && message@ == not_dspre_msg()),
    {
        if !has_unpacked {
            return Err(UxieError::Io {
                kind: ErrorKind::NotFound,
                message: String::from_str("Not a DSPRE project (missing 'unpacked' directory)"),
            });
        }
        let mut r = String::new();
        push_str(&mut r, root);
        Ok(DspreProject { root: r })
    }

    pub fn unpacked_dir(&self) -> (r: String)
        ensures
            r@ == dspre_unpacked(self.root@),
    {
        join(self.root.as_str(), "unpacked")
    }

    pub fn scripts_dir(&self) -> (r: String)
        ensures
            r@ == path_join(dspre_unpacked(self.root@), "scripts"@),
    {
        let u = self.unpacked_dir();
        join(u.as_str(), "scripts")
    }

    pub fn text_archives_dir(&self) -> (r: String)
        ensures
            r@ == path_join(dspre_unpacked(self.root@), "textArchives"@),
    {
        let u = self.unpacked_dir();
        join(u.as_str(), "textArchives")
    }

    pub fn event_files_dir(&self) -> (r: String)
        ensures
            r@ == path_join(dspre_unpacked(self.root@), "eventFiles"@),
    {
        let u = self.unpacked_dir();
        join(u.as_str(), "eventFiles")
    }

    pub fn dynamic_headers_dir(&self) -> (r: String)
        ensures
            r@ == path_join(dspre_unpacked(self.root@), "dynamicHeaders"@),
    {
        let u = self.unpacked_dir();
        join(u.as_str(), "dynamicHeaders")
    }

    pub fn maps_dir(&self) -> (r: String)
        ensures
            r@ == path_join(dspre_unpacked(self.root@), "maps"@),
    {
        let u = self.unpacked_dir();
        join(u.as_str(), "maps")
    }

    pub fn matrices_dir(&self) -> (r: String)
        ensures
            r@ == path_join(dspre_unpacked(self.root@), "matrices"@),
    {
        let u = self.unpacked_dir();
        join(u.as_str(), "matrices")
    }

    pub fn learnsets_dir(&self) -> (r: String)
        ensures
            r@ == path_join(dspre_unpacked(self.root@), "learnsets"@),
    {
        let u = self.unpacked_dir();
        join(u.as_str(), "learnsets")
    }

    pub fn personal_poke_data_dir(&self) -> (r: String)
        ensures
            r@ == path_join(dspre_unpacked(self.root@), "personalPokeData"@),
    {
        let u = self.unpacked_dir();
        join(u.as_str(), "personalPokeData")
    }

    pub fn trainer_properties_dir(&self) -> (r: String)
        ensures
            r@ == path_join(dspre_unpacked(self.root@), "trainerProperties"@),
    {
        let u = self.unpacked_dir();
        join(u.as_str(), "trainerProperties")
    }

    pub fn trainer_party_dir(&self) -> (r: String)
        ensures
            r@ == path_join(dspre_unpacked(self.root@), "trainerParty"@),
    {
        let u = self.unpacked_dir();
        join(u.as_str(), "trainerParty")
    }

    pub fn area_data_dir(&self) -> (r: String)
        ensures
            r@ == path_join(dspre_unpacked(self.root@), "areaData"@),
    {
        let u = self.unpacked_dir();
        join(u.as_str(), "areaData")
    }

    /// The file of `id`, named by the id in at least four digits.
    pub fn script_file_path(&self, id: u16) -> (r: String)
        ensures
            r@ == path_join(path_join(dspre_unpacked(self.root@), "scripts"@), dec_padded(id as nat, 4)),
    {
        let d = self.scripts_dir();
        let name = u64_to_padded(id as u64, 4);
        join(d.as_str(), name.as_str())
    }

    /// The file of `id`, named by the id in at least four digits.
    pub fn text_archive_path(&self, id: u16) -> (r: String)
        ensures
            r@ == path_join(path_join(dspre_unpacked(self.root@), "textArchives"@), dec_padded(id as nat, 4)),
    {
        let d = self.text_archives_dir();
        let name = u64_to_padded(id as u64, 4);
        join(d.as_str(), name.as_str())
    }

    /// The file of `id`, named by the id in at least four digits.
    pub fn event_file_path(&self, id: u16) -> (r: String)
        ensures
            r@ == path_join(path_join(dspre_unpacked(self.root@), "eventFiles"@), dec_padded(id as nat, 4)),
    {
        let d = self.event_files_dir();
        let name = u64_to_padded(id as u64, 4);
        join(d.as_str(), name.as_str())
    }

    /// The file of `id`, named by the id in at least four digits.
    pub fn dynamic_header_path(&self, id: u16) -> (r: String)
        ensures
            r@ == path_join(path_join(dspre_unpacked(self.root@), "dynamicHeaders"@), dec_padded(id as nat, 4)),
    {
        let d = self.dynamic_headers_dir();
        let name = u64_to_padded(id as u64, 4);
        join(d.as_str(), name.as_str())
    }
}

/// The ARM9 section of a ds-rom-tool project.
#[derive(Debug, Clone)]
pub struct DsRomArm9Config {
    pub base_address: u32,
    pub entry_function: u32,
    pub build_info: u32,
    pub autoload_callback: u32,
    pub overlay_signatures: u32,
    pub encrypted: bool,
    pub compressed: bool,
    pub bss_start: u32,
    pub bss_end: u32,
    pub sdk_version: u32,
}

/// `major.minor.patch` of an SDK version word: bits 24..32, 16..24 and
/// 0..16.
pub open spec fn sdk_version_text(v: u32) -> Seq<char> {
    dec(((v >> 24) & 0xFF) as nat) + "."@ + dec(((v >> 16) & 0xFF) as nat) + "."@ + dec((v & 0xFFFF) as nat)
}

impl DsRomArm9Config {
    /// The SDK version as `major.minor.patch`.
    pub fn sdk_version_string(&self) -> (s: String)
        ensures
            s@ == sdk_version_text(self.sdk_version),
    {
        let major = (self.sdk_version >> 24) & 0xFF;
        let minor = (self.sdk_version >> 16) & 0xFF;
        let patch = self.sdk_version & 0xFFFF;
        let mut s = String::new();
        push_dec(&mut s, major as u64);
        push_str(&mut s, ".");
        push_dec(&mut s, minor as u64);
        push_str(&mut s, ".");
        push_dec(&mut s, patch as u64);
        s
    }
}

/// The ARM7 section of a ds-rom-tool project.
#[derive(Debug, Clone)]
pub struct DsRomArm7Config {
    pub base_address: u32,
    pub entry_function: u32,
    pub encrypted: bool,
    pub compressed: bool,
    pub bss_start: u32,
    pub bss_end: u32,
}

/// A tightly coupled memory section of a ds-rom-tool project.
#[derive(Debug, Clone)]
pub struct DsRomTcmConfig {
    pub base_address: u32,
    pub compressed: bool,
}

} // verus!
