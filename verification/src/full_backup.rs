//! The options of a backup run.

use vstd::prelude::*;

verus! {

/// The caller-chosen knobs of one backup run: where the mirror lives,
/// whether failures are skipped or fatal, whether existing files may be
/// overwritten, and whether only changed documents are downloaded.
pub struct BackupOptions {
    pub out_path: String,
    pub udp_mode: bool,
    pub override_mode: bool,
    pub smart_mode: bool,
}

impl BackupOptions {
    /// Smart mode forces override mode, so that a document the remote
    /// modified after the last backup can replace its mirror file.
    pub fn normalized(self) -> (r: BackupOptions)
        ensures
            r.override_mode == (self.override_mode || self.smart_mode),
            r.out_path == self.out_path,
            r.udp_mode == self.udp_mode,
            r.smart_mode == self.smart_mode,
    {
        if self.smart_mode && !self.override_mode {
            BackupOptions { override_mode: true, ..self }
        } else {
            self
        }
    }
}

} // verus!
