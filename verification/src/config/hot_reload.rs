//! Watching the configuration file: whether a modification time that was
//! seen calls for reading the file again. Reading the file's metadata,
//! parsing it and handing the new configuration on happen outside.

use vstd::prelude::*;

verus! {

/// A modification time: seconds and nanoseconds since the epoch.
pub type ModifiedAt = (u64, u32);

/// Whether a modification time that was read calls for reading the file
/// again: none was seen before, or it differs from the one seen last.
pub open spec fn reload_needed(last: Option<ModifiedAt>, modified: Option<ModifiedAt>) -> bool {
    modified is Some && last != modified
}

/// The file is read once per new modification time: the first time seen
/// calls for a reload, the time seen last does not, and an unreadable time
/// never does.
pub proof fn one_reload_per_change(last: Option<ModifiedAt>, m: ModifiedAt)
    ensures
        reload_needed(None, Some(m)),
        !reload_needed(Some(m), Some(m)),
        !reload_needed(last, None),
{
}

/// Watches a configuration file by its modification time.
pub struct HotReloader {
    pub config_path: String,
    /// The modification time seen last, if any
    pub last_modified: Option<ModifiedAt>,
}

impl HotReloader {
    /// A watcher of the file at `config_path` that has seen no modification
    /// time yet.
    pub fn new(config_path: &str) -> (r: Self)
        ensures
            r.config_path@ == config_path@,
            r.last_modified is None,
    {
        HotReloader { config_path: String::from_str(config_path), last_modified: None }
    }

    /// Takes note of the file's modification time, when it could be read:
    /// the file is to be read again when none was seen before or the time
    /// differs from the one seen last, and the time is then kept. Without a
    /// time nothing changes.
    pub fn observe(&mut self, modified: Option<ModifiedAt>) -> (reload: bool)
        ensures
            final(self).config_path == old(self).config_path,
            reload == reload_needed(old(self).last_modified, modified),
            final(self).last_modified == if reload {
                modified
            } else {
                old(self).last_modified
            },
    {
        match modified {
            Some(m) => {
                let changed = match self.last_modified {
                    Some(last) => last.0 != m.0 || last.1 != m.1,
                    None => true,
                };
                if changed {
                    self.last_modified = Some(m);
                }
                changed
            },
            None => false,
        }
    }
}

} // verus!
