use vstd::prelude::*;

verus! {

/// Tracks the modification time of the game-logic script, so that the script
/// is rebuilt exactly when the file has changed since it was last built.
/// Times are nanoseconds since the Unix epoch (negative before it).
pub struct ScriptWatch {
    last_modified: i128,
}

impl ScriptWatch {
    /// The modification time of the script as last built.
    pub closed spec fn built_at(&self) -> i128 {
        self.last_modified
    }

    /// A watch for a script built from the file as modified at `modified`.
    pub fn new(modified: i128) -> (w: Self)
        ensures
            w.built_at() == modified,
    {
        ScriptWatch { last_modified: modified }
    }

    /// The modification time of the script as last built.
    pub fn last_modified(&self) -> (t: i128)
        ensures
            t == self.built_at(),
    {
        self.last_modified
    }

    /// Given the file's current modification time (`None` where it could not
    /// be read), says whether the script must be rebuilt: exactly when the
    /// file is newer than the build. A rebuild is recorded as done at that
    /// time, whether or not it then succeeds, so a broken script is not
    /// rebuilt again until the file changes once more.
    pub fn needs_rebuild(&mut self, modified: Option<i128>) -> (rebuild: bool)
        ensures
            rebuild == (modified matches Some(m) && m > old(self).built_at()),
            rebuild ==> final(self).built_at() == modified->0,
            !rebuild ==> final(self).built_at() == old(self).built_at(),
    {
        match modified {
            Some(m) => {
                if m > self.last_modified {
                    self.last_modified = m;
                    true
                } else {
                    false
                }
            },
            None => false,
        }
    }
}

} // verus!
