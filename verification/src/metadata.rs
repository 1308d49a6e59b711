//! Object metadata as surfaced by `stat`: a fresh record per call, marked
//! complete once fully populated.

use vstd::prelude::*;

verus! {

/// Whether an object is a file or a directory; `Unknown` only before the
/// mode has been decided.
#[derive(Clone, Copy, Debug, PartialEq, Eq, Structural)]
pub enum ObjectMode {
    FILE,
    DIR,
    Unknown,
}

/// The metadata of one object.  `content_length` stays 0 and the optional
/// fields stay absent until set; `complete` tells a fully populated record
/// apart from a partial one (such as the synthetic root directory).
#[derive(Debug)]
pub struct Metadata {
    pub path: String,
    pub content_length: u64,
    pub content_md5: Option<String>,
    pub last_modified: Option<i64>,
    pub mode: ObjectMode,
    pub complete: bool,
}

impl Metadata {
    /// A fresh, empty record.
    pub fn new() -> (m: Metadata)
        ensures
            m.path@ == Seq::<char>::empty(),
            m.content_length == 0,
            m.content_md5 is None,
            m.last_modified is None,
            m.mode == ObjectMode::Unknown,
            !m.complete,
    {
        Metadata {
            path: String::new(),
            content_length: 0,
            content_md5: None,
            last_modified: None,
            mode: ObjectMode::Unknown,
            complete: false,
        }
    }

    pub fn set_path(&mut self, path: &str)
        ensures
            *final(self) == (Metadata { path: final(self).path, ..*old(self) }),
            final(self).path@ == path@,
    {
        self.path = path.to_owned();
    }

    pub fn set_content_length(&mut self, content_length: u64)
        ensures
            *final(self) == (Metadata { content_length, ..*old(self) }),
    {
        self.content_length = content_length;
    }

    pub fn set_content_md5(&mut self, content_md5: &str)
        ensures
            *final(self) == (Metadata { content_md5: final(self).content_md5, ..*old(self) }),
            final(self).content_md5 is Some && final(self).content_md5->0@ == content_md5@,
    {
        self.content_md5 = Some(content_md5.to_owned());
    }

    pub fn set_last_modified(&mut self, last_modified: i64)
        ensures
            *final(self) == (Metadata { last_modified: Some(last_modified), ..*old(self) }),
    {
        self.last_modified = Some(last_modified);
    }

    pub fn set_mode(&mut self, mode: ObjectMode)
        ensures
            *final(self) == (Metadata { mode, ..*old(self) }),
    {
        self.mode = mode;
    }

    pub fn set_complete(&mut self)
        ensures
            *final(self) == (Metadata { complete: true, ..*old(self) }),
    {
        self.complete = true;
    }
}

} // verus!
