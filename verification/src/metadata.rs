//! The index of work directories and where each keeps its sessions.
use crate::text::{append_vec, chars_of, eq_vec, join_path, path_join, string_of};
use vstd::prelude::*;

verus! {

/// What `md5::compute` gives for a text's UTF-8 bytes: the digest's bytes.
pub uninterp spec fn md5_result(data: Seq<char>) -> Seq<u8>;

/// Calls `md5::compute` on a text and hands back the digest's sixteen bytes.
/// The digest is named, not restated; that it has sixteen bytes is its type.
#[verifier::external_body]
fn md5_digest(data: &str) -> (r: Vec<u8>)
    ensures
        r@ == md5_result(data@),
        r@.len() == 16,
{
    md5::compute(data).0.to_vec()
}

/// A lower-case hexadecimal digit.
pub open spec fn hex_digit(d: u8) -> char {
    if d < 10 {
        (48 + d) as char
    } else {
        (87 + d) as char
    }
}

/// Bytes as lower-case hexadecimal, two digits each.
pub open spec fn hex_spec(bytes: Seq<u8>) -> Seq<char>
    decreases bytes.len(),
{
    if bytes.len() == 0 {
        Seq::empty()
    } else {
        hex_spec(bytes.drop_last()) + seq![hex_digit(bytes.last() / 16), hex_digit(bytes.last() % 16)]
    }
}

fn hex_digit_exec(d: u8) -> (r: char)
    requires
        d < 16,
    ensures
        r == hex_digit(d),
{
    if d < 10 {
        (48 + d) as char
    } else {
        (87 + d) as char
    }
}

fn hex_exec(bytes: &Vec<u8>) -> (r: Vec<char>)
    ensures
        r@ == hex_spec(bytes@),
{
    let mut r: Vec<char> = Vec::new();
    let mut i: usize = 0;
    while i < bytes.len()
        invariant
            i <= bytes.len(),
            r@ == hex_spec(bytes@.subrange(0, i as int)),
        decreases bytes.len() - i,
    {
        let b = bytes[i];
        r.push(hex_digit_exec(b / 16));
        r.push(hex_digit_exec(b % 16));
        assert(bytes@.subrange(0, i + 1).drop_last() =~= bytes@.subrange(0, i as int));
        assert(r@ =~= hex_spec(bytes@.subrange(0, i + 1)));
        i += 1;
    }
    assert(bytes@.subrange(0, bytes.len() as int) =~= bytes@);
    r
}

/// Metadata for a single work directory.
#[derive(Debug, Clone)]
pub struct WorkDirMeta {
    pub path: String,
    pub kaos: String,
    pub last_session_id: Option<String>,
}

/// The name of a work directory's sessions directory: the MD5 of its path
/// in hexadecimal, prefixed by its environment kind unless that is `local`.
pub open spec fn sessions_dir_name_spec(path: Seq<char>, kaos: Seq<char>) -> Seq<char> {
    let hash = hex_spec(md5_result(path));
    if kaos == "local"@ {
        hash
    } else {
        kaos + "_"@ + hash
    }
}

impl WorkDirMeta {
    /// The sessions directory's name (see `sessions_dir_name_spec`).
    pub fn sessions_dir_name(&self) -> (r: String)
        ensures
            r@ == sessions_dir_name_spec(self.path@, self.kaos@),
    {
        let hash = hex_exec(&md5_digest(self.path.as_str()));
        if eq_vec(&chars_of(self.kaos.as_str()), &chars_of("local")) {
            string_of(&hash)
        } else {
            let mut v = chars_of(self.kaos.as_str());
            append_vec(&mut v, &chars_of("_"));
            append_vec(&mut v, &hash);
            string_of(&v)
        }
    }

    /// The sessions directory under the share directory.
    pub fn sessions_dir(&self, share_dir: &str) -> (r: String)
        ensures
            r@ == path_join(path_join(share_dir@, "sessions"@), sessions_dir_name_spec(self.path@, self.kaos@)),
    {
        let base = join_path(share_dir, "sessions");
        let name = self.sessions_dir_name();
        join_path(base.as_str(), name.as_str())
    }
}

/// Global metadata index.
#[derive(Debug, Clone, Default)]
pub struct Metadata {
    pub work_dirs: Vec<WorkDirMeta>,
}

impl Metadata {
    /// Adds an entry for a local work directory and returns it.
    pub fn new_work_dir_meta(&mut self, path: String) -> (r: &WorkDirMeta)
        ensures
            final(self).work_dirs@.len() == old(self).work_dirs@.len() + 1,
            forall|i: int| 0 <= i < old(self).work_dirs@.len() ==> final(self).work_dirs@[i] == old(self).work_dirs@[i],
            r.path@ == path@,
            r.kaos@ == "local"@,
            r.last_session_id is None,
            final(self).work_dirs@.last() == *r,
    {
        self.work_dirs.push(WorkDirMeta { path, kaos: "local".to_string(), last_session_id: None });
        let n = self.work_dirs.len();
        &self.work_dirs[n - 1]
    }
}


/// The position of the first work directory entry with the given path.
pub open spec fn work_dir_pos(ws: Seq<WorkDirMeta>, path: Seq<char>) -> Option<int> {
    if exists|i: int| 0 <= i < ws.len() && ws[i].path@ == path {
        Some(choose|i: int| 0 <= i < ws.len() && ws[i].path@ == path && forall|j: int| 0 <= j < i ==> ws[j].path@ != path)
    } else {
        None
    }
}

impl Metadata {
    /// Records a new session as a work directory's last one: the first
    /// entry with that path gets it, or a new local entry is added with it.
    /// The position of the entry is returned.
    pub fn record_session(&mut self, path: String, session_id: String) -> (r: usize)
        ensures
            r < final(self).work_dirs@.len(),
            final(self).work_dirs@[r as int].path@ == path@,
            final(self).work_dirs@[r as int].last_session_id matches Some(s) && s@ == session_id@,
            match work_dir_pos(old(self).work_dirs@, path@) {
                Some(i) => {
                    &&& r == i
                    &&& final(self).work_dirs@.len() == old(self).work_dirs@.len()
                    &&& final(self).work_dirs@[i].kaos@ == old(self).work_dirs@[i].kaos@
                    &&& forall|j: int|
                        0 <= j < old(self).work_dirs@.len() && j != i ==> final(self).work_dirs@[j] == old(
                            self,
                        ).work_dirs@[j]
                },
                None => r == old(self).work_dirs@.len() && final(self).work_dirs@ == old(self).work_dirs@.push(
                    final(self).work_dirs@[r as int],
                ) && final(self).work_dirs@[r as int].kaos@ == "local"@,
            },
    {
        let mut i: usize = 0;
        while i < self.work_dirs.len()
            invariant
                i <= self.work_dirs.len(),
                self.work_dirs@ == old(self).work_dirs@,
                forall|j: int| 0 <= j < i ==> self.work_dirs@[j].path@ != path@,
            decreases self.work_dirs.len() - i,
        {
            if eq_vec(&chars_of(self.work_dirs[i].path.as_str()), &chars_of(path.as_str())) {
                proof {
                    let k = choose|k: int|
                        0 <= k < self.work_dirs@.len() && self.work_dirs@[k].path@ == path@ && forall|j: int|
                            0 <= j < k ==> self.work_dirs@[j].path@ != path@;
                    assert(k == i as int) by {
                        if k < i {
                        } else if k > i {
                            assert(self.work_dirs@[i as int].path@ == path@);
                        }
                    }
                }
                let entry = WorkDirMeta {
                    path: self.work_dirs[i].path.clone(),
                    kaos: self.work_dirs[i].kaos.clone(),
                    last_session_id: Some(session_id),
                };
                self.work_dirs.set(i, entry);
                return i;
            }
            i += 1;
        }
        self.work_dirs.push(WorkDirMeta { path, kaos: "local".to_string(), last_session_id: Some(session_id) });
        self.work_dirs.len() - 1
    }
}

} // verus!
