//! Artifact registry: the whole-file (non-chunked) upload path.
//!
//! A finished artifact sits at a filesystem path and is retrieved by
//! a six-digit numeric code.  The registry maps codes to paths with
//! the same create, expire and remove lifecycle as the chunk
//! registry.  A drawn code is checked against the codes already in
//! use and redrawn on a collision, so two artifacts active at once
//! never share a code.

use vstd::prelude::*;
use vstd::string::StrSliceExecFns;

use crate::codes::decimal_digits;
use crate::codes::code_to_decimal;
use crate::codes::random_fetch_code;
use crate::reassemble::url_decoded;
use crate::reassemble::resolve_destination_with_code;

verus! {

/// How often a colliding retrieval code is redrawn before the
/// creation gives up.
pub const CODE_DRAW_ATTEMPTS: usize = 32;

/// Mathematical content of one artifact record: where the file sits
/// and when the record expires.
#[verifier::ext_equal]
pub struct ArtifactModel {
    pub path: Seq<char>,
    pub deadline: u64,
}

struct ArtifactRecord {
    code: i32,
    full_path: String,
    deadline: u64,
}

impl ArtifactRecord {
    spec fn model(self) -> ArtifactModel {
        ArtifactModel { path: self.full_path@, deadline: self.deadline }
    }
}

spec fn codes_unique(s: Seq<ArtifactRecord>) -> bool {
    forall|i: int, j: int| 0 <= i < j < s.len() ==> s[i].code != s[j].code
}

spec fn artifact_map(s: Seq<ArtifactRecord>) -> Map<i32, ArtifactModel>
    decreases s.len(),
{
    if s.len() == 0 {
        Map::empty()
    } else {
        artifact_map(s.drop_last()).insert(s.last().code, s.last().model())
    }
}

proof fn lemma_artifact_map_contains(s: Seq<ArtifactRecord>, code: i32)
    ensures
        artifact_map(s).contains_key(code) <==> exists|i: int| 0 <= i < s.len() && s[i].code == code,
    decreases s.len(),
{
    if s.len() > 0 {
        lemma_artifact_map_contains(s.drop_last(), code);
        if s.last().code == code {
            assert(s[s.len() - 1].code == code);
        } else if artifact_map(s).contains_key(code) {
            let i = choose|i: int| 0 <= i < s.drop_last().len() && s.drop_last()[i].code == code;
            assert(s[i].code == code);
        } else if exists|i: int| 0 <= i < s.len() && s[i].code == code {
            let i = choose|i: int| 0 <= i < s.len() && s[i].code == code;
            assert(i < s.len() - 1);
            assert(s.drop_last()[i].code == code);
        }
    }
}

proof fn lemma_artifact_map_index(s: Seq<ArtifactRecord>, i: int)
    requires
        codes_unique(s),
        0 <= i < s.len(),
    ensures
        artifact_map(s).contains_key(s[i].code),
        artifact_map(s)[s[i].code] == s[i].model(),
    decreases s.len(),
{
    if i < s.len() - 1 {
        assert(s.drop_last()[i] == s[i]);
        lemma_artifact_map_index(s.drop_last(), i);
        assert(s[i].code != s.last().code);
    }
}

proof fn lemma_artifact_map_push(s: Seq<ArtifactRecord>, e: ArtifactRecord)
    requires
        codes_unique(s),
        forall|i: int| 0 <= i < s.len() ==> s[i].code != e.code,
    ensures
        artifact_map(s.push(e)) == artifact_map(s).insert(e.code, e.model()),
        codes_unique(s.push(e)),
{
    assert(s.push(e).drop_last() =~= s);
    assert(s.push(e).last() == e);
}

proof fn lemma_artifact_map_remove(s: Seq<ArtifactRecord>, i: int)
    requires
        codes_unique(s),
        0 <= i < s.len(),
    ensures
        artifact_map(s.remove(i)) == artifact_map(s).remove(s[i].code),
        codes_unique(s.remove(i)),
    decreases s.len(),
{
    let t = s.remove(i);
    lemma_artifact_map_contains(s.drop_last(), s[i].code);
    if i == s.len() - 1 {
        assert(t =~= s.drop_last());
        assert(!artifact_map(s.drop_last()).contains_key(s[i].code));
        assert(artifact_map(t) =~= artifact_map(s).remove(s[i].code));
    } else {
        assert(t.drop_last() =~= s.drop_last().remove(i));
        assert(t.last() == s.last());
        lemma_artifact_map_remove(s.drop_last(), i);
        assert(s[i].code != s.last().code);
        assert(artifact_map(t) =~= artifact_map(s).remove(s[i].code));
    }
}

/// The registry of finished artifacts, one per retrieval code.
pub struct ArtifactRegistry {
    records: Vec<ArtifactRecord>,
    survival_secs: u64,
}

impl View for ArtifactRegistry {
    type V = Map<i32, ArtifactModel>;

    closed spec fn view(&self) -> Map<i32, ArtifactModel> {
        artifact_map(self.records@)
    }
}

impl ArtifactRegistry {
    /// Seconds a record survives without being removed.
    pub closed spec fn survival(&self) -> u64 {
        self.survival_secs
    }

    /// Internal consistency: no code owns two records.
    pub closed spec fn wf(&self) -> bool {
        codes_unique(self.records@)
    }

    /// An empty registry whose records survive `survival_secs` seconds.
    pub fn new(survival_secs: u64) -> (r: ArtifactRegistry)
        ensures
            r.wf(),
            r@ == Map::<i32, ArtifactModel>::empty(),
            r.survival() == survival_secs,
    {
        ArtifactRegistry { records: Vec::new(), survival_secs }
    }

    /// Index of the record owning `code`, if any.
    fn find_record(&self, code: i32) -> (r: Option<usize>)
        ensures
            match r {
                Some(i) => i < self.records@.len() && self.records@[i as int].code == code,
                None => forall|j: int|
                    0 <= j < self.records@.len() ==> self.records@[j].code != code,
            },
    {
        let n = self.records.len();
        let mut i: usize = 0;
        while i < n
            invariant
                n == self.records@.len(),
                i <= n,
                forall|j: int| 0 <= j < i ==> self.records@[j].code != code,
            decreases n - i,
        {
            if self.records[i].code == code {
                return Some(i);
            }
            i = i + 1;
        }
        None
    }

    /// A code in the retrieval range that no active record uses,
    /// redrawn on collision up to `CODE_DRAW_ATTEMPTS` times.  `None`
    /// when every draw collided — the caller reports the creation as
    /// failed rather than overwrite a live record.
    pub fn fresh_code(&self) -> (r: Option<i32>)
        ensures
            match r {
                Some(code) => 100000 <= code < 1000000 && !self@.contains_key(code),
                None => true,
            },
    {
        let mut attempts: usize = 0;
        while attempts < CODE_DRAW_ATTEMPTS
            invariant
                true,
            decreases CODE_DRAW_ATTEMPTS - attempts,
        {
            let code = random_fetch_code();
            proof {
                lemma_artifact_map_contains(self.records@, code);
            }
            if self.find_record(code).is_none() {
                return Some(code);
            }
            attempts = attempts + 1;
        }
        None
    }

    /// Files the path of a finished artifact under `code`.  A code
    /// already in use is refused and nothing changes, so a live
    /// record is never overwritten; with a code from `fresh_code`
    /// under the same critical section this cannot happen.
    pub fn register_path(&mut self, code: i32, full_path: &str, now: u64) -> (r: bool)
        requires
            old(self).wf(),
            now + old(self).survival() <= u64::MAX,
        ensures
            final(self).wf(),
            final(self).survival() == old(self).survival(),
            r == !old(self)@.contains_key(code),
            final(self)@ == if r {
                old(self)@.insert(
                    code,
                    ArtifactModel {
                        path: full_path@,
                        deadline: (now + old(self).survival()) as u64,
                    },
                )
            } else {
                old(self)@
            },
    {
        proof {
            lemma_artifact_map_contains(self.records@, code);
        }
        match self.find_record(code) {
            Some(_) => false,
            None => {
                let record = ArtifactRecord {
                    code,
                    full_path: String::from_str(full_path),
                    deadline: now + self.survival_secs,
                };
                proof {
                    lemma_artifact_map_push(self.records@, record);
                }
                self.records.push(record);
                true
            },
        }
    }

    /// Creates the record for one whole-file upload: draws a fresh
    /// code, derives the artifact's path from the decoded filename
    /// hint with the code appended, and files it.  `None` — with the
    /// registry unchanged — when the hint does not decode or no fresh
    /// code was found; never a clobbered record.
    pub fn create_artifact(
        &mut self,
        base_path: &str,
        encoded_filename: &str,
        now: u64,
    ) -> (r: Option<(i32, String)>)
        requires
            old(self).wf(),
            now + old(self).survival() <= u64::MAX,
        ensures
            final(self).wf(),
            final(self).survival() == old(self).survival(),
            match r {
                Some(cp) => {
                    &&& 100000 <= cp.0 < 1000000
                    &&& !old(self)@.contains_key(cp.0)
                    &&& cp.1@ == base_path@ + url_decoded(encoded_filename@) + decimal_digits(
                        cp.0 as nat,
                    )
                    &&& final(self)@ == old(self)@.insert(
                        cp.0,
                        ArtifactModel {
                            path: cp.1@,
                            deadline: (now + old(self).survival()) as u64,
                        },
                    )
                },
                None => final(self)@ == old(self)@,
            },
    {
        let code = match self.fresh_code() {
            Some(code) => code,
            None => {
                return None;
            },
        };
        let full_path = match resolve_destination_with_code(base_path, encoded_filename, code) {
            Some(p) => p,
            None => {
                return None;
            },
        };
        let registered = self.register_path(code, full_path.as_str(), now);
        assert(registered);
        Some((code, full_path))
    }

    /// The path filed under `code`, for retrieval by a downloader;
    /// `None` exactly when the code names no active record.
    pub fn lookup(&self, code: i32) -> (r: Option<String>)
        requires
            self.wf(),
        ensures
            match r {
                Some(p) => self@.contains_key(code) && p@ == self@[code].path,
                None => !self@.contains_key(code),
            },
    {
        proof {
            lemma_artifact_map_contains(self.records@, code);
        }
        match self.find_record(code) {
            Some(i) => {
                proof {
                    lemma_artifact_map_index(self.records@, i as int);
                }
                Some(self.records[i].full_path.clone())
            },
            None => None,
        }
    }

    /// Deletes the record; an absent code is an idempotent no-op.
    pub fn remove(&mut self, code: i32) -> (r: bool)
        requires
            old(self).wf(),
        ensures
            final(self).wf(),
            final(self).survival() == old(self).survival(),
            r == old(self)@.contains_key(code),
            final(self)@ == old(self)@.remove(code),
    {
        proof {
            lemma_artifact_map_contains(self.records@, code);
        }
        match self.find_record(code) {
            Some(i) => {
                proof {
                    lemma_artifact_map_remove(self.records@, i as int);
                }
                self.records.remove(i);
                assert(self@ =~~= old(self)@.remove(code));
                true
            },
            None => {
                assert(self@ =~~= old(self)@.remove(code));
                false
            },
        }
    }

    /// Reclamation step for one code, run when its survival window
    /// may have elapsed: a record past its deadline is removed and
    /// its path returned so the caller deletes the backing file.  A
    /// record already removed (fetched and cleaned up, or never
    /// created) makes this a no-op.
    pub fn expire_code(&mut self, code: i32, now: u64) -> (r: Option<String>)
        requires
            old(self).wf(),
        ensures
            final(self).wf(),
            final(self).survival() == old(self).survival(),
            match r {
                Some(p) => {
                    &&& old(self)@.contains_key(code)
                    &&& old(self)@[code].deadline <= now
                    &&& p@ == old(self)@[code].path
                    &&& final(self)@ == old(self)@.remove(code)
                },
                None => {
                    &&& final(self)@ == old(self)@
                    &&& old(self)@.contains_key(code) ==> old(self)@[code].deadline > now
                },
            },
    {
        proof {
            lemma_artifact_map_contains(self.records@, code);
        }
        match self.find_record(code) {
            Some(i) => {
                proof {
                    lemma_artifact_map_index(self.records@, i as int);
                }
                if self.records[i].deadline <= now {
                    let path = self.records[i].full_path.clone();
                    proof {
                        lemma_artifact_map_remove(self.records@, i as int);
                    }
                    self.records.remove(i);
                    assert(self@ =~~= old(self)@.remove(code));
                    Some(path)
                } else {
                    None
                }
            },
            None => None,
        }
    }
}

/// Index of the last path separator in `s`, `-1` when there is none.
pub open spec fn last_slash_at(s: Seq<char>) -> int
    decreases s.len(),
{
    if s.len() == 0 {
        -1
    } else if s.last() == '/' {
        s.len() - 1
    } else {
        last_slash_at(s.drop_last())
    }
}

/// The name a downloaded artifact is served under.
pub open spec fn default_filename() -> Seq<char> {
    "defaultName"@
}

/// The filename shown to a downloader: from the last path separator
/// (inclusive) up to the six-digit retrieval code that ends every
/// stored path; the fixed default when the path has no separator or
/// is too short to strip the code from.
pub open spec fn display_filename_view(path: Seq<char>) -> Seq<char> {
    let i = last_slash_at(path);
    if 0 <= i && i + 6 <= path.len() {
        path.subrange(i, path.len() - 6)
    } else {
        default_filename()
    }
}

proof fn lemma_last_slash_at_position(s: Seq<char>, j: int)
    requires
        0 <= j < s.len(),
        s[j] == '/',
        forall|k: int| j < k < s.len() ==> s[k] != '/',
    ensures
        last_slash_at(s) == j,
    decreases s.len(),
{
    if j == s.len() - 1 {
    } else {
        assert(s.last() != '/');
        assert(s.drop_last()[j] == '/');
        lemma_last_slash_at_position(s.drop_last(), j);
    }
}

proof fn lemma_last_slash_at_absent(s: Seq<char>)
    requires
        forall|k: int| 0 <= k < s.len() ==> s[k] != '/',
    ensures
        last_slash_at(s) == -1,
    decreases s.len(),
{
    if s.len() > 0 {
        lemma_last_slash_at_absent(s.drop_last());
    }
}

/// Computes the served filename of a stored artifact path.
pub fn display_filename(full_path: &str) -> (r: String)
    ensures
        r@ == display_filename_view(full_path@),
{
    let n = full_path.unicode_len();
    let mut found: Option<usize> = None;
    let mut j: usize = 0;
    while j < n
        invariant
            n == full_path@.len(),
            j <= n,
            match found {
                Some(f) => f < j && full_path@[f as int] == '/' && forall|k: int|
                    f < k < j ==> full_path@[k] != '/',
                None => forall|k: int| 0 <= k < j ==> full_path@[k] != '/',
            },
        decreases n - j,
    {
        if full_path.get_char(j) == '/' {
            found = Some(j);
        }
        j = j + 1;
    }
    match found {
        Some(f) => {
            proof {
                lemma_last_slash_at_position(full_path@, f as int);
            }
            if n >= 6 && f <= n - 6 {
                let name = full_path.substring_char(f, n - 6);
                String::from_str(name)
            } else {
                String::from_str("defaultName")
            }
        },
        None => {
            proof {
                lemma_last_slash_at_absent(full_path@);
            }
            String::from_str("defaultName")
        },
    }
}

} // verus!
