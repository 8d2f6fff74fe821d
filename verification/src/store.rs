//! The persistence gateway: profiles and file records, with fresh integer
//! keys, foreign-key checking, and insertion-order listing. The store is the
//! single point through which persisted state is read or changed; callers that
//! share it across threads wrap it in their own mutual exclusion.

use vstd::prelude::*;
use vstd::string::StringExecFns;

verus! {

/// Mathematical model of one profile row.
#[verifier::ext_equal]
pub ghost struct ProfileV {
    pub id: u64,
    pub name: Seq<char>,
    pub created_at: i64,
    pub updated_at: i64,
}

/// Mathematical model of one file record row.
#[verifier::ext_equal]
pub ghost struct FileRecordV {
    pub id: u64,
    pub file_name: Seq<char>,
    pub digest: Seq<char>,
    pub created_at: i64,
    pub updated_at: i64,
    pub profile_id: u64,
}

/// Mathematical model of the whole store: both tables in insertion order,
/// plus the next fresh key of each.
#[verifier::ext_equal]
pub ghost struct StoreV {
    pub profiles: Seq<ProfileV>,
    pub files: Seq<FileRecordV>,
    pub next_profile_id: u64,
    pub next_file_id: u64,
}

/// Whether a profile with the given key exists.
pub open spec fn has_profile(s: StoreV, profile_id: u64) -> bool {
    exists|i: int| 0 <= i < s.profiles.len() && s.profiles[i].id == profile_id
}

/// Whether creating one more profile can succeed: a fresh key is available.
pub open spec fn create_profile_ok(s: StoreV) -> bool {
    s.next_profile_id < u64::MAX
}

/// The store after a successful profile creation at time `now`.
pub open spec fn with_profile(s: StoreV, name: Seq<char>, now: i64) -> StoreV {
    StoreV {
        profiles: s.profiles.push(
            ProfileV { id: s.next_profile_id, name: name, created_at: now, updated_at: now },
        ),
        files: s.files,
        next_profile_id: (s.next_profile_id + 1) as u64,
        next_file_id: s.next_file_id,
    }
}

/// Whether inserting one more file record for the given profile can succeed:
/// the profile exists and a fresh key is available.
pub open spec fn insert_file_ok(s: StoreV, profile_id: u64) -> bool {
    has_profile(s, profile_id) && s.next_file_id < u64::MAX
}

/// The store after a successful file insertion at time `now`.
pub open spec fn with_file(
    s: StoreV,
    profile_id: u64,
    file_name: Seq<char>,
    digest: Seq<char>,
    now: i64,
) -> StoreV {
    StoreV {
        profiles: s.profiles,
        files: s.files.push(
            FileRecordV {
                id: s.next_file_id,
                file_name: file_name,
                digest: digest,
                created_at: now,
                updated_at: now,
                profile_id: profile_id,
            },
        ),
        next_profile_id: s.next_profile_id,
        next_file_id: (s.next_file_id + 1) as u64,
    }
}

/// Well-formedness: keys are below the next fresh key and strictly increasing
/// in insertion order (hence unique), and every file record references an
/// existing profile.
pub open spec fn store_wf(s: StoreV) -> bool {
    &&& (forall|i: int|
        0 <= i < s.profiles.len() ==> (#[trigger] s.profiles[i]).id < s.next_profile_id)
    &&& (forall|i: int, j: int|
        0 <= i < j < s.profiles.len() ==> (#[trigger] s.profiles[i]).id < (
        #[trigger] s.profiles[j]).id)
    &&& (forall|i: int| 0 <= i < s.files.len() ==> (#[trigger] s.files[i]).id < s.next_file_id)
    &&& (forall|i: int, j: int|
        0 <= i < j < s.files.len() ==> (#[trigger] s.files[i]).id < (#[trigger] s.files[j]).id)
    &&& (forall|i: int|
        0 <= i < s.files.len() ==> has_profile(s, (#[trigger] s.files[i]).profile_id))
}

/// A named grouping under which files are cataloged.
pub struct Profile {
    pub id: u64,
    pub name: String,
    pub created_at: i64,
    pub updated_at: i64,
}

impl Profile {
    /// The profile's name, as shown to a user.
    pub fn display_name(&self) -> (r: String)
        ensures
            r@ == self@.name,
    {
        self.name.clone()
    }
}

impl View for Profile {
    type V = ProfileV;

    open spec fn view(&self) -> ProfileV {
        ProfileV {
            id: self.id,
            name: self.name@,
            created_at: self.created_at,
            updated_at: self.updated_at,
        }
    }
}

/// One persisted entry describing a single ingested file's path and content
/// digest.
pub struct FileRecord {
    pub id: u64,
    pub file_name: String,
    pub digest: String,
    pub created_at: i64,
    pub updated_at: i64,
    pub profile_id: u64,
}

impl View for FileRecord {
    type V = FileRecordV;

    open spec fn view(&self) -> FileRecordV {
        FileRecordV {
            id: self.id,
            file_name: self.file_name@,
            digest: self.digest@,
            created_at: self.created_at,
            updated_at: self.updated_at,
            profile_id: self.profile_id,
        }
    }
}

/// Why a store operation was rejected.
#[derive(Clone, Copy, Debug, PartialEq, Eq)]
pub enum StoreError {
    /// The given profile key references no existing profile.
    ForeignKey,
    /// A backend-level constraint failed: the key space is exhausted.
    Constraint,
}

/// The views of a sequence of profiles.
pub open spec fn profiles_view(ps: Seq<Profile>) -> Seq<ProfileV> {
    ps.map_values(|p: Profile| p@)
}

/// The views of a sequence of file records.
pub open spec fn files_view(fs: Seq<FileRecord>) -> Seq<FileRecordV> {
    fs.map_values(|f: FileRecord| f@)
}

/// The file records that belong to the given profile, in stored order.
pub open spec fn files_for(files: Seq<FileRecordV>, profile_id: u64) -> Seq<FileRecordV> {
    files.filter(|f: FileRecordV| f.profile_id == profile_id)
}

proof fn lemma_files_for_push(files: Seq<FileRecordV>, f: FileRecordV, profile_id: u64)
    ensures
        files_for(files.push(f), profile_id) == if f.profile_id == profile_id {
            files_for(files, profile_id).push(f)
        } else {
            files_for(files, profile_id)
        },
{
    reveal(Seq::filter);
    assert(files.push(f).drop_last() =~= files);
}

/// Relies on chrono::Utc::now: stamps rows with the current Unix timestamp.
/// Nothing is assumed about the clock's value.
#[verifier::external_body]
fn now_timestamp() -> i64 {
    chrono::Utc::now().timestamp()
}

/// The record store. It owns the persisted state; every read or write goes
/// through one of its methods.
pub struct RecordStore {
    profiles: Vec<Profile>,
    files: Vec<FileRecord>,
    next_profile_id: u64,
    next_file_id: u64,
}

impl View for RecordStore {
    type V = StoreV;

    closed spec fn view(&self) -> StoreV {
        StoreV {
            profiles: profiles_view(self.profiles@),
            files: files_view(self.files@),
            next_profile_id: self.next_profile_id,
            next_file_id: self.next_file_id,
        }
    }
}

impl RecordStore {
    /// Well-formedness of this store's model.
    pub open spec fn wf(&self) -> bool {
        store_wf(self@)
    }

    /// An empty store; keys start at one.
    pub fn new() -> (s: Self)
        ensures
            s.wf(),
            s@.profiles == Seq::<ProfileV>::empty(),
            s@.files == Seq::<FileRecordV>::empty(),
            s@.next_profile_id == 1,
            s@.next_file_id == 1,
    {
        let s = RecordStore {
            profiles: Vec::new(),
            files: Vec::new(),
            next_profile_id: 1,
            next_file_id: 1,
        };
        proof {
            assert(s@.profiles =~= Seq::<ProfileV>::empty());
            assert(s@.files =~= Seq::<FileRecordV>::empty());
        }
        s
    }

    /// Whether a profile with the given key exists.
    pub fn contains_profile(&self, profile_id: u64) -> (r: bool)
        ensures
            r == has_profile(self@, profile_id),
    {
        let n = self.profiles.len();
        let mut i: usize = 0;
        while i < n
            invariant
                n == self.profiles@.len(),
                i <= n,
                forall|j: int| 0 <= j < i ==> self@.profiles[j].id != profile_id,
            decreases n - i,
        {
            if self.profiles[i].id == profile_id {
                assert(self@.profiles[i as int].id == profile_id);
                return true;
            }
            i = i + 1;
        }
        false
    }

    /// Creates a new profile with the given name; the store stamps both
    /// timestamps with the same clock reading. Fails only when the key space
    /// is exhausted.
    pub fn create_profile(&mut self, name: &str) -> (r: Result<(), StoreError>)
        requires
            old(self).wf(),
        ensures
            final(self).wf(),
            r is Ok <==> create_profile_ok(old(self)@),
            r is Ok ==> exists|now: i64| final(self)@ == with_profile(old(self)@, name@, now),
            r is Err ==> final(self)@ == old(self)@ && r == Err::<(), StoreError>(
                StoreError::Constraint,
            ),
    {
        if self.next_profile_id == u64::MAX {
            return Err(StoreError::Constraint);
        }
        let now = now_timestamp();
        let id = self.next_profile_id;
        self.profiles.push(
            Profile { id, name: String::from_str(name), created_at: now, updated_at: now },
        );
        self.next_profile_id = id + 1;
        proof {
            let target = with_profile(old(self)@, name@, now);
            assert(self@.profiles =~= target.profiles);
            assert(self@ =~= target);
            assert forall|i: int|
                0 <= i < self@.files.len() implies has_profile(
                self@,
                (#[trigger] self@.files[i]).profile_id,
            ) by {
                let pid = self@.files[i].profile_id;
                assert(has_profile(old(self)@, pid));
                let j = choose|j: int|
                    0 <= j < old(self)@.profiles.len() && old(self)@.profiles[j].id == pid;
                assert(self@.profiles[j].id == pid);
            }
        }
        Ok(())
    }

    /// Returns every profile, in insertion order.
    pub fn list_profiles(&self) -> (r: Vec<Profile>)
        ensures
            profiles_view(r@) == self@.profiles,
    {
        let n = self.profiles.len();
        let mut r: Vec<Profile> = Vec::new();
        let mut i: usize = 0;
        while i < n
            invariant
                n == self.profiles@.len(),
                i <= n,
                profiles_view(r@) =~= self@.profiles.take(i as int),
            decreases n - i,
        {
            proof {
                assert(profiles_view(r@).len() == r@.len());
            }
            let p = &self.profiles[i];
            r.push(
                Profile {
                    id: p.id,
                    name: p.name.clone(),
                    created_at: p.created_at,
                    updated_at: p.updated_at,
                },
            );
            proof {
                assert(profiles_view(r@) =~= self@.profiles.take(i + 1));
            }
            i = i + 1;
        }
        proof {
            assert(self@.profiles.take(n as int) =~= self@.profiles);
        }
        r
    }

    /// Inserts one file record for an existing profile; the store stamps both
    /// timestamps with the same clock reading. Fails with `ForeignKey` when
    /// the profile key references no profile — no record is added then — and
    /// with `Constraint` only when the key space is exhausted.
    pub fn insert_file(&mut self, profile_id: u64, file_name: &str, digest: &str) -> (r: Result<
        (),
        StoreError,
    >)
        requires
            old(self).wf(),
        ensures
            final(self).wf(),
            r is Ok <==> insert_file_ok(old(self)@, profile_id),
            r is Ok ==> exists|now: i64|
                final(self)@ == with_file(old(self)@, profile_id, file_name@, digest@, now),
            r is Err ==> final(self)@ == old(self)@,
            !has_profile(old(self)@, profile_id) ==> r == Err::<(), StoreError>(
                StoreError::ForeignKey,
            ),
            has_profile(old(self)@, profile_id) && old(self)@.next_file_id == u64::MAX ==> r
                == Err::<(), StoreError>(StoreError::Constraint),
    {
        if !self.contains_profile(profile_id) {
            return Err(StoreError::ForeignKey);
        }
        if self.next_file_id == u64::MAX {
            return Err(StoreError::Constraint);
        }
        let now = now_timestamp();
        let id = self.next_file_id;
        self.files.push(
            FileRecord {
                id,
                file_name: String::from_str(file_name),
                digest: String::from_str(digest),
                created_at: now,
                updated_at: now,
                profile_id,
            },
        );
        self.next_file_id = id + 1;
        proof {
            let target = with_file(old(self)@, profile_id, file_name@, digest@, now);
            assert(self@.files =~= target.files);
            assert(self@ =~= target);
            assert forall|i: int|
                0 <= i < self@.files.len() implies has_profile(
                self@,
                (#[trigger] self@.files[i]).profile_id,
            ) by {
                let pid = self@.files[i].profile_id;
                assert(has_profile(old(self)@, pid));
                let j = choose|j: int|
                    0 <= j < old(self)@.profiles.len() && old(self)@.profiles[j].id == pid;
                assert(self@.profiles[j].id == pid);
            }
        }
        Ok(())
    }

    /// Returns every file record of the given profile, in stored order.
    pub fn list_files(&self, profile_id: u64) -> (r: Vec<FileRecord>)
        ensures
            files_view(r@) == files_for(self@.files, profile_id),
    {
        let n = self.files.len();
        let mut r: Vec<FileRecord> = Vec::new();
        let mut i: usize = 0;
        while i < n
            invariant
                n == self.files@.len(),
                i <= n,
                files_view(r@) =~= files_for(self@.files.take(i as int), profile_id),
            decreases n - i,
        {
            let f = &self.files[i];
            proof {
                assert(self@.files.take(i + 1) =~= self@.files.take(i as int).push(
                    self@.files[i as int],
                ));
                lemma_files_for_push(self@.files.take(i as int), self@.files[i as int], profile_id);
            }
            if f.profile_id == profile_id {
                r.push(
                    FileRecord {
                        id: f.id,
                        file_name: f.file_name.clone(),
                        digest: f.digest.clone(),
                        created_at: f.created_at,
                        updated_at: f.updated_at,
                        profile_id: f.profile_id,
                    },
                );
                proof {
                    assert(files_view(r@) =~= files_for(self@.files.take(i + 1), profile_id));
                }
            } else {
                proof {
                    assert(files_view(r@) =~= files_for(self@.files.take(i + 1), profile_id));
                }
            }
            i = i + 1;
        }
        proof {
            assert(self@.files.take(n as int) =~= self@.files);
        }
        r
    }
}

/// No dedup guarantee: inserting the same path and digest twice into the same
/// profile appends two records that carry the same digest but distinct fresh
/// ids — re-ingestion is never merged away.
pub proof fn lemma_no_dedup(
    s: StoreV,
    profile_id: u64,
    file_name: Seq<char>,
    digest: Seq<char>,
    t1: i64,
    t2: i64,
)
    requires
        has_profile(s, profile_id),
        s.next_file_id + 1 < u64::MAX,
    ensures
        ({
            let s1 = with_file(s, profile_id, file_name, digest, t1);
            let s2 = with_file(s1, profile_id, file_name, digest, t2);
            &&& insert_file_ok(s, profile_id)
            &&& insert_file_ok(s1, profile_id)
            &&& s2.files.len() == s.files.len() + 2
            &&& s2.files[s.files.len() as int].digest == digest
            &&& s2.files[s.files.len() + 1 as int].digest == digest
            &&& s2.files[s.files.len() as int].file_name == file_name
            &&& s2.files[s.files.len() + 1 as int].file_name == file_name
            &&& s2.files[s.files.len() as int].id != s2.files[s.files.len() + 1 as int].id
        }),
{
    let i = choose|i: int| 0 <= i < s.profiles.len() && s.profiles[i].id == profile_id;
    let s1 = with_file(s, profile_id, file_name, digest, t1);
    assert(s1.profiles[i].id == profile_id);
    assert(has_profile(s1, profile_id));
}

} // verus!
