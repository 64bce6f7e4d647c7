//! Deferred account rewrites: jobs are keyed by platform and account (and by
//! source file when the job is bound to the file's content), and a key that is
//! already pending is not queued a second time.
//!
//! The worker that runs the jobs and the bounded channel that feeds it belong
//! to the caller; this module decides which key a job has, whether it is
//! queued, and what becomes of the key once the send is tried or the job ran.
use vstd::prelude::*;
use crate::digest::{sha256, sha256_bytes};
use crate::text::{concat_str, chars_of, str_eq, copy_string, texts, lit};

verus! {

broadcast use vstd::string::group_string_axioms;

/// How many jobs the worker's channel holds.
pub const REWRITE_QUEUE_CAPACITY: usize = 256;

/// The keys of the jobs that are queued or running.
pub struct PendingKeys {
    keys: Vec<String>,
}

impl PendingKeys {
    /// The set of pending keys.
    pub closed spec fn view(&self) -> Set<Seq<char>> {
        texts(self.keys@).to_set()
    }

    /// No key is held twice.
    pub closed spec fn wf(&self) -> bool {
        texts(self.keys@).no_duplicates()
    }

    /// No job is pending.
    pub fn new() -> (r: PendingKeys)
        ensures
            r.wf(),
            r.view() == Set::<Seq<char>>::empty(),
    {
        let r = PendingKeys { keys: Vec::new() };
        proof {
            assert(texts(r.keys@) =~= Seq::<Seq<char>>::empty());
            assert(texts(r.keys@).to_set() =~= Set::<Seq<char>>::empty());
        }
        r
    }

    fn position(&self, key: &str) -> (r: Option<usize>)
        ensures
            match r {
                Some(i) => i < self.keys@.len() && self.keys@[i as int]@ == key@,
                None => !self.view().contains(key@),
            },
    {
        let mut i: usize = 0;
        while i < self.keys.len()
            invariant
                i <= self.keys@.len(),
                forall|j: int| 0 <= j < i ==> #[trigger] self.keys@[j]@ != key@,
            decreases self.keys@.len() - i,
        {
            if str_eq(self.keys[i].as_str(), key) {
                return Some(i);
            }
            i = i + 1;
        }
        proof {
            if self.view().contains(key@) {
                let k = texts(self.keys@).index_of(key@);
                assert(texts(self.keys@)[k] == key@);
                assert(self.keys@[k]@ == key@);
            }
        }
        None
    }

    /// Whether a key is pending.
    pub fn contains(&self, key: &str) -> (r: bool)
        ensures
            r == self.view().contains(key@),
    {
        match self.position(key) {
            Some(i) => {
                proof {
                    assert(texts(self.keys@)[i as int] == key@);
                }
                true
            },
            None => false,
        }
    }

    /// Takes the key for a new job: `true` when it was not pending (and now
    /// is), `false` when a job with that key is already pending.
    pub fn try_reserve(&mut self, key: &str) -> (r: bool)
        requires
            old(self).wf(),
        ensures
            final(self).wf(),
            r == !old(self).view().contains(key@),
            final(self).view() == old(self).view().insert(key@),
    {
        if self.contains(key) {
            proof {
                assert(old(self).view().insert(key@) =~= old(self).view());
            }
            return false;
        }
        let ghost before = texts(self.keys@);
        self.keys.push(lit(key));
        proof {
            let after = texts(self.keys@);
            assert(after =~= before.push(key@));
            assert forall|x: Seq<char>| #[trigger] after.to_set().contains(x)
                <==> before.to_set().insert(key@).contains(x) by {
                if x == key@ {
                    assert(after[before.len() as int] == x);
                } else if before.to_set().contains(x) {
                    let k = before.index_of(x);
                    assert(after[k] == x);
                }
                if after.to_set().contains(x) {
                    let k = after.index_of(x);
                    if k < before.len() {
                        assert(before[k] == x);
                    }
                }
            }
            assert(after.to_set() =~= before.to_set().insert(key@));
            assert forall|a: int, b: int| 0 <= a < after.len() && 0 <= b < after.len() && a != b
                implies #[trigger] after[a] != #[trigger] after[b] by {
                if a < before.len() && b < before.len() {
                } else if a < before.len() {
                    assert(before.to_set().contains(before[a]));
                } else {
                    assert(before.to_set().contains(before[b]));
                }
            }
        }
        true
    }

    /// Gives a key back: it is no longer pending.
    pub fn release(&mut self, key: &str)
        requires
            old(self).wf(),
        ensures
            final(self).wf(),
            final(self).view() == old(self).view().remove(key@),
    {
        match self.position(key) {
            None => {
                proof {
                    assert(old(self).view().remove(key@) =~= old(self).view());
                }
            },
            Some(i) => {
                let ghost before = texts(self.keys@);
                self.keys.remove(i);
                proof {
                    assert(texts(self.keys@) =~= before.remove(i as int));
                    let after = texts(self.keys@);
                    assert forall|a: int, b: int| 0 <= a < after.len() && 0 <= b < after.len() && a != b
                        implies #[trigger] after[a] != #[trigger] after[b] by {
                        let a2 = if a < i { a } else { a + 1 };
                        let b2 = if b < i { b } else { b + 1 };
                        assert(after[a] == before[a2]);
                        assert(after[b] == before[b2]);
                    }
                    assert(texts(self.keys@).to_set() =~= before.to_set().remove(key@)) by {
                        assert forall|x: Seq<char>| #[trigger] texts(self.keys@).to_set().contains(x)
                            <==> before.to_set().remove(key@).contains(x) by {
                            if before.to_set().remove(key@).contains(x) {
                                let k = before.index_of(x);
                                assert(k != i);
                                if k < i {
                                    assert(texts(self.keys@)[k] == x);
                                } else {
                                    assert(texts(self.keys@)[k - 1] == x);
                                }
                            }
                            if texts(self.keys@).to_set().contains(x) {
                                let k = texts(self.keys@).index_of(x);
                                let k2 = if k < i { k } else { k + 1 };
                                assert(before[k2] == x);
                                assert(before[i as int] == key@);
                                assert(k2 != i as int);
                                assert(before.to_set().contains(x));
                            }
                        }
                    }
                }
            },
        }
    }
}

/// What trying to hand a job to the worker's channel gave.
#[derive(Debug, Clone, Copy, PartialEq, Eq, Structural)]
pub enum SendOutcome {
    Sent,
    Full,
    Disconnected,
}

/// The key of a job for an account: `platform:account_id`.
pub open spec fn account_job_key(platform: Seq<char>, account_id: Seq<char>) -> Seq<char> {
    platform + ":"@ + account_id
}

/// The key of a job bound to a source file: `platform:account_id:path`.
pub open spec fn file_job_key(platform: Seq<char>, account_id: Seq<char>, path: Seq<char>) -> Seq<
    char,
> {
    platform + ":"@ + account_id + ":"@ + path
}

/// Scheduling a key against a set of pending keys: whether a job is queued,
/// and the pending keys afterwards.
pub open spec fn schedule_spec(pending: Set<Seq<char>>, key: Seq<char>) -> (bool, Set<Seq<char>>) {
    (!pending.contains(key), pending.insert(key))
}

/// The pending keys once a send was tried: a job that did not reach the worker
/// gives its key back.
pub open spec fn after_send_spec(pending: Set<Seq<char>>, key: Seq<char>, outcome: SendOutcome) -> Set<
    Seq<char>,
> {
    if outcome == SendOutcome::Sent {
        pending
    } else {
        pending.remove(key)
    }
}

/// Jobs are coalesced per key: once a key is scheduled, scheduling it again
/// before its job has finished queues nothing and changes nothing.
pub proof fn lemma_schedule_coalesces(pending: Set<Seq<char>>, key: Seq<char>)
    ensures
        ({
            let (_, once) = schedule_spec(pending, key);
            let (queued_again, twice) = schedule_spec(once, key);
            !queued_again && twice == once
        }),
{
    assert(pending.insert(key).insert(key) =~= pending.insert(key));
}

/// A key whose job has finished, or never reached the worker, can be
/// scheduled again.
pub proof fn lemma_released_key_schedules_again(pending: Set<Seq<char>>, key: Seq<char>, outcome: SendOutcome)
    requires
        outcome != SendOutcome::Sent,
    ensures
        ({
            let (_, once) = schedule_spec(pending, key);
            schedule_spec(after_send_spec(once, key, outcome), key).0
        }),
{
}

/// The SHA-256 of a source file's bytes, which a bound job compares against
/// before it writes.
pub fn content_hash(content: &[u8]) -> (r: Vec<u8>)
    ensures
        r@ == sha256(content@),
        r@.len() == 32,
{
    sha256_bytes(content)
}

/// Schedules a rewrite of an account. The result is the job's key when a job
/// is to be handed to the worker, `None` when one with that key is pending.
pub fn schedule_account_rewrite(pending: &mut PendingKeys, platform: &str, account_id: &str) -> (r:
    Option<String>)
    requires
        old(pending).wf(),
    ensures
        final(pending).wf(),
        r is Some == schedule_spec(old(pending).view(), account_job_key(platform@, account_id@)).0,
        final(pending).view() == schedule_spec(
            old(pending).view(),
            account_job_key(platform@, account_id@),
        ).1,
        r matches Some(key) ==> key@ == account_job_key(platform@, account_id@),
{
    let key = concat_str(concat_str(platform, ":").as_str(), account_id);
    proof {
        assert(key@ =~= account_job_key(platform@, account_id@));
    }
    if pending.try_reserve(key.as_str()) {
        Some(key)
    } else {
        None
    }
}

/// A rewrite bound to a source file: its key and the hash the file must still
/// have when the job runs.
#[derive(Debug, Clone)]
pub struct BoundRewrite {
    pub key: String,
    pub expected_hash: Vec<u8>,
}

/// Schedules a rewrite that only writes if the source file still holds
/// `source_content`. The result is the job to hand to the worker, `None` when
/// one with that key is pending.
pub fn schedule_account_rewrite_if_unchanged(
    pending: &mut PendingKeys,
    platform: &str,
    account_id: &str,
    source_path: &str,
    source_content: &[u8],
) -> (r: Option<BoundRewrite>)
    requires
        old(pending).wf(),
    ensures
        final(pending).wf(),
        r is Some == schedule_spec(
            old(pending).view(),
            file_job_key(platform@, account_id@, source_path@),
        ).0,
        final(pending).view() == schedule_spec(
            old(pending).view(),
            file_job_key(platform@, account_id@, source_path@),
        ).1,
        r matches Some(job) ==> job.key@ == file_job_key(platform@, account_id@, source_path@)
            && job.expected_hash@ == sha256(source_content@),
{
    let key = concat_str(
        concat_str(concat_str(concat_str(platform, ":").as_str(), account_id).as_str(), ":").as_str(),
        source_path,
    );
    proof {
        assert(key@ =~= file_job_key(platform@, account_id@, source_path@));
    }
    let expected_hash = content_hash(source_content);
    if pending.try_reserve(key.as_str()) {
        Some(BoundRewrite { key, expected_hash })
    } else {
        None
    }
}

/// Records what the send of a scheduled job gave: a job that did not reach
/// the worker (channel full or closed) gives its key back.
pub fn finish_send(pending: &mut PendingKeys, key: &str, outcome: SendOutcome)
    requires
        old(pending).wf(),
    ensures
        final(pending).wf(),
        final(pending).view() == after_send_spec(old(pending).view(), key@, outcome),
{
    match outcome {
        SendOutcome::Sent => {},
        _ => pending.release(key),
    }
}

/// Records that the worker ran a job (whether or not it succeeded): its key is
/// no longer pending.
pub fn finish_job(pending: &mut PendingKeys, key: &str)
    requires
        old(pending).wf(),
    ensures
        final(pending).wf(),
        final(pending).view() == old(pending).view().remove(key@),
{
    pending.release(key)
}


/// Whether a bound rewrite may write: only when the source file is still
/// there and its bytes have the hash the job was scheduled with.
pub open spec fn may_rewrite(expected_hash: Seq<u8>, current: Option<Seq<u8>>) -> bool {
    match current {
        Some(bytes) => sha256(bytes) == expected_hash,
        None => false,
    }
}

fn bytes_equal(a: &Vec<u8>, b: &Vec<u8>) -> (r: bool)
    ensures
        r == (a@ == b@),
{
    if a.len() != b.len() {
        return false;
    }
    let mut i: usize = 0;
    while i < a.len()
        invariant
            a@.len() == b@.len(),
            i <= a@.len(),
            forall|j: int| 0 <= j < i ==> a@[j] == b@[j],
        decreases a@.len() - i,
    {
        if a[i] != b[i] {
            return false;
        }
        i = i + 1;
    }
    assert(a@ =~= b@);
    true
}

/// Decides, when the worker runs a bound rewrite, whether it writes: the
/// current bytes of the source file (none where it is gone) must hash to the
/// expected hash; otherwise a newer write or delete has won and the job
/// leaves the file alone.
pub fn rewrite_if_unchanged_decision(job: &BoundRewrite, current: Option<&[u8]>) -> (r: bool)
    ensures
        r == may_rewrite(job.expected_hash@, match current {
            Some(b) => Some(b@),
            None => None,
        }),
{
    match current {
        Some(bytes) => {
            let hash = content_hash(bytes);
            bytes_equal(&hash, &job.expected_hash)
        },
        None => false,
    }
}

/// The newer write or delete wins: a bound rewrite of `source` never writes
/// over a file that is gone or whose bytes hash otherwise than `source`.
pub proof fn lemma_newer_write_wins(source: Seq<u8>, current: Option<Seq<u8>>)
    requires
        match current {
            Some(bytes) => sha256(bytes) != sha256(source),
            None => true,
        },
    ensures
        !may_rewrite(sha256(source), current),
{
}

/// A file that still holds what was scheduled is written.
pub proof fn lemma_unchanged_file_is_rewritten(source: Seq<u8>)
    ensures
        may_rewrite(sha256(source), Some(source)),
{
}

} // verus!
