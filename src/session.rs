//! The durable state of one multipart upload: which numbered parts the
//! remote store has confirmed, which part to send next, and when the upload
//! is complete.
use crate::byte_range::{ceil_div, part_count};
use crate::transfer::TransferError;
use vstd::prelude::*;
use vstd::set_lib::{lemma_int_range, lemma_subset_equality, set_int_range};

verus! {

/// One part confirmed by the remote store, with the integrity token it
/// returned for that part.
#[derive(Debug, Clone)]
pub struct UploadPart {
    pub part_number: u32,
    pub etag: String,
}

/// Lifecycle of an upload session.
#[derive(Debug, Clone, Copy, PartialEq, Eq, Structural)]
pub enum UploadStatus {
    Pending,
    Uploading,
    Paused,
    Completed,
    Failed,
}

/// A multipart upload of `file_size` bytes in parts of `part_size` bytes.
#[derive(Debug, Clone)]
pub struct UploadSession {
    pub upload_id: String,
    pub storage_key: String,
    pub file_path: String,
    pub file_size: u64,
    pub part_size: u64,
    pub total_parts: u32,
    pub uploaded_parts: Vec<UploadPart>,
    pub status: UploadStatus,
}

/// Some entry of `parts` carries part number `n`.
pub open spec fn has_part(parts: Seq<UploadPart>, n: u32) -> bool {
    exists|i: int| 0 <= i < parts.len() && (#[trigger] parts[i]).part_number == n
}

/// No two entries of `parts` carry the same part number.
pub open spec fn part_numbers_unique(parts: Seq<UploadPart>) -> bool {
    forall|i: int, j: int|
        0 <= i < parts.len() && 0 <= j < parts.len() && i != j ==> (#[trigger] parts[i]).part_number
            != (#[trigger] parts[j]).part_number
}

/// Every entry of `parts` names a part between 1 and `total`.
pub open spec fn part_numbers_within(parts: Seq<UploadPart>, total: u32) -> bool {
    forall|i: int| 0 <= i < parts.len() ==> 1 <= (#[trigger] parts[i]).part_number <= total
}

/// Every part number from 1 to `total` is present in `parts`.
pub open spec fn covers_all(parts: Seq<UploadPart>, total: u32) -> bool {
    forall|n: u32| 1 <= n <= total ==> #[trigger] has_part(parts, n)
}

/// `parts` after recording `(n, etag)`: unchanged when part `n` is already
/// present (the first confirmation wins), else the new entry appended.
pub open spec fn with_part(parts: Seq<UploadPart>, n: u32, etag: String) -> Seq<UploadPart> {
    if has_part(parts, n) {
        parts
    } else {
        parts.push(UploadPart { part_number: n, etag })
    }
}

/// `parts` is in strictly ascending order of part number.
pub open spec fn sorted_by_part_number(parts: Seq<UploadPart>) -> bool {
    forall|i: int, j: int|
        0 <= i < j < parts.len() ==> (#[trigger] parts[i]).part_number < (#[trigger] parts[j]).part_number
}

/// With distinct part numbers, all between 1 and `total`, the parts cover
/// every number from 1 to `total` exactly when there are `total` of them.
pub proof fn lemma_full_iff_covered(parts: Seq<UploadPart>, total: u32)
    requires
        part_numbers_unique(parts),
        part_numbers_within(parts, total),
    ensures
        covers_all(parts, total) <==> parts.len() == total,
{
    let numbers = parts.map_values(|p: UploadPart| p.part_number as int);
    let range = set_int_range(1, total + 1);
    assert(numbers.no_duplicates()) by {
        assert forall|i: int, j: int|
            0 <= i < numbers.len() && 0 <= j < numbers.len() && i != j implies numbers[i]
            != numbers[j] by {
            assert(parts[i].part_number != parts[j].part_number);
        }
    }
    numbers.unique_seq_to_set();
    lemma_int_range(1, total + 1);
    let found = numbers.to_set();
    assert(found.subset_of(range)) by {
        assert forall|x: int| found.contains(x) implies range.contains(x) by {
            let i = choose|i: int| 0 <= i < numbers.len() && numbers[i] == x;
            assert(1 <= parts[i].part_number <= total);
        }
    }
    vstd::set_lib::lemma_len_subset(found, range);
    if covers_all(parts, total) {
        assert(range.subset_of(found)) by {
            assert forall|x: int| range.contains(x) implies found.contains(x) by {
                let n = x as u32;
                assert(has_part(parts, n));
                let i = choose|i: int| 0 <= i < parts.len() && (#[trigger] parts[i]).part_number == n;
                assert(numbers[i] == x);
            }
        }
        assert(found =~= range);
    }
    if parts.len() == total {
        lemma_subset_equality(found, range);
        assert forall|n: u32| 1 <= n <= total implies #[trigger] has_part(parts, n) by {
            assert(range.contains(n as int));
            assert(found.contains(n as int));
            let i = choose|i: int| 0 <= i < numbers.len() && numbers[i] == n as int;
            assert(parts[i].part_number == n);
        }
    }
}

/// Recording the same part with the same token twice leaves the same parts
/// as recording it once.
pub proof fn lemma_add_part_idempotent(parts: Seq<UploadPart>, n: u32, etag: String)
    ensures
        with_part(with_part(parts, n, etag), n, etag) == with_part(parts, n, etag),
{
    if !has_part(parts, n) {
        let once = parts.push(UploadPart { part_number: n, etag });
        assert(once[parts.len() as int].part_number == n);
    }
}

/// Recording part `n` makes the parts cover 1 to `total` exactly when
/// every other part number from 1 to `total` was already present: adding
/// all but one part never completes an upload, and adding the last missing
/// one does.
pub proof fn lemma_completing_part(parts: Seq<UploadPart>, total: u32, n: u32, etag: String)
    requires
        1 <= n <= total,
    ensures
        covers_all(with_part(parts, n, etag), total) <==> forall|m: u32|
            1 <= m <= total && m != n ==> #[trigger] has_part(parts, m),
{
    let after = with_part(parts, n, etag);
    assert forall|m: u32| m != n && #[trigger] has_part(after, m) implies has_part(parts, m) by {
        let i = choose|i: int| 0 <= i < after.len() && (#[trigger] after[i]).part_number == m;
        assert(parts[i] == after[i]);
    }
    assert forall|m: u32| #[trigger] has_part(parts, m) implies has_part(after, m) by {
        let i = choose|i: int| 0 <= i < parts.len() && (#[trigger] parts[i]).part_number == m;
        assert(after[i] == parts[i]);
    }
    if !has_part(parts, n) {
        assert(after[parts.len() as int].part_number == n);
    }
    assert(has_part(after, n));
    if covers_all(after, total) {
        assert forall|m: u32| 1 <= m <= total && m != n implies #[trigger] has_part(parts, m) by {
            assert(has_part(after, m));
        }
    }
    if forall|m: u32| 1 <= m <= total && m != n ==> #[trigger] has_part(parts, m) {
        assert forall|m: u32| 1 <= m <= total implies #[trigger] has_part(after, m) by {
            if m != n {
                assert(has_part(parts, m));
            }
        }
    }
}

impl UploadSession {
    /// The session's own consistency: the part count matches the sizes, the
    /// confirmed parts are distinct and within range, and it is only marked
    /// completed when every part is confirmed.
    pub open spec fn wf(&self) -> bool {
        &&& self.part_size > 0
        &&& self.total_parts == ceil_div(self.file_size as nat, self.part_size as nat)
        &&& part_numbers_unique(self.uploaded_parts@)
        &&& part_numbers_within(self.uploaded_parts@, self.total_parts)
        &&& self.status == UploadStatus::Completed ==> covers_all(
            self.uploaded_parts@,
            self.total_parts,
        )
    }

    /// A pending session with no confirmed parts and
    /// `ceil(file_size / part_size)` parts in all.
    pub fn new(
        upload_id: String,
        storage_key: String,
        file_path: String,
        file_size: u64,
        part_size: u64,
    ) -> (s: Self)
        requires
            part_size > 0,
            ceil_div(file_size as nat, part_size as nat) <= u32::MAX,
        ensures
            s.wf(),
            s.upload_id == upload_id,
            s.storage_key == storage_key,
            s.file_path == file_path,
            s.file_size == file_size,
            s.part_size == part_size,
            s.total_parts == ceil_div(file_size as nat, part_size as nat),
            s.uploaded_parts@ == Seq::<UploadPart>::empty(),
            s.status == UploadStatus::Pending,
    {
        let total_parts = part_count(file_size, part_size) as u32;
        UploadSession {
            upload_id,
            storage_key,
            file_path,
            file_size,
            part_size,
            total_parts,
            uploaded_parts: Vec::new(),
            status: UploadStatus::Pending,
        }
    }

    fn holds_part(&self, n: u32) -> (r: bool)
        ensures
            r == has_part(self.uploaded_parts@, n),
    {
        let mut i: usize = 0;
        while i < self.uploaded_parts.len()
            invariant
                0 <= i <= self.uploaded_parts@.len(),
                forall|k: int| 0 <= k < i ==> (#[trigger] self.uploaded_parts@[k]).part_number != n,
            decreases self.uploaded_parts@.len() - i,
        {
            if self.uploaded_parts[i].part_number == n {
                return true;
            }
            i += 1;
        }
        false
    }

    /// The smallest part number from 1 to `total_parts` not yet confirmed,
    /// or `None` when every part is confirmed.
    pub fn next_part_number(&self) -> (r: Option<u32>)
        ensures
            r is None <==> covers_all(self.uploaded_parts@, self.total_parts),
            r matches Some(n) ==> 1 <= n <= self.total_parts && !has_part(
                self.uploaded_parts@,
                n,
            ) && forall|m: u32| 1 <= m < n ==> #[trigger] has_part(self.uploaded_parts@, m),
            self.wf() ==> (r is None <==> self.uploaded_parts@.len() == self.total_parts),
    {
        proof {
            if self.wf() {
                lemma_full_iff_covered(self.uploaded_parts@, self.total_parts);
            }
        }
        let mut n: u64 = 1;
        while n <= self.total_parts as u64
            invariant
                1 <= n <= self.total_parts + 1,
                forall|m: u32| 1 <= m < n ==> #[trigger] has_part(self.uploaded_parts@, m),
                self.wf() ==> (covers_all(self.uploaded_parts@, self.total_parts)
                    <==> self.uploaded_parts@.len() == self.total_parts),
            decreases self.total_parts + 1 - n,
        {
            if !self.holds_part(n as u32) {
                return Some(n as u32);
            }
            n += 1;
        }
        None
    }

    /// Records that part `part_number` was confirmed with token `etag`. A
    /// part already recorded keeps its first token. Once every part is
    /// recorded the session becomes `Completed`; otherwise its status is
    /// left as it was.
    pub fn add_part(&mut self, part_number: u32, etag: String)
        requires
            old(self).wf(),
            1 <= part_number <= old(self).total_parts,
        ensures
            final(self).wf(),
            final(self).uploaded_parts@ == with_part(old(self).uploaded_parts@, part_number, etag),
            final(self).status == if covers_all(final(self).uploaded_parts@, final(self).total_parts) {
                UploadStatus::Completed
            } else {
                old(self).status
            },
            final(self).status == UploadStatus::Completed <==> covers_all(
                final(self).uploaded_parts@,
                final(self).total_parts,
            ),
            final(self).upload_id == old(self).upload_id,
            final(self).storage_key == old(self).storage_key,
            final(self).file_path == old(self).file_path,
            final(self).file_size == old(self).file_size,
            final(self).part_size == old(self).part_size,
            final(self).total_parts == old(self).total_parts,
    {
        let ghost before = self.uploaded_parts@;
        if !self.holds_part(part_number) {
            self.uploaded_parts.push(UploadPart { part_number, etag });
            proof {
                let parts = self.uploaded_parts@;
                assert forall|i: int, j: int|
                    0 <= i < parts.len() && 0 <= j < parts.len() && i != j implies (
                    #[trigger] parts[i]).part_number != (#[trigger] parts[j]).part_number by {
                    if i == parts.len() - 1 {
                        assert(old(self).uploaded_parts@[j] == parts[j]);
                    } else if j == parts.len() - 1 {
                        assert(old(self).uploaded_parts@[i] == parts[i]);
                    } else {
                        assert(old(self).uploaded_parts@[i] == parts[i]);
                        assert(old(self).uploaded_parts@[j] == parts[j]);
                    }
                }
                assert forall|n: u32| #[trigger]
                    has_part(old(self).uploaded_parts@, n) implies has_part(parts, n) by {
                    let i = choose|i: int|
                        0 <= i < old(self).uploaded_parts@.len() && (
                        #[trigger] old(self).uploaded_parts@[i]).part_number == n;
                    assert(parts[i] == old(self).uploaded_parts@[i]);
                }
            }
        }
        proof {
            lemma_full_iff_covered(self.uploaded_parts@, self.total_parts);
            if covers_all(before, self.total_parts) {
                assert forall|n: u32| 1 <= n <= self.total_parts implies #[trigger] has_part(
                    self.uploaded_parts@,
                    n,
                ) by {
                    assert(has_part(before, n));
                }
            }
        }
        if self.uploaded_parts.len() == self.total_parts as usize {
            self.status = UploadStatus::Completed;
        }
    }

    /// Feeds the outcome of uploading part `part_number` back into the
    /// session: a token is recorded as by `add_part`, an error leaves the
    /// session untouched and is handed back.
    pub fn record_part_outcome(&mut self, part_number: u32, outcome: Result<String, TransferError>) -> (r:
        Result<(), TransferError>)
        requires
            old(self).wf(),
            1 <= part_number <= old(self).total_parts,
        ensures
            final(self).wf(),
            outcome matches Err(e) ==> r == Err::<(), TransferError>(e) && *final(self) == *old(
                self,
            ),
            outcome matches Ok(etag) ==> r is Ok && final(self).uploaded_parts@ == with_part(
                old(self).uploaded_parts@,
                part_number,
                etag,
            ) && final(self).status == (if covers_all(
                final(self).uploaded_parts@,
                final(self).total_parts,
            ) {
                UploadStatus::Completed
            } else {
                old(self).status
            }) && final(self).upload_id == old(self).upload_id && final(self).storage_key == old(
                self,
            ).storage_key && final(self).file_path == old(self).file_path && final(self).file_size
                == old(self).file_size && final(self).part_size == old(self).part_size
                && final(self).total_parts == old(self).total_parts,
    {
        match outcome {
            Ok(etag) => {
                self.add_part(part_number, etag);
                Ok(())
            },
            Err(e) => Err(e),
        }
    }

    /// The confirmed parts in ascending order of part number, as the
    /// remote store's completion request lists them.
    pub fn get_sorted_parts(&self) -> (r: Vec<UploadPart>)
        requires
            part_numbers_unique(self.uploaded_parts@),
        ensures
            r@.len() == self.uploaded_parts@.len(),
            sorted_by_part_number(r@),
            forall|p: UploadPart| r@.contains(p) <==> self.uploaded_parts@.contains(p),
    {
        let parts = &self.uploaded_parts;
        let mut sorted: Vec<UploadPart> = Vec::new();
        let mut i: usize = 0;
        while i < parts.len()
            invariant
                0 <= i <= parts@.len(),
                parts@ == self.uploaded_parts@,
                part_numbers_unique(parts@),
                sorted@.len() == i,
                sorted_by_part_number(sorted@),
                forall|p: UploadPart| sorted@.contains(p) <==> parts@.subrange(0, i as int).contains(p),
            decreases parts@.len() - i,
        {
            let part_number = parts[i].part_number;
            let mut k: usize = 0;
            while k < sorted.len() && sorted[k].part_number < part_number
                invariant
                    0 <= k <= sorted@.len(),
                    forall|m: int| 0 <= m < k ==> (#[trigger] sorted@[m]).part_number < part_number,
                decreases sorted@.len() - k,
            {
                k += 1;
            }
            let ghost before = sorted@;
            proof {
                assert forall|m: int| 0 <= m < before.len() implies (#[trigger] before[m]).part_number
                    != part_number by {
                    assert(before.contains(before[m]));
                    assert(parts@.subrange(0, i as int).contains(before[m]));
                    let j = choose|j: int| 0 <= j < i && parts@.subrange(0, i as int)[j] == before[m];
                    assert(parts@[j] == before[m]);
                }
                assert forall|m: int| k <= m < before.len() implies (#[trigger] before[m]).part_number
                    > part_number by {
                    if k < before.len() {
                        assert(before[k as int].part_number >= part_number);
                        assert(before[k as int].part_number != part_number);
                    }
                }
            }
            let entry = UploadPart { part_number, etag: parts[i].etag.clone() };
            assert(entry == parts@[i as int]);
            sorted.insert(k, entry);
            proof {
                let prefix = parts@.subrange(0, i as int + 1);
                assert(prefix == parts@.subrange(0, i as int).push(parts@[i as int]));
                let earlier = parts@.subrange(0, i as int);
                assert forall|p: UploadPart| sorted@.contains(p) implies prefix.contains(p) by {
                    let m = choose|m: int| 0 <= m < sorted@.len() && sorted@[m] == p;
                    if m == k {
                        assert(prefix[i as int] == p);
                    } else {
                        let mb = if m < k {
                            m
                        } else {
                            m - 1
                        };
                        assert(before[mb] == p);
                        assert(before.contains(p));
                        assert(earlier.contains(p));
                        let j = choose|j: int| 0 <= j < earlier.len() && earlier[j] == p;
                        assert(prefix[j] == p);
                    }
                }
                assert forall|p: UploadPart| prefix.contains(p) implies sorted@.contains(p) by {
                    let j = choose|j: int| 0 <= j < prefix.len() && prefix[j] == p;
                    if j == i {
                        assert(sorted@[k as int] == p);
                    } else {
                        assert(earlier[j] == p);
                        assert(earlier.contains(p));
                        assert(before.contains(p));
                        let m = choose|m: int| 0 <= m < before.len() && before[m] == p;
                        if m < k {
                            assert(sorted@[m] == p);
                        } else {
                            assert(sorted@[m + 1] == p);
                        }
                    }
                }
            }
            i += 1;
        }
        assert(parts@.subrange(0, parts@.len() as int) == parts@);
        sorted
    }
}

} // verus!
