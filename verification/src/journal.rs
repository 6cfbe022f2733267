//! The intent journal: what the agent was about to do, written before it did it.
//!
//! Between retiring an original and installing its replacement there is a
//! moment where the destination holds nothing. A crash there is survivable only
//! if something on disk says what was in progress. This module says what a
//! record holds, where it lives and in which order records are taken up again.
use vstd::prelude::*;

use crate::error::AgentError;
use crate::paths;
use crate::plan;
use crate::text;

verus! {

/// How far the ritual had got.
///
/// Ordered, and the order is the recovery logic: each phase says which side of
/// an irreversible step the agent was on.
#[derive(Debug, Clone, Copy, PartialEq, Eq, PartialOrd, Ord, Structural)]
#[non_exhaustive]
pub enum IntentPhase {
    /// Permission to install has been granted; nothing has moved yet.
    Granted,
    /// The original has been moved aside to the trash path. The destination may
    /// be empty right now.
    Retired,
    /// The replacement is in place at the destination.
    Installed,
}

impl IntentPhase {
    /// The stored spelling.
    pub open spec fn spelling(self) -> Seq<char> {
        match self {
            IntentPhase::Granted => "Granted"@,
            IntentPhase::Retired => "Retired"@,
            IntentPhase::Installed => "Installed"@,
        }
    }

    /// How far the ritual got.
    pub open spec fn rank(self) -> int {
        match self {
            IntentPhase::Granted => 0,
            IntentPhase::Retired => 1,
            IntentPhase::Installed => 2,
        }
    }

    /// The stored spelling.
    pub fn as_str(self) -> (r: &'static str)
        ensures
            r@ == self.spelling(),
            self is Granted ==> r@ == "Granted"@,
            self is Retired ==> r@ == "Retired"@,
            self is Installed ==> r@ == "Installed"@,
    {
        match self {
            IntentPhase::Granted => "Granted",
            IntentPhase::Retired => "Retired",
            IntentPhase::Installed => "Installed",
        }
    }

    /// Whether the ritual got further by `other` than by this phase.
    pub fn precedes(self, other: IntentPhase) -> (r: bool)
        ensures
            r == (self.rank() < other.rank()),
    {
        match (self, other) {
            (IntentPhase::Granted, IntentPhase::Retired) => true,
            (IntentPhase::Granted, IntentPhase::Installed) => true,
            (IntentPhase::Retired, IntentPhase::Installed) => true,
            _ => false,
        }
    }
}

/// One journal record: everything recovery needs, with no database available.
#[derive(Debug, Clone, PartialEq, Eq)]
pub struct IntentRecord {
    /// Which job.
    pub job_id: String,
    /// Which attempt.
    pub attempt: i64,
    /// The agent instance that owns this intent.
    pub agent_uid: String,
    /// Which boot of that agent.
    pub boot_id: String,
    /// Guards against a stale agent acting on a revoked assignment.
    pub fencing_epoch: i64,
    /// Where the staged output is.
    pub temp_path: String,
    /// Where it is going.
    pub final_path: String,
    /// Where the original was moved to.
    pub trash_path: String,
    /// The facts signature the job was planned against.
    pub expected_content_sig: String,
    /// How far the ritual got.
    pub phase: IntentPhase,
}

/// The name of a record's file.
pub open spec fn record_name(job_id: Seq<char>, attempt: int) -> Seq<char> {
    plan::sanitised(job_id) + "."@ + text::dec_int(attempt) + ".intent.json"@
}

/// A durable, per-job record of an in-flight install.
#[derive(Debug, Clone, PartialEq, Eq)]
pub struct IntentJournal {
    dir: String,
}

impl IntentJournal {
    /// The directory the journal lives in.
    pub closed spec fn place(self) -> Seq<char> {
        self.dir@
    }

    /// The journal that lives in a directory.
    pub fn at(dir: &str) -> (r: IntentJournal)
        ensures
            r.place() == dir@,
    {
        IntentJournal { dir: dir.to_owned() }
    }

    /// Where this journal lives.
    pub fn dir(&self) -> (r: &str)
        ensures
            r@ == self.place(),
    {
        self.dir.as_str()
    }

    /// The file of one record.
    pub fn path_for(&self, job_id: &str, attempt: i64) -> (r: String)
        ensures
            r@ == paths::joined(self.place(), record_name(job_id@, attempt as int)),
    {
        let mut name = plan::sanitise_component(job_id);
        name.append(".");
        text::push_i64(&mut name, attempt);
        name.append(".intent.json");
        paths::join(self.dir.as_str(), name.as_str())
    }

    /// The file a record is written to before it is renamed into place, so that
    /// a crash during the write leaves the previous record.
    pub fn staging_for(&self, job_id: &str, attempt: i64) -> (r: String)
        ensures
            r@ == paths::with_extension(
                paths::joined(self.place(), record_name(job_id@, attempt as int)),
                "writing"@,
            ),
    {
        let path = self.path_for(job_id, attempt);
        paths::set_extension(path.as_str(), "writing")
    }

    /// The same journal again.
    pub fn duplicate(&self) -> (r: IntentJournal)
        ensures
            r == *self,
    {
        IntentJournal { dir: self.dir.clone() }
    }
}

/// A file that holds a record: one whose extension is `json`.
pub open spec fn is_record_file(path: Seq<char>) -> bool {
    paths::extension(path) == Some("json"@)
}

/// Whether a file holds a record. A file still being written does not.
pub fn holds_record(path: &str) -> (r: bool)
    ensures
        r == is_record_file(path@),
{
    match paths::extension_of(path) {
        Some(e) => text::same(e.as_str(), "json"),
        None => false,
    }
}

// ------------------------------------------------------------------- order --

/// `a` comes before `b`, or they are the same: by job, then by attempt.
pub open spec fn ordered(a: IntentRecord, b: IntentRecord) -> bool {
    text::before(a.job_id@, b.job_id@) || (a.job_id@ == b.job_id@ && a.attempt <= b.attempt)
}

/// Every record comes no later than those behind it.
pub open spec fn in_order(v: Seq<IntentRecord>) -> bool {
    forall|i: int, j: int| 0 <= i <= j < v.len() ==> ordered(#[trigger] v[i], #[trigger] v[j])
}

fn no_later(a: &IntentRecord, b: &IntentRecord) -> (r: bool)
    ensures
        r == ordered(*a, *b),
{
    if text::comes_before(a.job_id.as_str(), b.job_id.as_str()) {
        true
    } else {
        a.job_id == b.job_id && a.attempt <= b.attempt
    }
}

proof fn lemma_ordered_total(a: IntentRecord, b: IntentRecord)
    ensures
        ordered(a, b) || ordered(b, a),
{
    text::lemma_before_total(a.job_id@, b.job_id@);
}

proof fn lemma_ordered_transitive(a: IntentRecord, b: IntentRecord, c: IntentRecord)
    requires
        ordered(a, b),
        ordered(b, c),
    ensures
        ordered(a, c),
{
    if text::before(a.job_id@, b.job_id@) && text::before(b.job_id@, c.job_id@) {
        text::lemma_before_transitive(a.job_id@, b.job_id@, c.job_id@);
    }
}

/// Put the records found on disk in the order recovery takes them up.
///
/// Nothing is dropped: an unaccounted record describes an install nobody
/// resolves.
pub fn recovery_order(found: Vec<IntentRecord>) -> (r: Vec<IntentRecord>)
    ensures
        in_order(r@),
        r@.to_multiset() == found@.to_multiset(),
        r@.len() == found@.len(),
{
    let mut rest = found;
    let mut r: Vec<IntentRecord> = Vec::new();
    let ghost all = found@.to_multiset();
    proof {
        assert(r@ =~= Seq::empty());
        r@.to_multiset_ensures();
        rest@.to_multiset_ensures();
        assert(r@.to_multiset().add(rest@.to_multiset()) =~= all) by {
            assert(r@.to_multiset() =~= vstd::multiset::Multiset::empty()) by {
                assert(r@.to_multiset().len() == 0);
            }
        }
    }
    while rest.len() > 0
        invariant
            in_order(r@),
            r@.to_multiset().add(rest@.to_multiset()) == all,
            r@.len() + rest@.len() == found@.len(),
        decreases rest.len(),
    {
        let ghost r0 = r@;
        let ghost rest0 = rest@;
        let next = rest.remove(0);
        proof {
            rest0.to_multiset_ensures();
            assert(rest@ == rest0.remove(0));
            assert(rest@.to_multiset() == rest0.to_multiset().remove(next));
        }
        let mut at: usize = 0;
        while at < r.len() && no_later(&r[at], &next)
            invariant
                at <= r@.len(),
                r@ == r0,
                in_order(r0),
                forall|j: int| 0 <= j < at ==> ordered(#[trigger] r0[j], next),
            decreases r.len() - at,
        {
            at += 1;
        }
        r.insert(at, next);
        proof {
            assert(r@ == r0.insert(at as int, next));
            r0.to_multiset_ensures();
            r@.to_multiset_ensures();
            assert(r@.remove(at as int) =~= r0);
            assert(r@[at as int] == next);
            assert(r@.contains(next));
            assert(r@.to_multiset() =~= r0.to_multiset().insert(next));
            assert(rest0.to_multiset().contains(next)) by {
                assert(rest0[0] == next);
            }
            assert(r@.to_multiset().add(rest@.to_multiset()) =~= r0.to_multiset().add(
                rest0.to_multiset(),
            ));
            if at < r0.len() {
                lemma_ordered_total(r0[at as int], next);
            }
            lemma_ordered_total(next, next);
            assert forall|i: int, j: int| 0 <= i <= j < r@.len() implies ordered(
                #[trigger] r@[i],
                #[trigger] r@[j],
            ) by {
                let a = if i < at {
                    i
                } else {
                    i - 1
                };
                let b = if j < at {
                    j
                } else {
                    j - 1
                };
                if i == at && j > at {
                    assert(ordered(next, r0[at as int]));
                    assert(ordered(r0[at as int], r0[b]));
                    lemma_ordered_transitive(next, r0[at as int], r0[b]);
                } else if j == at && i < at {
                    assert(ordered(r0[i], next));
                } else if i != at && j != at {
                    assert(ordered(r0[a], r0[b]));
                }
            }
        }
    }
    proof {
        rest@.to_multiset_ensures();
        assert(rest@.to_multiset() =~= vstd::multiset::Multiset::empty()) by {
            assert(rest@.to_multiset().len() == 0);
        }
        assert(r@.to_multiset() =~= all);
    }
    r
}

// ------------------------------------------------------------- outstanding --

/// A file of the journal's directory: its path, and the record in it or why
/// there is none to be had.
pub type Entry = (String, Result<IntentRecord, String>);

/// The records among the files, in their order.
pub open spec fn records_in(found: Seq<Entry>) -> Seq<IntentRecord>
    decreases found.len(),
{
    if found.len() == 0 {
        Seq::empty()
    } else {
        let earlier = records_in(found.drop_last());
        match found.last().1 {
            Ok(rec) => if is_record_file(found.last().0@) {
                earlier.push(rec)
            } else {
                earlier
            },
            Err(_) => earlier,
        }
    }
}

/// Whether a file should hold a record but none could be read from it.
pub open spec fn unreadable(e: Entry) -> bool {
    is_record_file(e.0@) && e.1 is Err
}

/// What trying to remove a file came to.
#[derive(Debug, Clone, PartialEq, Eq)]
pub enum Removal {
    /// It is gone.
    Removed,
    /// It was not there.
    NotFound,
    /// It could not be removed, for this reason.
    Failed(String),
}

impl IntentJournal {
    /// The journal in a directory, once that directory has been made.
    pub fn open(dir: &str, made: Result<(), String>) -> (r: Result<IntentJournal, AgentError>)
        ensures
            r is Err == made is Err,
            r matches Ok(j) ==> j.place() == dir@,
            r matches Err(e) ==> e matches AgentError::Journal { path, source } && path@ == dir@
                && Err::<(), String>(source) == made,
    {
        match made {
            Ok(()) => Ok(IntentJournal::at(dir)),
            Err(source) => Err(AgentError::Journal { path: dir.to_owned(), source }),
        }
    }

    /// Whether a record is durable, of what writing it came to.
    pub fn record(&self, rec: &IntentRecord, written: Result<(), String>) -> (r: Result<
        (),
        AgentError,
    >)
        ensures
            r is Err == written is Err,
            r matches Err(e) ==> e matches AgentError::Journal { path, source } && path@
                == paths::joined(self.place(), record_name(rec.job_id@, rec.attempt as int)) && Err::<
                (),
                String,
            >(source) == written,
    {
        match written {
            Ok(()) => Ok(()),
            Err(source) => Err(
                AgentError::Journal { path: self.path_for(rec.job_id.as_str(), rec.attempt), source },
            ),
        }
    }

    /// One record read back, of what its file held. A file that is not there
    /// holds no record; one that cannot be read is an error.
    pub fn read(
        &self,
        job_id: &str,
        attempt: i64,
        found: Option<Result<IntentRecord, String>>,
    ) -> (r: Result<Option<IntentRecord>, AgentError>)
        ensures
            match found {
                None => r == Ok::<Option<IntentRecord>, AgentError>(None),
                Some(Ok(rec)) => r == Ok::<Option<IntentRecord>, AgentError>(Some(rec)),
                Some(Err(why)) => r matches Err(AgentError::Journal { path, source }) && path@
                    == paths::joined(self.place(), record_name(job_id@, attempt as int)) && source
                    == why,
            },
    {
        match found {
            None => Ok(None),
            Some(Ok(rec)) => Ok(Some(rec)),
            Some(Err(source)) => Err(
                AgentError::Journal { path: self.path_for(job_id, attempt), source },
            ),
        }
    }

    /// Whether a record is dropped, of what trying to remove its file came to
    /// and whether the directory could then be flushed. One that was not there
    /// is no error.
    pub fn clear(
        &self,
        job_id: &str,
        attempt: i64,
        removal: Removal,
        flushed: Result<(), String>,
    ) -> (r: Result<(), AgentError>)
        ensures
            match removal {
                Removal::NotFound => r is Ok,
                Removal::Removed => match flushed {
                    Ok(_) => r is Ok,
                    Err(why) => r matches Err(AgentError::Journal { path, source }) && path@
                        == self.place() && source == why,
                },
                Removal::Failed(why) => r matches Err(AgentError::Journal { path, source }) && path@
                    == paths::joined(self.place(), record_name(job_id@, attempt as int)) && source
                    == why,
            },
    {
        match removal {
            Removal::Failed(source) => Err(
                AgentError::Journal { path: self.path_for(job_id, attempt), source },
            ),
            Removal::Removed => match flushed {
                Ok(()) => Ok(()),
                Err(source) => Err(AgentError::Journal { path: self.dir.clone(), source }),
            },
            Removal::NotFound => Ok(()),
        }
    }

    /// Every record still on disk, in the order recovery takes them up, from
    /// what the journal's directory holds. A record that cannot be read is
    /// reported, never skipped: it describes an install nobody can reason
    /// about.
    pub fn outstanding(&self, found: Vec<Entry>) -> (r: Result<Vec<IntentRecord>, AgentError>)
        ensures
            r is Ok == (forall|i: int| 0 <= i < found@.len() ==> !unreadable(#[trigger] found@[i])),
            r matches Ok(v) ==> {
                &&& in_order(v@)
                &&& v@.to_multiset() == records_in(found@).to_multiset()
                &&& v@.len() == records_in(found@).len()
            },
            r matches Err(e) ==> exists|i: int|
                #![trigger found@[i]]
                0 <= i < found@.len() && unreadable(found@[i]) && (forall|j: int|
                    0 <= j < i ==> !unreadable(#[trigger] found@[j])) && (
                e matches AgentError::Journal { path, source } && path@ == found@[i].0@ && source@
                    == found@[i].1->Err_0@),
    {
        let ghost all = found@;
        let mut records: Vec<IntentRecord> = Vec::new();
        assert(all.take(0) =~= Seq::<Entry>::empty());
        for item in it: found
            invariant
                it.seq() == all,
                all == found@,
                records@ == records_in(all.take(it.index() as int)),
                forall|j: int| 0 <= j < it.index() ==> !unreadable(#[trigger] all[j]),
        {
            let ghost k = it.index() as int;
            assert(item == all[k]);
            assert(all.take(k + 1).drop_last() =~= all.take(k));
            assert(all.take(k + 1).last() == all[k]);
            let (path, content) = item;
            if holds_record(path.as_str()) {
                match content {
                    Ok(rec) => {
                        records.push(rec);
                    },
                    Err(e) => {
                        assert(unreadable(all[k]));
                        return Err(AgentError::Journal { path, source: e });
                    },
                }
            }
        }
        assert(all.take(all.len() as int) =~= all);
        Ok(recovery_order(records))
    }
}

// ------------------------------------------------------------------- laws --

/// The phases are ordered by how far the ritual got.
pub proof fn law_phases_are_ordered()
    ensures
        IntentPhase::Granted.rank() < IntentPhase::Retired.rank(),
        IntentPhase::Retired.rank() < IntentPhase::Installed.rank(),
{
}

proof fn lemma_record_name(job_id: Seq<char>, attempt: int)
    ensures
        paths::is_normal(record_name(job_id, attempt)),
        record_name(job_id, attempt).len() > 12,
        text::last_index(record_name(job_id, attempt), '.') == record_name(job_id, attempt).len()
            - 5,
        record_name(job_id, attempt).skip(record_name(job_id, attempt).len() - 4) == "json"@,
{
    let name = record_name(job_id, attempt);
    reveal_strlit(".");
    reveal_strlit(".intent.json");
    reveal_strlit("json");
    let clean = plan::sanitised(job_id);
    let digits = text::dec_int(attempt);
    let tail = ".intent.json"@;
    text::lemma_dec_int_shape(attempt);
    let n1 = clean.len() + 1;
    let n2 = n1 + digits.len();
    assert(name.len() == n2 + 12);
    assert forall|i: int| 0 <= i < 12 implies name[n2 + i] == tail[i] by {}
    assert(!name.contains('/')) by {
        if name.contains('/') {
            let j = choose|j: int| 0 <= j < name.len() && name[j] == '/';
            if j < clean.len() {
                assert(plan::is_name_char(clean[j]));
            } else if j >= n1 && j < n2 {
                assert(name[j] == digits[j - n1]);
            } else if j >= n2 {
                assert(name[n2 + (j - n2)] == tail[j - n2]);
            }
        }
    }
    assert(name[name.len() - 5] == tail[7]);
    assert forall|i: int| name.len() - 5 < i < name.len() implies name[i] != '.' by {
        assert(name[n2 + (i - n2)] == tail[i - n2]);
    }
    text::lemma_last_index_is(name, '.', name.len() - 5);
    assert(name.skip(name.len() - 4) =~= "json"@) by {
        assert forall|i: int| 0 <= i < 4 implies name.skip(name.len() - 4)[i] == "json"@[i] by {
            assert(name[n2 + (8 + i)] == tail[8 + i]);
        }
    }
}

/// What is written for a job is found again as a record, and the file it is
/// staged in is never taken for one.
pub proof fn law_only_finished_writes_are_records(dir: Seq<char>, job_id: Seq<char>, attempt: int)
    ensures
        is_record_file(paths::joined(dir, record_name(job_id, attempt))),
        !is_record_file(
            paths::with_extension(paths::joined(dir, record_name(job_id, attempt)), "writing"@),
        ),
{
    let name = record_name(job_id, attempt);
    let path = paths::joined(dir, name);
    lemma_record_name(job_id, attempt);
    paths::law_entry_keeps_its_name(dir, name);
    reveal_strlit("writing");
    reveal_strlit("json");
    let staged = paths::with_extension(path, "writing"@);
    let cut = name.take(name.len() - 5).push('.') + "writing"@;
    assert(staged =~= paths::joined(dir, cut)) by {
        text::lemma_last_index(path, '/');
        let n = path.len() - name.len();
        assert(path.skip(n) =~= name);
        assert(text::last_index(path, '/') == n - 1);
        assert(name[0] != '/') by {
            assert(name.contains(name[0]));
        }
        assert(cut[0] == name[0]);
        assert(paths::without_extension(path) =~= path.take(path.len() - 5));
    }
    assert(paths::is_normal(cut)) by {
        if cut.contains('/') {
            let j = choose|j: int| 0 <= j < cut.len() && cut[j] == '/';
            if j < name.len() - 5 {
                assert(name[j] == '/');
                assert(name.contains('/'));
            } else if j > name.len() - 5 {
                assert("writing"@[j - (name.len() - 4)] == '/');
            }
        }
    }
    paths::law_entry_keeps_its_name(dir, cut);
    text::lemma_last_index_is(cut, '.', name.len() - 5);
    assert(cut.skip(name.len() - 4) =~= "writing"@);
    assert("writing"@.len() != "json"@.len());
}

/// Every job and attempt has a record of its own, for jobs whose identifiers
/// differ as file names: advancing one never replaces that of another.
pub proof fn law_records_do_not_share_a_file(job: Seq<char>, a: int, other: Seq<char>, b: int)
    requires
        record_name(job, a) == record_name(other, b),
    ensures
        plan::sanitised(job) == plan::sanitised(other),
        a == b,
{
    reveal_strlit(".");
    reveal_strlit(".intent.json");
    let na = record_name(job, a);
    let nb = record_name(other, b);
    let ca = plan::sanitised(job);
    let cb = plan::sanitised(other);
    let da = text::dec_int(a);
    let db = text::dec_int(b);
    text::lemma_dec_int_shape(a);
    text::lemma_dec_int_shape(b);
    assert(na[ca.len() as int] == '.' && nb[cb.len() as int] == '.');
    if ca.len() < cb.len() {
        assert(nb[ca.len() as int] == cb[ca.len() as int]);
        assert(plan::is_name_char(cb[ca.len() as int]));
    } else if cb.len() < ca.len() {
        assert(na[cb.len() as int] == ca[cb.len() as int]);
        assert(plan::is_name_char(ca[cb.len() as int]));
    }
    assert(ca.len() == cb.len());
    assert(na.take(ca.len() as int) =~= ca);
    assert(nb.take(cb.len() as int) =~= cb);
    let p = ca.len() + 1;
    assert(na.len() == p + da.len() + 12 && nb.len() == p + db.len() + 12);
    assert(na.subrange(p as int, (p + da.len()) as int) =~= da);
    assert(nb.subrange(p as int, (p + db.len()) as int) =~= db);
    text::law_signed_spelling_is_unique(a, b);
}

/// The phases in order: a grant comes before what was retired, and that before
/// what was installed; no phase comes before itself.
pub proof fn law_which_phase_precedes(a: IntentPhase, b: IntentPhase)
    ensures
        a.rank() < b.rank() <==> a is Granted && !(b is Granted) || a is Retired && b is Installed,
{
}

/// Recovery takes the records job by job and, within a job, attempt by attempt.
pub proof fn law_recovery_is_in_order(v: Seq<IntentRecord>, i: int, j: int)
    requires
        in_order(v),
        0 <= i < j < v.len(),
    ensures
        v[i].job_id@ == v[j].job_id@ ==> v[i].attempt <= v[j].attempt,
        v[i].job_id@ != v[j].job_id@ ==> text::before(v[i].job_id@, v[j].job_id@),
{
    assert(ordered(v[i], v[j]));
    if v[i].job_id@ == v[j].job_id@ {
        text::lemma_before_irreflexive(v[i].job_id@);
    }
}

/// Every readable record is recovered, and nothing else: a record is found where
/// a file whose name ends in `.json` was read.
pub proof fn law_every_record_is_found(found: Seq<Entry>, i: int)
    requires
        0 <= i < found.len(),
        paths::extension(found[i].0@) == Some("json"@),
    ensures
        found[i].1 matches Ok(rec) ==> records_in(found).contains(rec),
    decreases found.len(),
{
    let head = found.drop_last();
    if i < head.len() {
        assert(head[i] == found[i]);
        law_every_record_is_found(head, i);
        if let Ok(rec) = found[i].1 {
            let earlier = records_in(head);
            let k = choose|k: int| 0 <= k < earlier.len() && earlier[k] == rec;
            assert(records_in(found)[k] == rec);
        }
    } else if let Ok(rec) = found[i].1 {
        let all = records_in(found);
        assert(all[all.len() - 1] == rec);
    }
}

/// A recovered record was read from a file whose name ends in `.json`.
pub proof fn law_only_records_are_found(found: Seq<Entry>, k: int) -> (i: int)
    requires
        0 <= k < records_in(found).len(),
    ensures
        0 <= i < found.len(),
        paths::extension(found[i].0@) == Some("json"@),
        found[i].1 == Ok::<IntentRecord, String>(records_in(found)[k]),
    decreases found.len(),
{
    let head = found.drop_last();
    let earlier = records_in(head);
    if k < earlier.len() {
        let i = law_only_records_are_found(head, k);
        assert(head[i] == found[i]);
        i
    } else {
        found.len() - 1
    }
}

/// Recovery stops exactly at a record file that could not be read; another file
/// that could not be read is no concern of it.
pub proof fn law_what_stops_recovery(e: Entry)
    ensures
        unreadable(e) <==> e.1 is Err && paths::extension(e.0@) == Some("json"@),
{
}

/// A record is named after its job and its attempt, and is a JSON file.
pub proof fn law_a_record_is_named_after_its_attempt(job_id: Seq<char>, attempt: int)
    ensures
        record_name(job_id, attempt) == plan::sanitised(job_id) + "."@ + text::dec_int(attempt)
            + ".intent.json"@,
{
}

} // verus!
