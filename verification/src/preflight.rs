//! The four probes a machine must pass before it is trusted with work.
//!
//! A probe that does not apply is skipped rather than failed: a machine without
//! the facility has no defect, and a probe that cried failure there would train
//! everyone to ignore the output.
use vstd::prelude::*;

use crate::double::{Double, Size};
use crate::survey::QuotaFile;
use crate::text;

verus! {

// ----------------------------------------------------------------- reports --

/// Outcome of a single probe.
#[derive(Debug, Clone, Copy, PartialEq, Eq, Structural)]
pub enum ProbeStatus {
    /// Probe passed.
    Pass,
    /// Probe failed. Read the detail: this may change the architecture.
    Fail,
    /// Probe does not apply on this platform.
    Skipped,
    /// Probe ran but the result is concerning rather than fatal.
    Warn,
}

impl ProbeStatus {
    /// Short marker for the table.
    pub open spec fn mark(self) -> Seq<char> {
        match self {
            ProbeStatus::Pass => "PASS"@,
            ProbeStatus::Fail => "FAIL"@,
            ProbeStatus::Skipped => "SKIP"@,
            ProbeStatus::Warn => "WARN"@,
        }
    }

    /// Short marker for the table.
    pub fn marker(self) -> (r: &'static str)
        ensures
            r@ == self.mark(),
            self is Pass ==> r@ == "PASS"@,
            self is Fail ==> r@ == "FAIL"@,
            self is Skipped ==> r@ == "SKIP"@,
            self is Warn ==> r@ == "WARN"@,
    {
        match self {
            ProbeStatus::Pass => "PASS",
            ProbeStatus::Fail => "FAIL",
            ProbeStatus::Skipped => "SKIP",
            ProbeStatus::Warn => "WARN",
        }
    }
}

/// One probe's result.
#[derive(Debug, Clone)]
pub struct ProbeResult {
    /// Probe name.
    pub name: String,
    /// Outcome.
    pub status: ProbeStatus,
    /// What was observed, and what it implies.
    pub detail: String,
}

/// A result says exactly this.
pub open spec fn says(r: ProbeResult, name: Seq<char>, status: ProbeStatus, detail: Seq<char>) -> bool {
    r.name@ == name && r.status == status && r.detail@ == detail
}

fn result(name: &str, status: ProbeStatus, detail: String) -> (r: ProbeResult)
    ensures
        says(r, name@, status, detail@),
{
    ProbeResult { name: name.to_owned(), status, detail }
}

/// The full preflight report.
#[derive(Debug, Clone)]
pub struct PreflightReport {
    /// Every probe, in run order.
    pub probes: Vec<ProbeResult>,
}

/// The status of the first probe of a name.
pub open spec fn status_of(probes: Seq<ProbeResult>, name: Seq<char>) -> Option<ProbeStatus>
    decreases probes.len(),
{
    if probes.len() == 0 {
        None
    } else if probes[0].name@ == name {
        Some(probes[0].status)
    } else {
        status_of(probes.skip(1), name)
    }
}

/// The longest name, in bytes.
pub open spec fn longest(probes: Seq<ProbeResult>) -> nat
    decreases probes.len(),
{
    if probes.len() == 0 {
        0
    } else {
        let rest = longest(probes.drop_last());
        let here = text::byte_len(probes.last().name@);
        if here > rest {
            here
        } else {
            rest
        }
    }
}

/// The width of the name column.
pub open spec fn name_width(probes: Seq<ProbeResult>) -> nat {
    let w = if probes.len() == 0 {
        10
    } else {
        longest(probes)
    };
    if w > 6 {
        w
    } else {
        6
    }
}

/// One line of the table.
pub open spec fn row(w: nat, a: Seq<char>, b: Seq<char>, c: Seq<char>) -> Seq<char> {
    text::padded(a, w) + "  "@ + text::padded(b, 6) + "  "@ + c + "\n"@
}

/// The lines of the probes.
pub open spec fn rows(w: nat, probes: Seq<ProbeResult>) -> Seq<char>
    decreases probes.len(),
{
    if probes.len() == 0 {
        Seq::empty()
    } else {
        rows(w, probes.drop_last()) + row(
            w,
            probes.last().name@,
            probes.last().status.mark(),
            probes.last().detail@,
        )
    }
}

/// The whole table.
pub open spec fn table(probes: Seq<ProbeResult>) -> Seq<char> {
    let w = name_width(probes);
    row(w, "PROBE"@, "STATUS"@, "DETAIL"@) + text::repeated('-', w + 48) + "\n"@ + rows(w, probes)
}

fn push_row(out: &mut String, w: u128, a: &str, b: &str, c: &str)
    ensures
        final(out)@ == old(out)@ + row(w as nat, a@, b@, c@),
{
    text::push_padded(out, a, w);
    out.append("  ");
    text::push_padded(out, b, 6);
    out.append("  ");
    out.append(c);
    out.append("\n");
    assert(out@ =~= old(out)@ + row(w as nat, a@, b@, c@));
}

impl PreflightReport {
    /// Whether any probe failed outright.
    pub fn any_failed(&self) -> (r: bool)
        ensures
            r == exists|i: int|
                0 <= i < self.probes@.len() && (#[trigger] self.probes@[i]).status
                    == ProbeStatus::Fail,
    {
        let mut i: usize = 0;
        while i < self.probes.len()
            invariant
                i <= self.probes@.len(),
                forall|j: int|
                    0 <= j < i ==> (#[trigger] self.probes@[j]).status != ProbeStatus::Fail,
            decreases self.probes.len() - i,
        {
            if matches!(self.probes[i].status, ProbeStatus::Fail) {
                assert(self.probes@[i as int].status == ProbeStatus::Fail);
                return true;
            }
            i += 1;
        }
        false
    }

    /// Whether this machine may perform commits: gated on the rename probe
    /// alone. An agent that cannot atomically replace a file can still produce
    /// output; it just must not install it.
    pub fn commit_eligible(&self) -> (r: bool)
        ensures
            r == (status_of(self.probes@, "RenameProbe"@) == Some(ProbeStatus::Pass)),
    {
        let mut i: usize = 0;
        assert(self.probes@.skip(0) =~= self.probes@);
        while i < self.probes.len()
            invariant
                i <= self.probes@.len(),
                status_of(self.probes@.skip(i as int), "RenameProbe"@) == status_of(
                    self.probes@,
                    "RenameProbe"@,
                ),
            decreases self.probes.len() - i,
        {
            assert(self.probes@.skip(i as int)[0] == self.probes@[i as int]);
            assert(self.probes@.skip(i as int).skip(1) =~= self.probes@.skip(i + 1));
            if text::same(self.probes[i].name.as_str(), "RenameProbe") {
                return matches!(self.probes[i].status, ProbeStatus::Pass);
            }
            i += 1;
        }
        false
    }

    /// Render as a pass/fail table.
    pub fn render(&self) -> (r: String)
        ensures
            r@ == table(self.probes@),
    {
        let mut w: u128 = 0;
        let mut i: usize = 0;
        assert(self.probes@.take(0) =~= Seq::<ProbeResult>::empty());
        while i < self.probes.len()
            invariant
                i <= self.probes@.len(),
                w == longest(self.probes@.take(i as int)),
                w < 0x1_0000_0000_0000_0000_0000,
            decreases self.probes.len() - i,
        {
            assert(self.probes@.take(i + 1).drop_last() =~= self.probes@.take(i as int));
            assert(self.probes@.take(i + 1).last() == self.probes@[i as int]);
            let here: u128 = text::utf8_len(self.probes[i].name.as_str());
            if here > w {
                w = here;
            }
            i += 1;
        }
        assert(self.probes@.take(i as int) =~= self.probes@);
        if self.probes.len() == 0 {
            w = 10;
        }
        if w < 6 {
            w = 6;
        }
        let mut out = String::new();
        push_row(&mut out, w, "PROBE", "STATUS", "DETAIL");
        text::push_repeated(&mut out, '-', w + 48);
        out.append("\n");
        let ghost head = out@;
        let mut k: usize = 0;
        assert(self.probes@.take(0) =~= Seq::<ProbeResult>::empty());
        assert(out@ =~= head + rows(w as nat, self.probes@.take(0)));
        while k < self.probes.len()
            invariant
                k <= self.probes@.len(),
                out@ == head + rows(w as nat, self.probes@.take(k as int)),
            decreases self.probes.len() - k,
        {
            assert(self.probes@.take(k + 1).drop_last() =~= self.probes@.take(k as int));
            assert(self.probes@.take(k + 1).last() == self.probes@[k as int]);
            push_row(
                &mut out,
                w,
                self.probes[k].name.as_str(),
                self.probes[k].status.marker(),
                self.probes[k].detail.as_str(),
            );
            k += 1;
            assert(out@ =~= head + rows(w as nat, self.probes@.take(k as int)));
        }
        assert(self.probes@.take(k as int) =~= self.probes@);
        assert(out@ =~= table(self.probes@));
        out
    }
}

// ------------------------------------------------------------------ rename --

/// What renaming over an open destination did.
#[derive(Debug)]
pub enum RenameTrial {
    /// The test files could not be created or the destination not opened.
    NotSetUp(String),
    /// The rename was tried with the destination open, and the destination was
    /// read back.
    Tried {
        /// Whether the rename was refused, and why.
        refused: Option<String>,
        /// What the destination then held.
        after: Result<Vec<u8>, String>,
    },
}

/// What the replacing file holds.
pub open spec fn new_contents() -> Seq<u8> {
    seq![78u8, 69u8, 87u8]
}

/// The verdict on a rename over an open destination. Not having been able to
/// set the trial up says nothing about renames and must never read as a
/// refused one.
pub open spec fn rename_verdict(dir: Seq<char>, t: RenameTrial) -> (ProbeStatus, Seq<char>) {
    match t {
        RenameTrial::NotSetUp(e) => (
            ProbeStatus::Warn,
            "INCONCLUSIVE: could not create test files in "@ + dir + " ("@ + e@
                + "). This says nothing about rename semantics — re-run against a directory this user can write to, such as the library path the agent will actually commit into."@,
        ),
        RenameTrial::Tried { refused, after } => match refused {
            Some(e) => (
                ProbeStatus::Fail,
                "rename over an open destination was refused ("@ + e@
                    + "). This machine must NOT be commit-eligible: it can produce output but a server-local agent must perform the replace."@,
            ),
            None => match after {
                Ok(bytes) => if bytes@ == new_contents() {
                    (
                        ProbeStatus::Pass,
                        "rename over an open destination succeeded; contents are the new file"@,
                    )
                } else {
                    (
                        ProbeStatus::Fail,
                        "rename reported success but the destination still holds the old contents ("@
                            + text::dec(bytes@.len())
                            + " bytes). This machine must NOT be commit-eligible: it can produce output but a server-local agent must perform the replace."@,
                    )
                },
                Err(e) => (
                    ProbeStatus::Fail,
                    "rename succeeded but the destination could not be read back ("@ + e@
                        + "); treating as not commit-eligible."@,
                ),
            },
        },
    }
}

/// Judge whether a rename can replace a file that is open, and whether the
/// destination afterwards is the new file. This is the most consequential
/// probe: the whole commit ritual is one atomic rename onto the final path.
pub fn rename_probe(dir: &str, trial: RenameTrial) -> (r: ProbeResult)
    ensures
        says(
            r,
            "RenameProbe"@,
            rename_verdict(dir@, trial).0,
            rename_verdict(dir@, trial).1,
        ),
{
    match trial {
        RenameTrial::NotSetUp(e) => {
            let mut s = text::cat3("INCONCLUSIVE: could not create test files in ", dir, " (");
            s.append(e.as_str());
            s.append(
                "). This says nothing about rename semantics — re-run against a directory this user can write to, such as the library path the agent will actually commit into.",
            );
            result("RenameProbe", ProbeStatus::Warn, s)
        },
        RenameTrial::Tried { refused, after } => {
            if let Some(e) = refused {
                let s = text::cat3(
                    "rename over an open destination was refused (",
                    e.as_str(),
                    "). This machine must NOT be commit-eligible: it can produce output but a server-local agent must perform the replace.",
                );
                return result("RenameProbe", ProbeStatus::Fail, s);
            }
            match after {
                Ok(bytes) => {
                    if bytes.len() == 3 && bytes[0] == 78 && bytes[1] == 69 && bytes[2] == 87 {
                        assert(bytes@ =~= new_contents());
                        return result(
                            "RenameProbe",
                            ProbeStatus::Pass,
                            "rename over an open destination succeeded; contents are the new file".to_owned(),
                        );
                    }
                    let mut s =
                        "rename reported success but the destination still holds the old contents (".to_owned();
                    text::push_u64(&mut s, bytes.len() as u64);
                    s.append(
                        " bytes). This machine must NOT be commit-eligible: it can produce output but a server-local agent must perform the replace.",
                    );
                    result("RenameProbe", ProbeStatus::Fail, s)
                },
                Err(e) => {
                    let s = text::cat3(
                        "rename succeeded but the destination could not be read back (",
                        e.as_str(),
                        "); treating as not commit-eligible.",
                    );
                    result("RenameProbe", ProbeStatus::Fail, s)
                },
            }
        },
    }
}

// ------------------------------------------------------------------- fsync --

/// Warn above this 99th percentile, in microseconds: the single writer is then
/// already the pacing constraint.
pub const FSYNC_WARN_US: u128 = 10_000;

/// Abort above this 99th percentile, in microseconds. Every durable transaction
/// costs a sync, so here the writer could not keep up with a busy fleet.
pub const FSYNC_ABORT_US: u128 = 100_000;

/// Where a measured 99th percentile stands.
pub open spec fn fsync_status(p99_us: nat) -> ProbeStatus {
    if p99_us > FSYNC_ABORT_US {
        ProbeStatus::Fail
    } else if p99_us > FSYNC_WARN_US {
        ProbeStatus::Warn
    } else {
        ProbeStatus::Pass
    }
}

/// Classify a measured 99th percentile.
pub fn classify_fsync_p99(p99_us: u128) -> (r: ProbeStatus)
    ensures
        r == fsync_status(p99_us as nat),
{
    if p99_us > FSYNC_ABORT_US {
        ProbeStatus::Fail
    } else if p99_us > FSYNC_WARN_US {
        ProbeStatus::Warn
    } else {
        ProbeStatus::Pass
    }
}

/// In ascending order.
pub open spec fn ascending(s: Seq<u64>) -> bool {
    forall|i: int, j: int| 0 <= i <= j < s.len() ==> s[i] <= s[j]
}

/// The same samples in ascending order.
pub open spec fn is_sorted_form(sorted: Seq<u64>, samples: Seq<u64>) -> bool {
    ascending(sorted) && sorted.to_multiset() == samples.to_multiset()
}

/// The middle sample.
pub open spec fn p50(sorted: Seq<u64>) -> u64 {
    sorted[sorted.len() as int / 2]
}

/// The sample that at most one in a hundred exceeds.
pub open spec fn p99(sorted: Seq<u64>) -> u64 {
    let k = sorted.len() as int * 99 / 100;
    sorted[if k < sorted.len() - 1 {
        k
    } else {
        sorted.len() - 1
    }]
}

/// Microseconds as milliseconds to two places.
pub open spec fn millis(us: u64) -> Seq<char> {
    Size::ratio(us as nat, 1000).hundredths()
}

/// The percentiles in words.
pub open spec fn percentiles(sorted: Seq<u64>) -> Seq<char> {
    text::dec(sorted.len()) + " fsyncs: p50 "@ + millis(p50(sorted)) + " ms, p99 "@ + millis(
        p99(sorted),
    ) + " ms"@
}

/// The detail that goes with a status.
pub open spec fn fsync_detail(sorted: Seq<u64>) -> Seq<char> {
    match fsync_status(p99(sorted) as nat) {
        ProbeStatus::Fail => percentiles(sorted)
            + " — above the 100 ms abort threshold; the single writer would be the bottleneck. Move the DB to faster storage."@,
        ProbeStatus::Warn => percentiles(sorted)
            + " — above the 10 ms warn threshold; workable with batching but worth moving."@,
        _ => percentiles(sorted),
    }
}

fn sorted_samples(v: &Vec<u64>) -> (r: Vec<u64>)
    ensures
        is_sorted_form(r@, v@),
        r@.len() == v@.len(),
{
    let mut r: Vec<u64> = Vec::new();
    let mut i: usize = 0;
    proof {
        assert(v@.take(0) =~= Seq::<u64>::empty());
        assert(r@ =~= Seq::<u64>::empty());
    }
    while i < v.len()
        invariant
            i <= v@.len(),
            ascending(r@),
            r@.len() == i,
            r@.to_multiset() == v@.take(i as int).to_multiset(),
        decreases v.len() - i,
    {
        let x: u64 = v[i];
        let mut at: usize = r.len();
        while at > 0 && r[at - 1] > x
            invariant
                at <= r@.len(),
                ascending(r@),
                forall|j: int| at <= j < r@.len() ==> r@[j] > x,
            decreases at,
        {
            at -= 1;
        }
        let ghost r0 = r@;
        r.insert(at, x);
        proof {
            assert(r@ == r0.insert(at as int, x));
            assert(ascending(r@)) by {
                assert forall|a: int, b: int| 0 <= a <= b < r@.len() implies r@[a] <= r@[b] by {
                    let pa = if a < at {
                        a
                    } else {
                        a - 1
                    };
                    let pb = if b < at {
                        b
                    } else {
                        b - 1
                    };
                    if a < at && b == at {
                        assert(r0[a] <= r0[at - 1]);
                    }
                    if a != at && b != at {
                        assert(r@[a] == r0[pa] && r@[b] == r0[pb]);
                    }
                }
            }
            assert(v@.take(i + 1) =~= v@.take(i as int).push(x));
            assert(r@.remove(at as int) =~= r0);
            r@.to_multiset_ensures();
            v@.take(i as int).to_multiset_ensures();
            assert(r@.to_multiset() =~= v@.take(i + 1).to_multiset()) by {
                assert(r@.remove(at as int).to_multiset() =~= r@.to_multiset().remove(x));
                assert(r@.to_multiset().count(x) > 0) by {
                    assert(r@.contains(x)) by {
                        assert(r@[at as int] == x);
                    }
                }
                assert(r@.to_multiset().remove(x).insert(x) =~= r@.to_multiset());
                assert(v@.take(i as int).push(x).to_multiset() =~= v@.take(
                    i as int,
                ).to_multiset().insert(x));
            }
        }
        i += 1;
    }
    assert(v@.take(i as int) =~= v@);
    r
}

/// Judge sync latency on the candidate database path, from one sample in
/// microseconds per sync.
pub fn fsync_probe(measured: Result<Vec<u64>, String>) -> (r: ProbeResult)
    requires
        measured matches Ok(v) ==> v@.len() > 0,
    ensures
        measured matches Err(e) ==> says(
            r,
            "DbFsyncLatency"@,
            ProbeStatus::Fail,
            "could not measure fsync latency: "@ + e@,
        ),
        measured matches Ok(v) ==> exists|sorted: Seq<u64>|
            #![trigger is_sorted_form(sorted, v@)]
            is_sorted_form(sorted, v@) && sorted.len() == v@.len() && says(
                r,
                "DbFsyncLatency"@,
                fsync_status(p99(sorted) as nat),
                fsync_detail(sorted),
            ),
{
    let v = match measured {
        Err(e) => {
            let s = text::cat2("could not measure fsync latency: ", e.as_str());
            return result("DbFsyncLatency", ProbeStatus::Fail, s);
        },
        Ok(v) => v,
    };
    let sorted = sorted_samples(&v);
    let n: usize = sorted.len();
    let wide: u128 = n as u128;
    let k: u128 = wide * 99 / 100;
    let at: usize = if k < wide - 1 {
        k as usize
    } else {
        n - 1
    };
    let mid: u64 = sorted[n / 2];
    let high: u64 = sorted[at];
    assert(mid == p50(sorted@) && high == p99(sorted@));
    let mut s = text::u64_text(n as u64);
    s.append(" fsyncs: p50 ");
    Size::of_ratio(mid, 1000).push_hundredths(&mut s);
    s.append(" ms, p99 ");
    Size::of_ratio(high, 1000).push_hundredths(&mut s);
    s.append(" ms");
    assert(s@ == percentiles(sorted@));
    let status = classify_fsync_p99(high as u128);
    match status {
        ProbeStatus::Fail => {
            s.append(
                " — above the 100 ms abort threshold; the single writer would be the bottleneck. Move the DB to faster storage.",
            );
        },
        ProbeStatus::Warn => {
            s.append(
                " — above the 10 ms warn threshold; workable with batching but worth moving.",
            );
        },
        _ => {},
    }
    let r = result("DbFsyncLatency", status, s);
    assert(is_sorted_form(sorted@, v@));
    r
}

// --------------------------------------------------------------- snapshots --

/// What asking for the ZFS datasets gave.
#[derive(Debug, Clone)]
pub enum ZfsListing {
    /// There is no such tool here.
    Absent,
    /// The tool failed.
    Failed,
    /// Its listing: name, used, used by snapshots, available and referenced,
    /// separated by tabs, one dataset per line.
    Text(String),
}

/// The accounting of one dataset, in bytes.
pub struct Dataset {
    /// Its name.
    pub name: Seq<char>,
    /// Bytes used.
    pub used: nat,
    /// Bytes that only snapshots hold.
    pub held: nat,
    /// Bytes available.
    pub available: nat,
}

/// A dataset as listed.
#[derive(Debug)]
struct Listed {
    name: String,
    used: u64,
    held: u64,
    available: u64,
}

impl Listed {
    spec fn model(self) -> Dataset {
        Dataset {
            name: self.name@,
            used: self.used as nat,
            held: self.held as nat,
            available: self.available as nat,
        }
    }
}

/// The dataset a line lists. A field that is no number counts as zero.
pub open spec fn dataset_on(line: Seq<char>) -> Option<Dataset> {
    let f = text::split_on(line, '\t');
    if f.len() < 5 {
        None
    } else {
        Some(
            Dataset {
                name: f[0],
                used: text::number_or(f[1], 0),
                held: text::number_or(f[2], 0),
                available: text::number_or(f[3], 0),
            },
        )
    }
}

/// The last part of a dataset's name.
pub open spec fn last_part(name: Seq<char>) -> Seq<char> {
    name.skip(text::last_index(name, '/') + 1)
}

/// The dataset that holds a path, of the lines: the longest name, in bytes,
/// whose last part the path contains, and the first of several as long.
pub open spec fn holding(lines: Seq<Seq<char>>, path: Seq<char>) -> Option<Dataset>
    decreases lines.len(),
{
    if lines.len() == 0 {
        None
    } else {
        let best = holding(lines.drop_last(), path);
        match dataset_on(lines.last()) {
            Some(d) => if text::has(path, last_part(d.name)) && (best matches Some(b) ==> text::byte_len(
                d.name,
            ) > text::byte_len(b.name)) {
                Some(d)
            } else {
                best
            },
            None => best,
        }
    }
}

/// Bytes as gigabytes to one place.
pub open spec fn gigabytes(bytes: nat) -> Seq<char> {
    Size::ratio(bytes, 1_000_000_000).tenths()
}

/// What share of the used bytes snapshots hold, in percent.
pub open spec fn held_share(d: Dataset) -> Size {
    if d.used > 0 {
        Size::ratio(d.held, d.used).percent()
    } else {
        Size::whole(0)
    }
}

/// Whether snapshots hold enough for file sizes to mislead: over a gigabyte, or
/// at least a hundredth of what is used.
pub open spec fn material(d: Dataset) -> bool {
    d.held > 1_000_000_000 || held_share(d).reaches(Size::whole(1))
}

/// A dataset's accounting in words.
pub open spec fn accounting(d: Dataset) -> Seq<char> {
    d.name + ": used "@ + gigabytes(d.used) + " GB, held by snapshots "@ + gigabytes(d.held)
        + " GB ("@ + held_share(d).tenths() + "%), available "@ + gigabytes(d.available) + " GB"@
}

/// The verdict on a machine's snapshots.
pub open spec fn snapshot_verdict(path: Seq<char>, listing: ZfsListing) -> (ProbeStatus, Seq<char>) {
    match listing {
        ZfsListing::Absent => (ProbeStatus::Skipped, "zfs not available on this machine"@),
        ZfsListing::Failed => (
            ProbeStatus::Skipped,
            "zfs present but `zfs list` failed (not a ZFS host, or no permission)"@,
        ),
        ZfsListing::Text(t) => match holding(text::lines(t@), path) {
            None => (ProbeStatus::Skipped, "no ZFS dataset matched "@ + path),
            Some(d) => if material(d) {
                (
                    ProbeStatus::Warn,
                    accounting(d)
                        + " — snapshots retain replaced data, so reclaim must be measured from zfs accounting, never from file sizes."@,
                )
            } else {
                (ProbeStatus::Pass, accounting(d))
            },
        },
    }
}

fn read_dataset(line: &str) -> (r: Option<Listed>)
    ensures
        r is Some == dataset_on(line@) is Some,
        r matches Some(d) ==> dataset_on(line@) == Some(d.model()),
{
    let f = text::split_char(line, '\t');
    assert(text::texts(f@).len() == f@.len());
    if f.len() < 5 {
        return None;
    }
    Some(
        Listed {
            name: f[0].clone(),
            used: text::parse_or(f[1].as_str(), 0),
            held: text::parse_or(f[2].as_str(), 0),
            available: text::parse_or(f[3].as_str(), 0),
        },
    )
}

fn names_path(name: &str, path: &str) -> (r: bool)
    ensures
        r == text::has(path@, last_part(name@)),
{
    let v = text::to_chars(name);
    let n: usize = v.len();
    let k: usize = text::rfind_before(&v, '/', n);
    assert(v@.take(n as int) =~= name@);
    let part = text::slice_text(&v, k, n);
    assert(part@ =~= last_part(name@));
    text::contains(path, part.as_str())
}

fn find_dataset(listing: &str, path: &str) -> (r: Option<Listed>)
    ensures
        r is Some == holding(text::lines(listing@), path@) is Some,
        r matches Some(d) ==> holding(text::lines(listing@), path@) == Some(d.model()),
{
    let lines = text::split_lines(listing);
    let ghost all = text::texts(lines@);
    let mut best: Option<Listed> = None;
    let mut i: usize = 0;
    assert(all.take(0) =~= Seq::<Seq<char>>::empty());
    while i < lines.len()
        invariant
            i <= lines@.len(),
            all == text::texts(lines@),
            best is Some == holding(all.take(i as int), path@) is Some,
            best matches Some(d) ==> holding(all.take(i as int), path@) == Some(d.model()),
        decreases lines.len() - i,
    {
        assert(all.take(i + 1).drop_last() =~= all.take(i as int));
        assert(all.take(i + 1).last() == lines@[i as int]@);
        if let Some(d) = read_dataset(lines[i].as_str()) {
            let longer = match &best {
                Some(b) => text::utf8_len(d.name.as_str()) > text::utf8_len(b.name.as_str()),
                None => true,
            };
            if longer && names_path(d.name.as_str(), path) {
                best = Some(d);
            }
        }
        i += 1;
    }
    assert(all.take(i as int) =~= all);
    best
}

fn push_gigabytes(s: &mut String, bytes: u64)
    ensures
        final(s)@ == old(s)@ + gigabytes(bytes as nat),
{
    Size::of_ratio(bytes, 1_000_000_000).push_tenths(s);
}

fn held_percent(d: &Listed) -> (r: Size)
    ensures
        r == held_share(d.model()),
        r.wf(),
{
    if d.used > 0 {
        Size::of_ratio(d.held, d.used).as_percent()
    } else {
        Size::of_whole(0)
    }
}

fn account(d: &Listed) -> (s: String)
    ensures
        s@ == accounting(d.model()),
{
    let mut s = d.name.clone();
    s.append(": used ");
    push_gigabytes(&mut s, d.used);
    s.append(" GB, held by snapshots ");
    push_gigabytes(&mut s, d.held);
    s.append(" GB (");
    held_percent(d).push_tenths(&mut s);
    s.append("%), available ");
    push_gigabytes(&mut s, d.available);
    s.append(" GB");
    s
}

/// Judge the snapshots of the dataset that holds `path`. In-place replacement
/// reclaims nothing while a snapshot still references the old blocks.
pub fn zfs_probe(path: &str, listing: ZfsListing) -> (r: ProbeResult)
    ensures
        says(
            r,
            "ZfsSnapshotPolicy"@,
            snapshot_verdict(path@, listing).0,
            snapshot_verdict(path@, listing).1,
        ),
{
    let t = match listing {
        ZfsListing::Absent => {
            return result(
                "ZfsSnapshotPolicy",
                ProbeStatus::Skipped,
                "zfs not available on this machine".to_owned(),
            );
        },
        ZfsListing::Failed => {
            return result(
                "ZfsSnapshotPolicy",
                ProbeStatus::Skipped,
                "zfs present but `zfs list` failed (not a ZFS host, or no permission)".to_owned(),
            );
        },
        ZfsListing::Text(t) => t,
    };
    match find_dataset(t.as_str(), path) {
        None => result(
            "ZfsSnapshotPolicy",
            ProbeStatus::Skipped,
            text::cat2("no ZFS dataset matched ", path),
        ),
        Some(d) => {
            let mut s = account(&d);
            if d.held > 1_000_000_000 || held_percent(&d).is_at_least(Size::of_whole(1)) {
                s.append(
                    " — snapshots retain replaced data, so reclaim must be measured from zfs accounting, never from file sizes.",
                );
                result("ZfsSnapshotPolicy", ProbeStatus::Warn, s)
            } else {
                result("ZfsSnapshotPolicy", ProbeStatus::Pass, s)
            }
        },
    }
}

// ------------------------------------------------------------------- quota --

/// Where a control group's CPU quota is read, in order.
pub fn quota_files() -> (r: Vec<&'static str>)
    ensures
        r@.len() == 2,
        r@[0]@ == "/sys/fs/cgroup/cpu.max"@,
        r@[1]@ == "/sys/fs/cgroup/system.slice/cpu.max"@,
{
    vec!["/sys/fs/cgroup/cpu.max", "/sys/fs/cgroup/system.slice/cpu.max"]
}

/// A quota divided by its period, to one place.
pub open spec fn share_said(quota: Double, period: Double) -> Seq<char> {
    let share = quota.size().over(period.size());
    (if quota.negative() && !(share is NotANumber) {
        "-"@
    } else {
        Seq::empty()
    }) + share.tenths()
}

/// What one quota file says, if it says anything.
pub open spec fn quota_said(cores: u64, path: Seq<char>, file: QuotaFile) -> Option<Seq<char>> {
    let w = text::words(file.contents@);
    let machine = Size::whole(cores as nat);
    if w.len() != 2 {
        None
    } else if w[0] == "max"@ {
        Some("no quota set; effective cores = "@ + machine.tenths() + " ("@ + path + ")"@)
    } else {
        match (file.first, file.second) {
            (Some(quota), Some(period)) => if period.is_not_positive() {
                None
            } else {
                Some(
                    "cgroup v2 quota "@ + quota.rounded() + "/"@ + period.rounded()
                        + " -> effective cores "@ + share_said(quota, period) + " of "@
                        + machine.rounded() + " physical"@,
                )
            },
            _ => None,
        }
    }
}

/// What the first quota file that says anything says. A file that could not be
/// read says nothing.
pub open spec fn first_said(cores: u64, files: Seq<(String, Option<QuotaFile>)>) -> Option<
    Seq<char>,
>
    decreases files.len(),
{
    if files.len() == 0 {
        None
    } else {
        let here = match files[0].1 {
            Some(f) => quota_said(cores, files[0].0@, f),
            None => None,
        };
        match here {
            Some(s) => Some(s),
            None => first_said(cores, files.skip(1)),
        }
    }
}

fn push_share(s: &mut String, quota: &Double, period: &Double)
    ensures
        final(s)@ == old(s)@ + share_said(*quota, *period),
{
    let share = quota.magnitude().divided(period.magnitude());
    if quota.is_negative() && !matches!(share, Size::NotANumber) {
        s.append("-");
    }
    share.push_tenths(s);
    assert(s@ =~= old(s)@ + share_said(*quota, *period));
}

fn read_quota(cores: u64, path: &str, file: &QuotaFile) -> (r: Option<String>)
    ensures
        r is Some == quota_said(cores, path@, *file) is Some,
        r matches Some(s) ==> quota_said(cores, path@, *file) == Some(s@),
{
    let w = text::split_words(file.contents.as_str());
    assert(text::texts(w@).len() == w@.len());
    if w.len() != 2 {
        return None;
    }
    assert(text::texts(w@)[0] == w@[0]@ && text::texts(w@)[1] == w@[1]@);
    let machine = Size::of_whole(cores);
    if text::same(w[0].as_str(), "max") {
        let mut s = "no quota set; effective cores = ".to_owned();
        machine.push_tenths(&mut s);
        s.append(" (");
        s.append(path);
        s.append(")");
        return Some(s);
    }
    match (&file.first, &file.second) {
        (Some(quota), Some(period)) => {
            if period.at_most_zero() {
                return None;
            }
            let mut s = "cgroup v2 quota ".to_owned();
            quota.push_rounded(&mut s);
            s.append("/");
            period.push_rounded(&mut s);
            s.append(" -> effective cores ");
            push_share(&mut s, quota, period);
            s.append(" of ");
            machine.push_rounded(&mut s);
            s.append(" physical");
            Some(s)
        },
        _ => None,
    }
}

/// Resolve effective cores, honouring a CPU quota, from the machine's core
/// count and what each quota file held. The raw core count is the wrong number
/// whenever a quota is set; having no quota file is normal.
pub fn cpu_quota_probe(cores: u64, files: &Vec<(String, Option<QuotaFile>)>) -> (r: ProbeResult)
    ensures
        first_said(cores, files@) matches Some(s) ==> says(
            r,
            "CpuQuotaReader"@,
            ProbeStatus::Pass,
            s,
        ),
        first_said(cores, files@) is None ==> says(
            r,
            "CpuQuotaReader"@,
            ProbeStatus::Skipped,
            "no cgroup v2 cpu.max found; effective cores = "@ + Size::whole(cores as nat).tenths(),
        ),
{
    let mut i: usize = 0;
    assert(files@.skip(0) =~= files@);
    while i < files.len()
        invariant
            i <= files@.len(),
            first_said(cores, files@.skip(i as int)) == first_said(cores, files@),
        decreases files.len() - i,
    {
        assert(files@.skip(i as int)[0] == files@[i as int]);
        assert(files@.skip(i as int).skip(1) =~= files@.skip(i + 1));
        if let Some(f) = &files[i].1 {
            if let Some(s) = read_quota(cores, files[i].0.as_str(), f) {
                return result("CpuQuotaReader", ProbeStatus::Pass, s);
            }
        }
        i += 1;
    }
    let mut s = "no cgroup v2 cpu.max found; effective cores = ".to_owned();
    Size::of_whole(cores).push_tenths(&mut s);
    result("CpuQuotaReader", ProbeStatus::Skipped, s)
}

// --------------------------------------------------------------- all of them --

/// How many syncs are timed.
pub const FSYNC_ITERATIONS: u64 = 1000;

/// The four probes, in run order.
pub fn run_all(
    work_dir: &str,
    renames: RenameTrial,
    syncs: Result<Vec<u64>, String>,
    datasets: ZfsListing,
    cores: u64,
    quotas: &Vec<(String, Option<QuotaFile>)>,
) -> (r: PreflightReport)
    requires
        syncs matches Ok(v) ==> v@.len() > 0,
    ensures
        r.probes@.len() == 4,
        says(
            r.probes@[0],
            "RenameProbe"@,
            rename_verdict(work_dir@, renames).0,
            rename_verdict(work_dir@, renames).1,
        ),
        r.probes@[1].name@ == "DbFsyncLatency"@,
        syncs matches Err(e) ==> says(
            r.probes@[1],
            "DbFsyncLatency"@,
            ProbeStatus::Fail,
            "could not measure fsync latency: "@ + e@,
        ),
        syncs matches Ok(v) ==> exists|sorted: Seq<u64>|
            #![trigger is_sorted_form(sorted, v@)]
            is_sorted_form(sorted, v@) && sorted.len() == v@.len() && says(
                r.probes@[1],
                "DbFsyncLatency"@,
                fsync_status(p99(sorted) as nat),
                fsync_detail(sorted),
            ),
        says(
            r.probes@[2],
            "ZfsSnapshotPolicy"@,
            snapshot_verdict(work_dir@, datasets).0,
            snapshot_verdict(work_dir@, datasets).1,
        ),
        first_said(cores, quotas@) matches Some(s) ==> says(
            r.probes@[3],
            "CpuQuotaReader"@,
            ProbeStatus::Pass,
            s,
        ),
        first_said(cores, quotas@) is None ==> says(
            r.probes@[3],
            "CpuQuotaReader"@,
            ProbeStatus::Skipped,
            "no cgroup v2 cpu.max found; effective cores = "@ + Size::whole(cores as nat).tenths(),
        ),
{
    let mut probes: Vec<ProbeResult> = Vec::new();
    probes.push(rename_probe(work_dir, renames));
    probes.push(fsync_probe(syncs));
    probes.push(zfs_probe(work_dir, datasets));
    probes.push(cpu_quota_probe(cores, quotas));
    PreflightReport { probes }
}

// -------------------------------------------------------------------- laws --

/// Silence is not consent: without a rename probe a machine is not trusted with
/// commits.
pub proof fn law_no_probe_is_no_consent(probes: Seq<ProbeResult>)
    requires
        forall|i: int| 0 <= i < probes.len() ==> (#[trigger] probes[i]).name@ != "RenameProbe"@,
    ensures
        status_of(probes, "RenameProbe"@) is None,
    decreases probes.len(),
{
    if probes.len() > 0 {
        assert(probes[0].name@ != "RenameProbe"@);
        let rest = probes.skip(1);
        assert forall|i: int| 0 <= i < rest.len() implies (#[trigger] rest[i]).name@
            != "RenameProbe"@ by {
            assert(rest[i] == probes[i + 1]);
        }
        law_no_probe_is_no_consent(rest);
    }
}

/// What follows the first rename probe has no say in whether a machine may
/// commit.
pub proof fn law_commit_eligibility_follows_the_rename_probe_alone(
    probe: ProbeResult,
    others: Seq<ProbeResult>,
)
    requires
        probe.name@ == "RenameProbe"@,
    ensures
        status_of(seq![probe] + others, "RenameProbe"@) == Some(probe.status),
{
    assert((seq![probe] + others)[0] == probe);
}

/// A trial that could not be set up is neither a failure nor consent, and only
/// reading back the new file is consent.
pub proof fn law_an_inconclusive_rename_grants_and_condemns_nothing(dir: Seq<char>, t: RenameTrial)
    ensures
        t is NotSetUp ==> rename_verdict(dir, t).0 is Warn,
        rename_verdict(dir, t).0 is Pass <==> {
            &&& t matches RenameTrial::Tried { refused, after }
            &&& refused is None
            &&& after matches Ok(bytes)
            &&& bytes@ == new_contents()
        },
{
}

/// A slower disk is never judged better.
pub proof fn law_a_slower_disk_is_never_better(a: nat, b: nat)
    requires
        a <= b,
    ensures
        fsync_status(b) is Pass ==> fsync_status(a) is Pass,
        fsync_status(a) is Fail ==> fsync_status(b) is Fail,
{
}

/// A machine without the facility is skipped, and snapshots never fail one.
pub proof fn law_inapplicable_probes_do_not_fail(path: Seq<char>, listing: ZfsListing)
    ensures
        !(snapshot_verdict(path, listing).0 is Fail),
        listing is Absent || listing is Failed ==> snapshot_verdict(path, listing).0 is Skipped,
{
}

/// The first probe of a name is the one that counts.
pub proof fn law_the_first_probe_counts(probes: Seq<ProbeResult>, name: Seq<char>, i: int)
    requires
        0 <= i < probes.len(),
        probes[i].name@ == name,
        forall|j: int| 0 <= j < i ==> (#[trigger] probes[j]).name@ != name,
    ensures
        status_of(probes, name) == Some(probes[i].status),
    decreases probes.len(),
{
    if i > 0 {
        let rest = probes.skip(1);
        assert(probes[0].name@ != name);
        assert(rest[i - 1] == probes[i]);
        assert forall|j: int| 0 <= j < i - 1 implies (#[trigger] rest[j]).name@ != name by {
            assert(rest[j] == probes[j + 1]);
        }
        law_the_first_probe_counts(rest, name, i - 1);
    }
}

proof fn lemma_longest(probes: Seq<ProbeResult>, k: int)
    ensures
        0 <= k < probes.len() ==> text::byte_len(probes[k].name@) <= longest(probes),
        probes.len() > 0 ==> exists|i: int|
            0 <= i < probes.len() && text::byte_len((#[trigger] probes[i]).name@) == longest(probes),
    decreases probes.len(),
{
    if probes.len() > 0 {
        let head = probes.drop_last();
        lemma_longest(head, k);
        if 0 <= k < head.len() {
            assert(head[k] == probes[k]);
        }
        if head.len() > 0 {
            let i = choose|i: int|
                0 <= i < head.len() && text::byte_len((#[trigger] head[i]).name@) == longest(head);
            assert(probes[i] == head[i]);
        }
        assert(probes[probes.len() - 1] == probes.last());
    }
}

/// The column of names fits every name, and is never narrower than its heading
/// needs.
pub proof fn law_every_name_fits_its_column(probes: Seq<ProbeResult>, k: int)
    ensures
        0 <= k < probes.len() ==> text::byte_len(probes[k].name@) <= name_width(probes),
        6 <= name_width(probes),
        probes.len() == 0 ==> name_width(probes) == 10,
        name_width(probes) > 10 ==> exists|i: int|
            0 <= i < probes.len() && text::byte_len((#[trigger] probes[i]).name@) == name_width(
                probes,
            ),
{
    lemma_longest(probes, k);
}

/// The table has a heading, a rule, and one row for each probe, in order: its
/// name, its mark and its detail.
pub proof fn law_every_probe_has_its_row(w: nat, probes: Seq<ProbeResult>, p: ProbeResult)
    ensures
        rows(w, probes.push(p)) == rows(w, probes) + (text::padded(p.name@, w) + "  "@
            + text::padded(p.status.mark(), 6) + "  "@ + p.detail@ + "\n"@),
        rows(w, Seq::empty()).len() == 0,
        table(probes) == text::padded("PROBE"@, name_width(probes)) + "  "@ + text::padded(
            "STATUS"@,
            6,
        ) + "  "@ + "DETAIL"@ + "\n"@ + text::repeated('-', name_width(probes) + 48) + "\n"@ + rows(
            name_width(probes),
            probes,
        ),
{
    assert(probes.push(p).drop_last() =~= probes);
    assert(probes.push(p).last() == p);
}

/// What a rename shows. One that was refused, one that left the old contents and
/// one whose result cannot be read all fail; only the three new bytes pass.
pub proof fn law_what_a_rename_shows(dir: Seq<char>, refused: Option<String>, after: Result<Vec<u8>, String>)
    ensures
        ({
            let v = rename_verdict(dir, RenameTrial::Tried { refused, after });
            &&& refused is Some ==> v.0 is Fail
            &&& after is Err ==> v.0 is Fail
            &&& after matches Ok(b) ==> b@ != seq![78u8, 69u8, 87u8] ==> v.0 is Fail
            &&& refused is None ==> (after matches Ok(b) ==> b@ == seq![78u8, 69u8, 87u8]
                ==> v.0 is Pass)
            &&& !(v.0 is Warn || v.0 is Skipped)
        }),
{
}

/// A disk is slow from above ten milliseconds, and too slow from above a
/// hundred.
pub proof fn law_when_a_disk_is_slow(p99_us: nat)
    ensures
        p99_us <= 10_000 ==> fsync_status(p99_us) is Pass,
        10_000 < p99_us <= 100_000 ==> fsync_status(p99_us) is Warn,
        p99_us > 100_000 ==> fsync_status(p99_us) is Fail,
{
}

/// The two percentiles are samples: half of them lie before the one, and
/// ninety-nine in a hundred before the other.
pub proof fn law_where_the_percentiles_stand(sorted: Seq<u64>)
    requires
        sorted.len() > 0,
        ascending(sorted),
    ensures
        p50(sorted) == sorted[sorted.len() as int / 2],
        exists|k: int|
            0 <= k < sorted.len() && p99(sorted) == #[trigger] sorted[k] && k * 100 <= sorted.len()
                * 99 < (k + 1) * 100,
        p50(sorted) <= p99(sorted) <= sorted[sorted.len() - 1],
{
    let k = sorted.len() as int * 99 / 100;
    assert(0 <= k < sorted.len());
    assert(p99(sorted) == sorted[k]);
}

/// The last part of a dataset's name is what follows its last `/`, or all of it.
pub proof fn law_the_last_part_of_a_name(name: Seq<char>)
    ensures
        !last_part(name).contains('/'),
        !name.contains('/') ==> last_part(name) == name,
        name.contains('/') ==> exists|i: int|
            0 <= i < name.len() && #[trigger] name[i] == '/' && last_part(name) == name.skip(i + 1),
{
    text::lemma_last_index(name, '/');
    let i = text::last_index(name, '/');
    let tail = last_part(name);
    if tail.contains('/') {
        let j = choose|j: int| 0 <= j < tail.len() && tail[j] == '/';
        assert(name[i + 1 + j] == '/');
    }
    if !name.contains('/') {
        assert(tail =~= name);
    }
}

/// The dataset that holds a path is the one with the longest name among those
/// whose last part occurs in the path.
pub proof fn law_the_closest_dataset_holds_a_path(
    lines: Seq<Seq<char>>,
    path: Seq<char>,
    k: int,
)
    requires
        0 <= k < lines.len(),
    ensures
        dataset_on(lines[k]) matches Some(d) ==> text::has(path, last_part(d.name)) ==> (holding(
            lines,
            path,
        ) matches Some(b) && text::byte_len(b.name) >= text::byte_len(d.name)),
    decreases lines.len(),
{
    let head = lines.drop_last();
    if k < head.len() {
        assert(head[k] == lines[k]);
        law_the_closest_dataset_holds_a_path(head, path, k);
    }
}

/// A dataset that holds a path is one that was listed, and its last part occurs
/// in the path.
pub proof fn law_the_holding_dataset_was_listed(lines: Seq<Seq<char>>, path: Seq<char>)
    ensures
        holding(lines, path) matches Some(b) ==> text::has(path, last_part(b.name)) && exists|i: int|
            0 <= i < lines.len() && dataset_on(#[trigger] lines[i]) == Some(b),
    decreases lines.len(),
{
    if lines.len() > 0 {
        let head = lines.drop_last();
        law_the_holding_dataset_was_listed(head, path);
        if let Some(b) = holding(lines, path) {
            if holding(head, path) == Some(b) {
                let i = choose|i: int|
                    0 <= i < head.len() && dataset_on(#[trigger] head[i]) == Some(b);
                assert(lines[i] == head[i]);
            } else {
                assert(dataset_on(lines[lines.len() - 1]) == Some(b));
            }
        }
    }
}

/// A listed dataset is its line, cut at the tabs: the name, what is used, what
/// snapshots hold and what is left. A line of fewer than five parts is none.
pub proof fn law_a_dataset_is_its_line(line: Seq<char>)
    ensures
        text::split_on(line, '\t').len() < 5 <==> dataset_on(line) is None,
        dataset_on(line) matches Some(d) ==> {
            let f = text::split_on(line, '\t');
            &&& d.name == f[0]
            &&& d.used == text::number_or(f[1], 0)
            &&& d.held == text::number_or(f[2], 0)
            &&& d.available == text::number_or(f[3], 0)
        },
{
}

/// Snapshots matter from a gigabyte on, or from a hundredth of what is used; a
/// dataset where they matter is warned of, and one where they do not passes.
pub proof fn law_when_snapshots_matter(path: Seq<char>, t: String, d: Dataset)
    requires
        holding(text::lines(t@), path) == Some(d),
    ensures
        d.held > 1_000_000_000 ==> snapshot_verdict(path, ZfsListing::Text(t)).0 is Warn,
        d.used > 0 && Size::ratio(d.held, d.used).percent().reaches(Size::whole(1))
            ==> snapshot_verdict(path, ZfsListing::Text(t)).0 is Warn,
        d.held <= 1_000_000_000 && d.used > 0 && !Size::ratio(d.held, d.used).percent().reaches(
            Size::whole(1),
        ) ==> snapshot_verdict(path, ZfsListing::Text(t)).0 is Pass,
{
}

/// The first quota file that says something is the one that is told; a file that
/// is absent, or does not hold two words, says nothing.
pub proof fn law_the_first_quota_is_told(cores: u64, files: Seq<(String, Option<QuotaFile>)>)
    requires
        files.len() > 0,
    ensures
        files[0].1 is None ==> first_said(cores, files) == first_said(cores, files.skip(1)),
        files[0].1 matches Some(f) ==> {
            &&& text::words(f.contents@).len() != 2 ==> first_said(cores, files) == first_said(
                cores,
                files.skip(1),
            )
            &&& text::words(f.contents@).len() == 2 && text::words(f.contents@)[0] == "max"@
                ==> first_said(cores, files) == Some(
                "no quota set; effective cores = "@ + Size::whole(cores as nat).tenths() + " ("@
                    + files[0].0@ + ")"@,
            )
            &&& text::words(f.contents@).len() == 2 && text::words(f.contents@)[0] != "max"@ ==> (
            f.first matches Some(quota) ==> (f.second matches Some(period)
                ==> !period.is_not_positive() ==> first_said(cores, files) == Some(
                "cgroup v2 quota "@ + quota.rounded() + "/"@ + period.rounded()
                    + " -> effective cores "@ + share_said(quota, period) + " of "@ + Size::whole(
                    cores as nat,
                ).rounded() + " physical"@,
            )))
        },
{
}

/// Numbers are told in their units: latencies in milliseconds, space in
/// gigabytes, and what snapshots hold as a share of what is used.
pub proof fn law_numbers_are_told_in_their_units(us: u64, d: Dataset)
    ensures
        millis(us) == Size::ratio(us as nat, 1000).hundredths(),
        accounting(d) == d.name + ": used "@ + Size::ratio(d.used, 1_000_000_000).tenths()
            + " GB, held by snapshots "@ + Size::ratio(d.held, 1_000_000_000).tenths() + " GB ("@ + (
        if d.used > 0 {
            Size::ratio(d.held, d.used).percent()
        } else {
            Size::whole(0)
        }).tenths() + "%), available "@ + Size::ratio(d.available, 1_000_000_000).tenths() + " GB"@,
{
}

/// Of two datasets whose names are as long the first listed holds a path: a later
/// one takes its place only with a longer name.
pub proof fn law_a_later_dataset_must_be_closer(
    lines: Seq<Seq<char>>,
    line: Seq<char>,
    path: Seq<char>,
)
    ensures
        holding(lines, path) matches Some(b) ==> (dataset_on(line) matches Some(d)
            ==> text::byte_len(d.name) <= text::byte_len(b.name) ==> holding(
            lines.push(line),
            path,
        ) == Some(b)),
        holding(lines, path) matches Some(b) ==> (dataset_on(line) matches Some(d)
            ==> text::byte_len(d.name) > text::byte_len(b.name) && text::has(
            path,
            last_part(d.name),
        ) ==> holding(lines.push(line), path) == Some(d)),
        dataset_on(line) is None ==> holding(lines.push(line), path) == holding(lines, path),
{
    assert(lines.push(line).drop_last() =~= lines);
}

/// A result says its name, its status and its detail: all three.
pub proof fn law_what_a_result_says(
    r: ProbeResult,
    name: Seq<char>,
    status: ProbeStatus,
    detail: Seq<char>,
)
    ensures
        says(r, name, status, detail) ==> r.name@ == name && r.status == status && r.detail@
            == detail,
{
}

/// How a rename and a disk are told of: what was tried, what came of it, and
/// what follows.
pub proof fn law_how_a_trial_is_told(dir: Seq<char>, why: String, sorted: Seq<u64>)
    ensures
        rename_verdict(dir, RenameTrial::NotSetUp(why)).1
            == "INCONCLUSIVE: could not create test files in "@ + dir + " ("@ + why@
            + "). This says nothing about rename semantics — re-run against a directory this user can write to, such as the library path the agent will actually commit into."@,
        percentiles(sorted) == text::dec(sorted.len()) + " fsyncs: p50 "@ + millis(p50(sorted))
            + " ms, p99 "@ + millis(p99(sorted)) + " ms"@,
        p99(sorted) <= 10_000 ==> fsync_detail(sorted) == percentiles(sorted),
        p99(sorted) > 100_000 ==> fsync_detail(sorted) == percentiles(sorted)
            + " — above the 100 ms abort threshold; the single writer would be the bottleneck. Move the DB to faster storage."@,
        10_000 < p99(sorted) <= 100_000 ==> fsync_detail(sorted) == percentiles(sorted)
            + " — above the 10 ms warn threshold; workable with batching but worth moving."@,
{
}

/// A share of the processor is told with the sign of the quota.
pub proof fn law_how_a_share_is_told(quota: Double, period: Double)
    ensures
        !quota.negative() ==> share_said(quota, period) == quota.size().over(period.size()).tenths(),
        quota.negative() && !(quota.size().over(period.size()) is NotANumber) ==> share_said(
            quota,
            period,
        ) == "-"@ + quota.size().over(period.size()).tenths(),
{
    assert(!quota.negative() ==> share_said(quota, period) =~= quota.size().over(
        period.size(),
    ).tenths());
}

} // verus!
