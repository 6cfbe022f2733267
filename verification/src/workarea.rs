//! Where an agent stages output before installing it.
//!
//! The area is on the destination's filesystem, because a rename is atomic only
//! within one, and it is namespaced per agent instance, so that two agents, or
//! two boots of one, never pick the same temporary name. The intent journal is
//! deliberately outside that namespace: it exists to be read by whoever comes
//! after a crash.
use vstd::prelude::*;

use crate::error::AgentError;
use crate::journal;
use crate::journal::Removal;
use crate::paths;
use crate::plan;
use crate::text;

verus! {

/// An identifier as one path component.
pub open spec fn component(s: Seq<char>) -> Seq<char> {
    if s.len() == 0 {
        "unnamed"@
    } else {
        plan::sanitised(s)
    }
}

/// Make a string safe to use as one path component.
pub fn sanitise(s: &str) -> (r: String)
    ensures
        r@ == component(s@),
{
    if s.is_empty() {
        "unnamed".to_owned()
    } else {
        plan::sanitise_component(s)
    }
}

/// A staging directory on the destination's filesystem.
#[derive(Debug, Clone, PartialEq, Eq)]
pub struct WorkArea {
    root: String,
    install_root: String,
    agent_uid: String,
    boot_id: String,
}

/// The directory of an installation.
pub open spec fn install_dir(root: Seq<char>, agent_uid: Seq<char>) -> Seq<char> {
    paths::joined(root, component(agent_uid))
}

/// The directory of one run of an installation.
pub open spec fn boot_dir(root: Seq<char>, agent_uid: Seq<char>, boot_id: Seq<char>) -> Seq<char> {
    paths::joined(install_dir(root, agent_uid), component(boot_id))
}

/// The journal of an installation.
pub open spec fn journal_place(root: Seq<char>, agent_uid: Seq<char>) -> Seq<char> {
    paths::joined(install_dir(root, agent_uid), ".journal"@)
}

/// The name of a temporary file.
pub open spec fn temp_name(job_id: Seq<char>, attempt: int, final_path: Seq<char>) -> Seq<char> {
    component(job_id) + "."@ + text::dec_int(attempt) + ".partial."@ + (match paths::extension(
        final_path,
    ) {
        Some(e) => e,
        None => "mkv"@,
    })
}

/// The directory an install's destination lies in.
pub open spec fn destination_dir(final_path: Seq<char>) -> Seq<char> {
    match paths::parent(final_path) {
        Some(p) => p,
        None => "/"@,
    }
}

impl WorkArea {
    /// The namespaced directory.
    pub closed spec fn place(self) -> Seq<char> {
        self.root@
    }

    /// The directory of the installation.
    pub closed spec fn install_place(self) -> Seq<char> {
        self.install_root@
    }

    /// Which agent instance owns this area.
    pub closed spec fn owner(self) -> Seq<char> {
        self.agent_uid@
    }

    /// Which boot of that agent.
    pub closed spec fn boot(self) -> Seq<char> {
        self.boot_id@
    }

    /// The work area under `root` for an agent instance.
    pub fn at(root: &str, agent_uid: &str, boot_id: &str) -> (r: WorkArea)
        ensures
            r.place() == boot_dir(root@, agent_uid@, boot_id@),
            r.install_place() == install_dir(root@, agent_uid@),
            r.owner() == agent_uid@,
            r.boot() == boot_id@,
    {
        let install_root = paths::join(root, sanitise(agent_uid).as_str());
        let scoped = paths::join(install_root.as_str(), sanitise(boot_id).as_str());
        WorkArea {
            root: scoped,
            install_root,
            agent_uid: agent_uid.to_owned(),
            boot_id: boot_id.to_owned(),
        }
    }

    /// The work area under `root` for an agent instance, once its directory has
    /// been made.
    pub fn open(root: &str, agent_uid: &str, boot_id: &str, made: Result<(), String>) -> (r: Result<
        WorkArea,
        AgentError,
    >)
        ensures
            r is Err == made is Err,
            r matches Ok(w) ==> {
                &&& w.place() == boot_dir(root@, agent_uid@, boot_id@)
                &&& w.install_place() == install_dir(root@, agent_uid@)
                &&& w.owner() == agent_uid@
                &&& w.boot() == boot_id@
            },
            r matches Err(e) ==> e matches AgentError::WorkArea { path, source } && path@ == boot_dir(
                root@,
                agent_uid@,
                boot_id@,
            ) && Err::<(), String>(source) == made,
    {
        let area = WorkArea::at(root, agent_uid, boot_id);
        match made {
            Ok(()) => Ok(area),
            Err(source) => Err(AgentError::WorkArea { path: area.root, source }),
        }
    }

    /// The namespaced directory itself.
    pub fn path(&self) -> (r: &str)
        ensures
            r@ == self.place(),
    {
        self.root.as_str()
    }

    /// The directory of the installation, which holds one directory per boot.
    pub fn install_path(&self) -> (r: &str)
        ensures
            r@ == self.install_place(),
    {
        self.install_root.as_str()
    }

    /// Where this installation's intent journal lives: one level above the
    /// area, and stable across restarts.
    pub fn journal_dir(&self) -> (r: String)
        ensures
            r@ == paths::joined(self.install_place(), ".journal"@),
    {
        paths::join(self.install_root.as_str(), ".journal")
    }

    /// Which agent instance owns this area.
    pub fn agent_uid(&self) -> (r: &str)
        ensures
            r@ == self.owner(),
    {
        self.agent_uid.as_str()
    }

    /// Which boot of that agent.
    pub fn boot_id(&self) -> (r: &str)
        ensures
            r@ == self.boot(),
    {
        self.boot_id.as_str()
    }

    /// Refuse unless this work area and the directory of `final_path` are on
    /// one device. `ours` and `theirs` are the device numbers that were read,
    /// or why they could not be.
    pub fn ensure_same_device(
        &self,
        final_path: &str,
        ours: Result<u64, AgentError>,
        theirs: Result<u64, AgentError>,
    ) -> (r: Result<(), AgentError>)
        ensures
            r is Ok == (ours is Ok && theirs is Ok && ours->Ok_0 == theirs->Ok_0),
            ours is Err ==> r == Err::<(), AgentError>(ours->Err_0),
            ours is Ok && theirs is Err ==> r == Err::<(), AgentError>(theirs->Err_0),
            ours is Ok && theirs is Ok && ours->Ok_0 != theirs->Ok_0 ==> {
                &&& r->Err_0 is CrossDeviceWorkArea
                &&& r->Err_0->work_area@ == self.place()
                &&& r->Err_0->destination@ == destination_dir(final_path@)
            },
    {
        let a: u64 = match ours {
            Ok(d) => d,
            Err(e) => {
                return Err(e);
            },
        };
        let b: u64 = match theirs {
            Ok(d) => d,
            Err(e) => {
                return Err(e);
            },
        };
        if a != b {
            return Err(
                AgentError::CrossDeviceWorkArea {
                    work_area: self.root.clone(),
                    destination: destination_of(final_path),
                },
            );
        }
        Ok(())
    }

    /// A temporary path for one job attempt.
    ///
    /// The extension is kept because ffmpeg picks its muxer from it.
    pub fn temp_path(&self, job_id: &str, attempt: i64, final_path: &str) -> (r: String)
        ensures
            r@ == paths::joined(self.place(), temp_name(job_id@, attempt as int, final_path@)),
    {
        let ext = match paths::extension_of(final_path) {
            Some(e) => e,
            None => "mkv".to_owned(),
        };
        let mut name = sanitise(job_id);
        name.append(".");
        text::push_i64(&mut name, attempt);
        name.append(".partial.");
        name.append(ext.as_str());
        paths::join(self.root.as_str(), name.as_str())
    }

    /// Whether nothing is left behind by a previous attempt of this job, of
    /// what trying to remove its temporary file came to. A leftover is stale by
    /// definition, and one that was not there is no error.
    pub fn clear(&self, job_id: &str, attempt: i64, final_path: &str, removal: Removal) -> (r: Result<
        (),
        AgentError,
    >)
        ensures
            r is Err == (removal is Failed),
            r matches Err(e) ==> e matches AgentError::WorkArea { path, source } && path@
                == paths::joined(self.place(), temp_name(job_id@, attempt as int, final_path@))
                && source == removal->Failed_0,
    {
        match removal {
            Removal::Failed(source) => Err(
                AgentError::WorkArea { path: self.temp_path(job_id, attempt, final_path), source },
            ),
            Removal::Removed => Ok(()),
            Removal::NotFound => Ok(()),
        }
    }

    /// The same area again.
    pub fn duplicate(&self) -> (r: WorkArea)
        ensures
            r == *self,
    {
        WorkArea {
            root: self.root.clone(),
            install_root: self.install_root.clone(),
            agent_uid: self.agent_uid.clone(),
            boot_id: self.boot_id.clone(),
        }
    }
}

/// The directory whose device an install is checked against: the
/// destination's, because the destination itself may not exist yet.
pub fn destination_of(final_path: &str) -> (r: String)
    ensures
        r@ == destination_dir(final_path@),
{
    match paths::parent_of(final_path) {
        Some(p) => p,
        None => "/".to_owned(),
    }
}

/// What happens to one file of a journal left in a per-boot directory.
#[derive(Debug, Clone, PartialEq, Eq)]
pub enum Adoption {
    /// It holds no record and stays where it is.
    NotARecord,
    /// The live journal already has a record of that name, which wins.
    AlreadyThere,
    /// It is renamed to this path.
    MoveTo(String),
}

/// Where a record of a per-boot journal goes in the stable one.
pub open spec fn adopted_path(stable: Seq<char>, from: Seq<char>) -> Option<Seq<char>> {
    match paths::file_name(from) {
        Some(name) => if journal::is_record_file(from) {
            Some(paths::joined(stable, name))
        } else {
            None
        },
        None => None,
    }
}

/// Where a record of a per-boot journal goes in the stable one, or `None` for
/// a file that holds no record.
pub fn adoption_target(stable: &str, from: &str) -> (r: Option<String>)
    ensures
        r is Some == adopted_path(stable@, from@) is Some,
        r is Some ==> r->0@ == adopted_path(stable@, from@)->0,
{
    match paths::file_name_of(from) {
        Some(name) => if journal::holds_record(from) {
            Some(paths::join(stable, name.as_str()))
        } else {
            None
        },
        None => None,
    }
}

/// Decide what happens to one file of a per-boot journal.
pub fn adopt(stable: &str, from: &str, taken: bool) -> (r: Adoption)
    ensures
        match adopted_path(stable@, from@) {
            None => r is NotARecord,
            Some(to) => if taken {
                r is AlreadyThere
            } else {
                r is MoveTo && r->MoveTo_0@ == to
            },
        },
{
    match adoption_target(stable, from) {
        None => Adoption::NotARecord,
        Some(to) => if taken {
            Adoption::AlreadyThere
        } else {
            Adoption::MoveTo(to)
        },
    }
}

// ------------------------------------------------------------------- laws --

/// An identifier becomes one entry name, made of letters, digits, `-` and `_`.
pub proof fn lemma_component(s: Seq<char>)
    ensures
        component(s).len() > 0,
        forall|i: int| 0 <= i < component(s).len() ==> plan::is_name_char(#[trigger] component(s)[i]),
        paths::is_normal(component(s)),
{
    reveal_strlit("unnamed");
    let c = component(s);
    if s.len() == 0 {
        assert(c =~= "unnamed"@);
    }
    if c.contains('/') {
        let j = choose|j: int| 0 <= j < c.len() && c[j] == '/';
        assert(plan::is_name_char(c[j]));
    }
    assert(plan::is_name_char(c[0]));
}

/// Whatever the identifiers hold, the area is two entry names below the root
/// and a temporary file one more.
pub proof fn law_identifiers_cannot_escape(
    root: Seq<char>,
    agent_uid: Seq<char>,
    boot_id: Seq<char>,
    job_id: Seq<char>,
    attempt: int,
    final_path: Seq<char>,
)
    ensures
        paths::is_normal(component(agent_uid)),
        paths::is_normal(component(boot_id)),
        paths::is_normal(temp_name(job_id, attempt, final_path)),
        paths::components(boot_dir(root, agent_uid, boot_id)) == paths::components(root) + seq![
            component(agent_uid),
            component(boot_id),
        ],
        paths::components(
            paths::joined(
                boot_dir(root, agent_uid, boot_id),
                temp_name(job_id, attempt, final_path),
            ),
        ) == paths::components(root) + seq![
            component(agent_uid),
            component(boot_id),
            temp_name(job_id, attempt, final_path),
        ],
{
    lemma_component(agent_uid);
    lemma_component(boot_id);
    lemma_temp_name(job_id, attempt, final_path);
    let name = temp_name(job_id, attempt, final_path);
    paths::law_entry_is_below(root, component(agent_uid));
    paths::law_entry_is_below(install_dir(root, agent_uid), component(boot_id));
    paths::law_entry_is_below(boot_dir(root, agent_uid, boot_id), name);
    assert(paths::components(boot_dir(root, agent_uid, boot_id)) =~= paths::components(root)
        + seq![component(agent_uid), component(boot_id)]);
    assert(paths::components(paths::joined(boot_dir(root, agent_uid, boot_id), name))
        =~= paths::components(root) + seq![component(agent_uid), component(boot_id), name]);
}

proof fn lemma_temp_name(job_id: Seq<char>, attempt: int, final_path: Seq<char>)
    ensures
        paths::is_normal(temp_name(job_id, attempt, final_path)),
{
    reveal_strlit(".");
    reveal_strlit(".partial.");
    reveal_strlit("mkv");
    let name = temp_name(job_id, attempt, final_path);
    let clean = component(job_id);
    let digits = text::dec_int(attempt);
    let role = ".partial."@;
    let ext = match paths::extension(final_path) {
        Some(e) => e,
        None => "mkv"@,
    };
    lemma_component(job_id);
    text::lemma_dec_int_shape(attempt);
    paths::lemma_extension_has_no_separator(final_path);
    let n1 = clean.len() + 1;
    let n2 = n1 + digits.len();
    let n3 = n2 + role.len();
    assert(!name.contains('/')) by {
        if name.contains('/') {
            let j = choose|j: int| 0 <= j < name.len() && name[j] == '/';
            if j < clean.len() {
                assert(plan::is_name_char(clean[j]));
            } else if j < n1 {
            } else if j < n2 {
                assert(name[j] == digits[j - n1]);
            } else if j < n3 {
                assert(name[j] == role[j - n2]);
            } else {
                assert(name[j] == ext[j - n3]);
                assert(ext.contains('/'));
            }
        }
    }
    assert(name.len() > 4);
}

/// A temporary file keeps the extension of the file it stands in for, from which
/// ffmpeg picks its muxer, or has `mkv` where that has none. It lies directly in
/// the area.
pub proof fn law_temporary_files_keep_the_extension(
    root: Seq<char>,
    agent_uid: Seq<char>,
    boot_id: Seq<char>,
    job_id: Seq<char>,
    attempt: int,
    final_path: Seq<char>,
)
    ensures
        ({
            let area = boot_dir(root, agent_uid, boot_id);
            let temp = paths::joined(area, temp_name(job_id, attempt, final_path));
            &&& paths::extension(temp) == Some(
                match paths::extension(final_path) {
                    Some(e) => e,
                    None => "mkv"@,
                },
            )
            &&& paths::parent(temp) == Some(area)
        }),
{
    reveal_strlit(".");
    reveal_strlit(".partial.");
    reveal_strlit("mkv");
    let area = boot_dir(root, agent_uid, boot_id);
    let name = temp_name(job_id, attempt, final_path);
    let temp = paths::joined(area, name);
    let ext = match paths::extension(final_path) {
        Some(e) => e,
        None => "mkv"@,
    };
    lemma_component(boot_id);
    lemma_temp_name(job_id, attempt, final_path);
    paths::law_entry_keeps_its_name(install_dir(root, agent_uid), component(boot_id));
    paths::law_entry_keeps_its_name(area, name);
    paths::lemma_extension_has_no_dot(final_path);
    let d = name.len() - ext.len() - 1;
    assert(name.skip(d + 1) =~= ext);
    assert(name[d] == '.');
    assert forall|i: int| d < i < name.len() implies name[i] != '.' by {
        assert(name[i] == ext[i - d - 1]);
        assert(ext.contains(ext[i - d - 1]));
    }
    text::lemma_last_index_is(name, '.', d);
    let n = area.len();
    assert(area.last() == component(boot_id).last());
    assert(area.last() != '/') by {
        assert(component(boot_id).contains(component(boot_id).last()));
    }
    assert(name[0] != '/') by {
        assert(name.contains(name[0]));
    }
    assert(temp =~= area.push('/') + name);
    assert forall|i: int| n < i < temp.len() implies temp[i] != '/' by {
        assert(temp[i] == name[i - n - 1]);
        assert(name.contains(name[i - n - 1]));
    }
    text::lemma_last_index_is(temp, '/', n as int);
    assert(temp.take(n as int) =~= area);
    assert(temp != seq!['/']) by {
        assert(temp.len() > 1);
    }
}

/// Two attempts of one job never share a temporary file.
pub proof fn law_attempts_do_not_share_a_file(
    dir: Seq<char>,
    job_id: Seq<char>,
    a: int,
    b: int,
    final_path: Seq<char>,
)
    requires
        a != b,
    ensures
        paths::joined(dir, temp_name(job_id, a, final_path)) != paths::joined(
            dir,
            temp_name(job_id, b, final_path),
        ),
{
    reveal_strlit(".partial.");
    let na = temp_name(job_id, a, final_path);
    let nb = temp_name(job_id, b, final_path);
    lemma_temp_name(job_id, a, final_path);
    lemma_temp_name(job_id, b, final_path);
    paths::law_entry_keeps_its_name(dir, na);
    paths::law_entry_keeps_its_name(dir, nb);
    let p = component(job_id) + "."@;
    let da = text::dec_int(a);
    let db = text::dec_int(b);
    text::lemma_dec_int_shape(a);
    text::lemma_dec_int_shape(b);
    if na == nb {
        if da.len() < db.len() {
            assert(na[p.len() + da.len() as int] == '.');
            assert(nb[p.len() + da.len() as int] == db[da.len() as int]);
        } else if db.len() < da.len() {
            assert(nb[p.len() + db.len() as int] == '.');
            assert(na[p.len() + db.len() as int] == da[db.len() as int]);
        } else {
            assert(na.subrange(p.len() as int, (p.len() + da.len()) as int) =~= da);
            assert(nb.subrange(p.len() as int, (p.len() + db.len()) as int) =~= db);
            text::law_signed_spelling_is_unique(a, b);
        }
    }
}

/// The journal does not move with the boot, and no boot identifier puts the
/// staging area where the journal is.
pub proof fn law_journal_survives_a_restart(
    root: Seq<char>,
    agent_uid: Seq<char>,
    boot_id: Seq<char>,
)
    ensures
        !paths::equivalent(
            boot_dir(root, agent_uid, boot_id),
            journal_place(root, agent_uid),
        ),
        paths::components(journal_place(root, agent_uid)) == paths::components(root) + seq![
            component(agent_uid),
            ".journal"@,
        ],
{
    reveal_strlit(".journal");
    lemma_component(agent_uid);
    lemma_component(boot_id);
    assert(paths::is_normal(".journal"@));
    paths::law_entry_is_below(root, component(agent_uid));
    paths::law_entry_is_below(install_dir(root, agent_uid), component(boot_id));
    paths::law_entry_is_below(install_dir(root, agent_uid), ".journal"@);
    assert(plan::is_name_char(component(boot_id)[0]));
    assert(paths::components(boot_dir(root, agent_uid, boot_id)).last() == component(boot_id));
    assert(paths::components(journal_place(root, agent_uid)).last() == ".journal"@);
    assert(paths::components(journal_place(root, agent_uid)) =~= paths::components(root) + seq![
        component(agent_uid),
        ".journal"@,
    ]);
}

/// Agents and boots whose identifiers differ as components have different
/// areas, and agents have different journals.
pub proof fn law_areas_are_namespaced(
    root: Seq<char>,
    a_uid: Seq<char>,
    a_boot: Seq<char>,
    b_uid: Seq<char>,
    b_boot: Seq<char>,
)
    ensures
        paths::equivalent(boot_dir(root, a_uid, a_boot), boot_dir(root, b_uid, b_boot)) ==> {
            &&& component(a_uid) == component(b_uid)
            &&& component(a_boot) == component(b_boot)
        },
        paths::equivalent(journal_place(root, a_uid), journal_place(root, b_uid)) ==> component(
            a_uid,
        ) == component(b_uid),
{
    law_identifiers_cannot_escape(root, a_uid, a_boot, a_uid, 0, root);
    law_identifiers_cannot_escape(root, b_uid, b_boot, b_uid, 0, root);
    law_journal_survives_a_restart(root, a_uid, a_boot);
    law_journal_survives_a_restart(root, b_uid, b_boot);
    let n = paths::components(root).len() as int;
    let ca = paths::components(root) + seq![component(a_uid), component(a_boot)];
    let cb = paths::components(root) + seq![component(b_uid), component(b_boot)];
    assert(ca[n] == component(a_uid) && ca[n + 1] == component(a_boot));
    assert(cb[n] == component(b_uid) && cb[n + 1] == component(b_boot));
    let ja = paths::components(root) + seq![component(a_uid), ".journal"@];
    let jb = paths::components(root) + seq![component(b_uid), ".journal"@];
    assert(ja[n] == component(a_uid) && jb[n] == component(b_uid));
}

/// A record is taken over under its own file name, and what is no record stays
/// where it is.
pub proof fn law_what_is_taken_over(stable: Seq<char>, from: Seq<char>)
    ensures
        adopted_path(stable, from) is Some <==> paths::file_name(from) is Some && paths::extension(
            from,
        ) == Some("json"@),
        adopted_path(stable, from) matches Some(to) ==> to == paths::joined(
            stable,
            paths::file_name(from)->0,
        ),
{
}

/// Where everything stands: an installation below the root, an instance and the
/// journal below the installation, and an output that is being written named
/// after its job and its attempt.
pub proof fn law_where_everything_stands(
    root: Seq<char>,
    uid: Seq<char>,
    boot: Seq<char>,
    job_id: Seq<char>,
    attempt: int,
    final_path: Seq<char>,
)
    ensures
        uid.len() > 0 ==> install_dir(root, uid) == paths::joined(root, plan::sanitised(uid)),
        uid.len() == 0 ==> install_dir(root, uid) == paths::joined(root, "unnamed"@),
        boot.len() > 0 ==> boot_dir(root, uid, boot) == paths::joined(
            install_dir(root, uid),
            plan::sanitised(boot),
        ),
        journal_place(root, uid) == paths::joined(install_dir(root, uid), ".journal"@),
        job_id.len() > 0 ==> temp_name(job_id, attempt, final_path) == plan::sanitised(job_id)
            + "."@ + text::dec_int(attempt) + ".partial."@ + (match paths::extension(final_path) {
            Some(e) => e,
            None => "mkv"@,
        }),
{
}

/// A destination is the directory the file is in, or the root.
pub proof fn law_where_a_file_is_going(final_path: Seq<char>)
    ensures
        paths::parent(final_path) matches Some(p) ==> destination_dir(final_path) == p,
        paths::parent(final_path) is None ==> destination_dir(final_path) == "/"@,
{
}

} // verus!
