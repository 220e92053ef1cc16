//! The reloadable template registry.
//!
//! The registry owns the template engine and tracks, for every template
//! registered from a file, the source path and the last-observed
//! modification time. Reading the filesystem is the caller's business: the
//! caller hands in plain observations - a modification time and, for
//! templates that need it, the current source text - and the registry
//! decides which templates to re-register.
//!
//! Each tracked template also carries a version counter that changes exactly
//! when its compiled form is replaced, so staleness is observable from
//! outside.

use vstd::prelude::*;

use crate::engine::engine_new;
use crate::engine::engine_register;
use crate::engine::engine_render;
use crate::engine::engine_unregister;
use crate::engine::template_syntax_ok;
use crate::errors::RegistrationError;
use crate::errors::RenderError;

verus! {

/// One tracked template: its unique name, the source file path, the
/// last-observed modification time (absent means "unknown, force reload"),
/// and the version counter of its compiled form.
#[derive(Debug)]
pub struct TemplateFile {
    pub name: String,
    pub path: String,
    pub mtime: Option<u128>,
    pub version: u64,
}

impl Clone for TemplateFile {
    fn clone(&self) -> (r: Self)
        ensures
            r == *self,
    {
        TemplateFile {
            name: self.name.clone(),
            path: self.path.clone(),
            mtime: self.mtime,
            version: self.version,
        }
    }
}

/// What the caller observed of one template's source file: whether metadata
/// could be read at all, the reported modification time if any, and the
/// current source text if it could be read.
#[derive(Debug)]
pub struct TemplateObservation {
    pub name: String,
    pub stat_ok: bool,
    pub mtime: Option<u128>,
    pub source: Option<String>,
}

/// The version counter after one more re-registration; it always differs
/// from its argument.
pub open spec fn next_version(v: u64) -> u64 {
    if v == u64::MAX {
        0
    } else {
        (v + 1) as u64
    }
}

fn next_version_exec(v: u64) -> (r: u64)
    ensures
        r == next_version(v),
{
    if v == u64::MAX {
        0
    } else {
        v + 1
    }
}

/// A template is re-registered when either modification time is unknown, or
/// the observed one is newer than the recorded one.
pub open spec fn reload_needed(recorded: Option<u128>, observed: Option<u128>) -> bool {
    match (recorded, observed) {
        (Some(rec), Some(obs)) => obs > rec,
        _ => true,
    }
}

fn reload_needed_exec(recorded: Option<u128>, observed: Option<u128>) -> (r: bool)
    ensures
        r == reload_needed(recorded, observed),
{
    match (recorded, observed) {
        (Some(rec), Some(obs)) => obs > rec,
        _ => true,
    }
}

/// The first observation carrying this name, if any.
pub open spec fn spec_obs_for(obs: Seq<TemplateObservation>, name: Seq<char>) -> Option<
    TemplateObservation,
>
    decreases obs.len(),
{
    if obs.len() == 0 {
        None
    } else if obs[0].name@ == name {
        Some(obs[0])
    } else {
        spec_obs_for(obs.drop_first(), name)
    }
}

proof fn lemma_obs_for_skip(obs: Seq<TemplateObservation>, name: Seq<char>, k: int)
    requires
        0 <= k <= obs.len(),
        forall|j: int| 0 <= j < k ==> (#[trigger] obs[j]).name@ != name,
    ensures
        spec_obs_for(obs, name) == spec_obs_for(obs.skip(k), name),
    decreases k,
{
    if k > 0 {
        assert(obs[0].name@ != name);
        lemma_obs_for_skip(obs.drop_first(), name, k - 1);
        assert(obs.drop_first().skip(k - 1) =~= obs.skip(k));
    } else {
        assert(obs.skip(0) =~= obs);
    }
}

/// Whether this entry's scan step succeeds: its observation exists, the
/// metadata read succeeded, and - when a reload is due - the source text is
/// there and the engine accepts it.
pub open spec fn entry_scan_ok(e: TemplateFile, obs: Seq<TemplateObservation>) -> bool {
    match spec_obs_for(obs, e.name@) {
        Some(o) => o.stat_ok && (reload_needed(e.mtime, o.mtime) ==> match o.source {
            Some(src) => template_syntax_ok(src@),
            None => false,
        }),
        None => false,
    }
}

/// The entry after a successful scan step: untouched when no reload was due,
/// else carrying the observed modification time and the next version.
pub open spec fn entry_after_scan(e: TemplateFile, obs: Seq<TemplateObservation>) -> TemplateFile {
    match spec_obs_for(obs, e.name@) {
        Some(o) => {
            if reload_needed(e.mtime, o.mtime) {
                TemplateFile {
                    name: e.name,
                    path: e.path,
                    mtime: o.mtime,
                    version: next_version(e.version),
                }
            } else {
                e
            }
        },
        None => e,
    }
}

/// Which error a failing scan step reports for this entry.
pub open spec fn entry_scan_error_is(
    e: TemplateFile,
    obs: Seq<TemplateObservation>,
    err: RegistrationError,
) -> bool {
    match spec_obs_for(obs, e.name@) {
        None => err matches RegistrationError::Metadata { name } && name@ == e.name@,
        Some(o) => {
            if !o.stat_ok {
                err matches RegistrationError::Metadata { name } && name@ == e.name@
            } else if reload_needed(e.mtime, o.mtime) {
                match o.source {
                    None => err matches RegistrationError::Io { name } && name@ == e.name@,
                    Some(src) => !template_syntax_ok(src@) && (err matches RegistrationError::Syntax
                        { name, .. } && name@ == e.name@),
                }
            } else {
                false
            }
        },
    }
}

/// Reload correctness, as far as the registry's own bookkeeping reaches: a
/// scan step never touches an entry's name or path; an entry whose source
/// was untouched - or that has no observation - comes out unchanged,
/// compiled handle included; and a re-registered entry records the observed
/// modification time and always moves to a different version, so staleness
/// is observable from outside.
pub proof fn lemma_reload_version_tracks_change(e: TemplateFile, obs: Seq<TemplateObservation>)
    ensures
        entry_after_scan(e, obs).name == e.name,
        entry_after_scan(e, obs).path == e.path,
        match spec_obs_for(obs, e.name@) {
            Some(o) => {
                &&& (reload_needed(e.mtime, o.mtime) ==> entry_after_scan(e, obs).version
                    != e.version && entry_after_scan(e, obs).mtime == o.mtime)
                &&& (!reload_needed(e.mtime, o.mtime) ==> entry_after_scan(e, obs) == e)
            },
            None => entry_after_scan(e, obs) == e,
        },
{
    // the version counter always moves: it wraps to zero only from the
    // largest value, and otherwise grows by one
    assert(next_version(e.version) != e.version);
}

/// No two tracked templates carry the same name.
pub open spec fn names_distinct(s: Seq<TemplateFile>) -> bool {
    forall|i: int, j: int|
        0 <= i < j < s.len() ==> (#[trigger] s[i]).name@ != (#[trigger] s[j]).name@
}

/// Whether some tracked template carries this name.
pub open spec fn files_contain(s: Seq<TemplateFile>, name: Seq<char>) -> bool {
    exists|i: int| 0 <= i < s.len() && (#[trigger] s[i]).name@ == name
}

/// The position of the tracked template carrying this name; meaningful only
/// under `names_distinct`, where at most one does.
pub open spec fn file_index_of(s: Seq<TemplateFile>, name: Seq<char>) -> int {
    choose|i: int| 0 <= i < s.len() && (#[trigger] s[i]).name@ == name
}

proof fn lemma_names_distinct_preserved(a: Seq<TemplateFile>, b: Seq<TemplateFile>)
    requires
        a.len() == b.len(),
        names_distinct(a),
        forall|i: int| 0 <= i < a.len() ==> (#[trigger] b[i]).name@ == a[i].name@,
    ensures
        names_distinct(b),
{
    assert forall|i: int, j: int| 0 <= i < j < b.len() implies (#[trigger] b[i]).name@ != (
    #[trigger] b[j]).name@ by {
        assert(a[i].name@ != a[j].name@);
    }
}

/// The reloadable template registry: the engine plus the tracked source
/// files.
pub struct ReloadableHandlebars {
    handlebars: handlebars::Handlebars<'static>,
    files: Vec<TemplateFile>,
}

impl ReloadableHandlebars {
    /// The tracked templates, in registration order.
    pub closed spec fn spec_files(self) -> Seq<TemplateFile> {
        self.files@
    }

    pub open spec fn wf(self) -> bool {
        names_distinct(self.spec_files())
    }

    pub open spec fn spec_has_template(self, name: Seq<char>) -> bool {
        files_contain(self.spec_files(), name)
    }

    /// Create a registry around a fresh engine, tracking nothing.
    pub fn new() -> (r: ReloadableHandlebars)
        ensures
            r.wf(),
            r.spec_files() == Seq::<TemplateFile>::empty(),
    {
        let r = ReloadableHandlebars { handlebars: engine_new(), files: Vec::new() };
        proof {
            assert(r.spec_files() =~= Seq::<TemplateFile>::empty());
        }
        r
    }

    /// How many templates are tracked.
    pub fn template_count(&self) -> (r: usize)
        ensures
            r == self.spec_files().len(),
    {
        self.files.len()
    }

    /// A copy of the tracked templates, in registration order.
    pub fn tracked_files(&self) -> (r: Vec<TemplateFile>)
        ensures
            r@ == self.spec_files(),
    {
        let n = self.files.len();
        let mut out: Vec<TemplateFile> = Vec::new();
        let mut i: usize = 0;
        while i < n
            invariant
                n == self.files@.len(),
                i <= n,
                out@ == self.files@.subrange(0, i as int),
            decreases n - i,
        {
            out.push(self.files[i].clone());
            proof {
                assert(out@ =~= self.files@.subrange(0, i + 1 as int));
            }
            i = i + 1;
        }
        proof {
            assert(out@ =~= self.spec_files());
        }
        out
    }

    /// The position of the tracked template carrying this name, if any.
    fn find_file(&self, name: &str) -> (r: Option<usize>)
        requires
            self.wf(),
        ensures
            match r {
                Some(i) => {
                    &&& i < self.spec_files().len()
                    &&& self.spec_files()[i as int].name@ == name@
                    &&& files_contain(self.spec_files(), name@)
                    &&& file_index_of(self.spec_files(), name@) == i as int
                },
                None => !files_contain(self.spec_files(), name@),
            },
    {
        let name_owned: String = name.to_owned();
        let n = self.files.len();
        let mut i: usize = 0;
        while i < n
            invariant
                self.wf(),
                n == self.files@.len(),
                i <= n,
                name_owned@ == name@,
                forall|j: int| 0 <= j < i ==> (#[trigger] self.files@[j]).name@ != name@,
            decreases n - i,
        {
            if self.files[i].name == name_owned {
                proof {
                    let s = self.spec_files();
                    assert(0 <= i < s.len() && s[i as int].name@ == name@);
                    assert(files_contain(s, name@));
                    let w = file_index_of(s, name@);
                    assert(0 <= w < s.len() && s[w].name@ == name@);
                    if w != i as int {
                        assert(s[w].name@ != s[i as int].name@);
                    }
                }
                return Some(i);
            }
            i = i + 1;
        }
        None
    }

    /// Register a template from a source file.
    ///
    /// The caller supplies what it read: the file path, the modification
    /// time it observed (or none, forcing the next reload to re-register),
    /// and the source text. The engine compiles the source; exactly when it
    /// accepts it, the template is tracked - a new name is appended, a
    /// re-registered name keeps its position and moves to the next version.
    /// On failure nothing changes.
    pub fn register_template_file(
        &mut self,
        name: &str,
        file_path: &str,
        mtime: Option<u128>,
        source: &str,
    ) -> (r: Result<(), RegistrationError>)
        requires
            old(self).wf(),
        ensures
            final(self).wf(),
            r is Ok <==> template_syntax_ok(source@),
            r matches Err(e) ==> {
                &&& final(self).spec_files() == old(self).spec_files()
                &&& e matches RegistrationError::Syntax { name: n, .. } && n@ == name@
            },
            r is Ok && files_contain(old(self).spec_files(), name@) ==> {
                let i = file_index_of(old(self).spec_files(), name@);
                &&& final(self).spec_files().len() == old(self).spec_files().len()
                &&& forall|j: int|
                    0 <= j < old(self).spec_files().len() && j != i ==> final(self).spec_files()[j]
                        == old(self).spec_files()[j]
                &&& final(self).spec_files()[i].name@ == name@
                &&& final(self).spec_files()[i].path@ == file_path@
                &&& final(self).spec_files()[i].mtime == mtime
                &&& final(self).spec_files()[i].version == next_version(
                    old(self).spec_files()[i].version,
                )
            },
            r is Ok && !files_contain(old(self).spec_files(), name@) ==> {
                &&& final(self).spec_files().len() == old(self).spec_files().len() + 1
                &&& forall|j: int|
                    0 <= j < old(self).spec_files().len() ==> final(self).spec_files()[j] == old(
                        self,
                    ).spec_files()[j]
                &&& final(self).spec_files().last().name@ == name@
                &&& final(self).spec_files().last().path@ == file_path@
                &&& final(self).spec_files().last().mtime == mtime
                &&& final(self).spec_files().last().version == 0
            },
    {
        let nm: String = name.to_owned();
        match engine_register(&mut self.handlebars, name, source) {
            Err(message) => Err(RegistrationError::Syntax { name: nm, message }),
            Ok(()) => {
                match self.find_file(name) {
                    Some(i) => {
                        let e = self.files.remove(i);
                        let updated = TemplateFile {
                            name: e.name,
                            path: file_path.to_owned(),
                            mtime,
                            version: next_version_exec(e.version),
                        };
                        self.files.insert(i, updated);
                        proof {
                            let a = old(self).spec_files();
                            let b = self.spec_files();
                            assert(b =~= a.remove(i as int).insert(i as int, b[i as int]));
                            assert(forall|j: int| 0 <= j < a.len() && j != i ==> b[j] == a[j]);
                            assert forall|j: int| 0 <= j < a.len() implies (
                            #[trigger] b[j]).name@ == a[j].name@ by {}
                            lemma_names_distinct_preserved(a, b);
                        }
                        Ok(())
                    },
                    None => {
                        let fresh = TemplateFile {
                            name: nm,
                            path: file_path.to_owned(),
                            mtime,
                            version: 0,
                        };
                        self.files.push(fresh);
                        proof {
                            let a = old(self).spec_files();
                            let b = self.spec_files();
                            assert forall|p: int, q: int| 0 <= p < q < b.len() implies (
                            #[trigger] b[p]).name@ != (#[trigger] b[q]).name@ by {
                                if q < a.len() {
                                } else {
                                    if a[p].name@ == name@ {
                                        assert(files_contain(a, name@));
                                    }
                                }
                            }
                        }
                        Ok(())
                    },
                }
            },
        }
    }

    /// Register a template from an embedded source string, tracking no file;
    /// for the immutable production configuration.
    pub fn register_template_string(&mut self, name: &str, source: &str) -> (r: Result<
        (),
        RegistrationError,
    >)
        requires
            old(self).wf(),
        ensures
            final(self).wf(),
            final(self).spec_files() == old(self).spec_files(),
            r is Ok <==> template_syntax_ok(source@),
            r matches Err(e) ==> e matches RegistrationError::Syntax { name: n, .. } && n@
                == name@,
    {
        let nm: String = name.to_owned();
        match engine_register(&mut self.handlebars, name, source) {
            Err(message) => Err(RegistrationError::Syntax { name: nm, message }),
            Ok(()) => Ok(()),
        }
    }

    /// Unregister a template by name, dropping it from the engine and from
    /// tracking; returns the tracked path, or nothing when the name was not
    /// tracked - which is no error.
    pub fn unregister_template_file(&mut self, name: &str) -> (r: Option<String>)
        requires
            old(self).wf(),
        ensures
            final(self).wf(),
            files_contain(old(self).spec_files(), name@) ==> {
                let i = file_index_of(old(self).spec_files(), name@);
                &&& r matches Some(p) && p == old(self).spec_files()[i].path
                &&& final(self).spec_files() == old(self).spec_files().remove(i)
            },
            !files_contain(old(self).spec_files(), name@) ==> r is None && final(self).spec_files()
                == old(self).spec_files(),
    {
        match self.find_file(name) {
            Some(i) => {
                engine_unregister(&mut self.handlebars, name);
                let e = self.files.remove(i);
                proof {
                    let a = old(self).spec_files();
                    let b = self.spec_files();
                    assert forall|p: int, q: int| 0 <= p < q < b.len() implies (
                    #[trigger] b[p]).name@ != (#[trigger] b[q]).name@ by {
                        let pp = if p < i as int {
                            p
                        } else {
                            p + 1
                        };
                        let qq = if q < i as int {
                            q
                        } else {
                            q + 1
                        };
                        assert(a[pp].name@ != a[qq].name@);
                    }
                }
                Some(e.path)
            },
            None => None,
        }
    }

    /// Render the named registered template against a context value. What
    /// comes back is the engine's to decide; a failure is always surfaced as
    /// an engine error, never swallowed.
    pub fn render(&self, name: &str, context: &serde_json::Value) -> (r: Result<
        String,
        RenderError,
    >)
        ensures
            r matches Err(e) ==> e is Engine,
    {
        match engine_render(&self.handlebars, name, context) {
            Ok(html) => Ok(html),
            Err(message) => Err(RenderError::Engine { message }),
        }
    }

    /// The position of the first observation carrying this name, if any.
    fn find_observation(observations: &Vec<TemplateObservation>, name: &String) -> (r: Option<
        usize,
    >)
        ensures
            match r {
                Some(j) => j < observations@.len() && spec_obs_for(observations@, name@) == Some(
                    observations@[j as int],
                ),
                None => spec_obs_for(observations@, name@) is None,
            },
    {
        let n = observations.len();
        let mut j: usize = 0;
        while j < n
            invariant
                n == observations@.len(),
                j <= n,
                forall|k: int| 0 <= k < j ==> (#[trigger] observations@[k]).name@ != name@,
            decreases n - j,
        {
            if observations[j].name == *name {
                proof {
                    lemma_obs_for_skip(observations@, name@, j as int);
                    assert(observations@.skip(j as int)[0] == observations@[j as int]);
                }
                return Some(j);
            }
            j = j + 1;
        }
        proof {
            lemma_obs_for_skip(observations@, name@, n as int);
            assert(observations@.skip(n as int).len() == 0);
        }
        None
    }

    /// Scan every tracked template against the caller's observations, in
    /// registration order, re-registering each one whose source changed.
    ///
    /// A template is re-registered when its recorded or observed
    /// modification time is unknown, or the observed one is newer; its
    /// recorded time then becomes the observed one and its version moves on.
    /// The first failure - missing or failed metadata, unreadable source, or
    /// a source the engine rejects - is surfaced at once and aborts the
    /// scan: earlier templates keep their fresh state, the failing one and
    /// all later ones keep their previous, possibly stale, state.
    pub fn reload_if_needed(&mut self, observations: &Vec<TemplateObservation>) -> (r: Result<
        (),
        RegistrationError,
    >)
        requires
            old(self).wf(),
        ensures
            final(self).wf(),
            final(self).spec_files().len() == old(self).spec_files().len(),
            r is Ok <==> (forall|i: int|
                0 <= i < old(self).spec_files().len() ==> entry_scan_ok(
                    #[trigger] old(self).spec_files()[i],
                    observations@,
                )),
            r is Ok ==> (forall|i: int|
                0 <= i < old(self).spec_files().len() ==> final(self).spec_files()[i]
                    == entry_after_scan(#[trigger] old(self).spec_files()[i], observations@)),
            r matches Err(e) ==> (exists|i: int|
                {
                    &&& 0 <= i < old(self).spec_files().len()
                    &&& !entry_scan_ok(#[trigger] old(self).spec_files()[i], observations@)
                    &&& entry_scan_error_is(old(self).spec_files()[i], observations@, e)
                    &&& forall|j: int|
                        0 <= j < i ==> entry_scan_ok(
                            #[trigger] old(self).spec_files()[j],
                            observations@,
                        ) && final(self).spec_files()[j] == entry_after_scan(
                            old(self).spec_files()[j],
                            observations@,
                        )
                    &&& forall|j: int|
                        i <= j < old(self).spec_files().len() ==> final(self).spec_files()[j]
                            == old(self).spec_files()[j]
                }),
    {
        let n = self.files.len();
        let mut i: usize = 0;
        while i < n
            invariant
                old(self).wf(),
                n == old(self).spec_files().len(),
                self.spec_files().len() == n,
                i <= n,
                forall|j: int|
                    0 <= j < i ==> entry_scan_ok(
                        #[trigger] old(self).spec_files()[j],
                        observations@,
                    ),
                forall|j: int|
                    0 <= j < i ==> self.spec_files()[j] == entry_after_scan(
                        #[trigger] old(self).spec_files()[j],
                        observations@,
                    ),
                forall|j: int|
                    i <= j < n ==> self.spec_files()[j] == #[trigger] old(self).spec_files()[j],
                self.wf(),
            decreases n - i,
        {
            let nm: String = self.files[i].name.clone();
            let recorded: Option<u128> = self.files[i].mtime;
            let ghost e_old = old(self).spec_files()[i as int];
            proof {
                assert(self.spec_files()[i as int] == e_old);
            }
            match Self::find_observation(observations, &nm) {
                None => {
                    let err = RegistrationError::Metadata { name: nm };
                    proof {
                        let wi = i as int;
                        assert(!entry_scan_ok(old(self).spec_files()[wi], observations@));
                        assert(entry_scan_error_is(old(self).spec_files()[wi], observations@, err));
                    }
                    return Err(err);
                },
                Some(j) => {
                    let stat_ok = observations[j].stat_ok;
                    let observed: Option<u128> = observations[j].mtime;
                    if !stat_ok {
                        let err = RegistrationError::Metadata { name: nm };
                        proof {
                            let wi = i as int;
                            assert(!entry_scan_ok(old(self).spec_files()[wi], observations@));
                            assert(entry_scan_error_is(
                                old(self).spec_files()[wi],
                                observations@,
                                err,
                            ));
                        }
                        return Err(err);
                    }
                    if reload_needed_exec(recorded, observed) {
                        match &observations[j].source {
                            None => {
                                let err = RegistrationError::Io { name: nm };
                                proof {
                                    let wi = i as int;
                                    assert(!entry_scan_ok(
                                        old(self).spec_files()[wi],
                                        observations@,
                                    ));
                                    assert(entry_scan_error_is(
                                        old(self).spec_files()[wi],
                                        observations@,
                                        err,
                                    ));
                                }
                                return Err(err);
                            },
                            Some(src) => {
                                match engine_register(
                                    &mut self.handlebars,
                                    nm.as_str(),
                                    src.as_str(),
                                ) {
                                    Err(message) => {
                                        let err = RegistrationError::Syntax { name: nm, message };
                                        proof {
                                            let wi = i as int;
                                            assert(!entry_scan_ok(
                                                old(self).spec_files()[wi],
                                                observations@,
                                            ));
                                            assert(entry_scan_error_is(
                                                old(self).spec_files()[wi],
                                                observations@,
                                                err,
                                            ));
                                        }
                                        return Err(err);
                                    },
                                    Ok(()) => {
                                        let e = self.files.remove(i);
                                        let updated = TemplateFile {
                                            name: e.name,
                                            path: e.path,
                                            mtime: observed,
                                            version: next_version_exec(e.version),
                                        };
                                        self.files.insert(i, updated);
                                        proof {
                                            let prev = old(self).spec_files();
                                            let b = self.spec_files();
                                            assert(b[i as int] == entry_after_scan(
                                                e_old,
                                                observations@,
                                            ));
                                            assert(forall|j: int|
                                                0 <= j < n && j != i ==> b[j] == #[trigger] old(
                                                    self,
                                                ).spec_files()[j] || b[j] == entry_after_scan(
                                                    old(self).spec_files()[j],
                                                    observations@,
                                                ));
                                            assert forall|j: int| 0 <= j < b.len() implies (
                                            #[trigger] b[j]).name@ == prev[j].name@ by {
                                                if j != i as int {
                                                }
                                            }
                                            lemma_names_distinct_preserved(prev, b);
                                        }
                                    },
                                }
                            },
                        }
                    }
                },
            }
            i = i + 1;
        }
        Ok(())
    }
}

impl Default for ReloadableHandlebars {
    /// The same as `new`: a fresh engine, tracking nothing.
    fn default() -> (r: Self)
        ensures
            r.wf(),
            r.spec_files() == Seq::<TemplateFile>::empty(),
    {
        ReloadableHandlebars::new()
    }
}

} // verus!
