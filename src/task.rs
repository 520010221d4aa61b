//! The work on one identifier, as a state machine. The caller performs each
//! action it is handed (list the save directory, read a file, make a request,
//! pause, write the image, write the ledger) and feeds the result back to the
//! method that the action names; the machine makes every decision.

use vstd::prelude::*;
use crate::digest::{calculate_sha256, sha256_hex};
use crate::errors::SyncError;
use crate::formats::{detect_format, extension_of, format_named, get_img_extension, guessed_format_name};
use crate::ledger::{records, unique_ids, upserted, EntryView, LockFile};
use crate::reply::{is_valid_link, read_reply, reply_outcome, url_parses};
use crate::retry::{RetryState, MAX_RETRY, RETRY_DELAY_SECS};
use crate::text::{after_last, lemma_after_last_len, strings, suffix_after_last, trim, trim_str};

verus! {

/// Base of the metadata endpoint; the identifier is appended as a path segment.
pub const WALLHAVEN_API: &'static str = "https://wallhaven.cc/api/v1/w";

/// Identifiers worked on at the same time, at most.
pub const MAX_IN_FLIGHT: usize = 10;

/// A file name without its extension: everything before the last `.`,
/// unless that dot is the first character or there is none.
pub open spec fn stem_of(name: Seq<char>) -> Seq<char> {
    let t = after_last(name, '.').len();
    if t == name.len() || t + 1 == name.len() {
        name
    } else {
        name.subrange(0, name.len() - t - 1)
    }
}

/// `i` is the first of `names` whose stem is `id`.
pub open spec fn first_match(names: Seq<Seq<char>>, id: Seq<char>, i: int) -> bool {
    &&& 0 <= i < names.len()
    &&& stem_of(names[i]) == id
    &&& forall|k: int| 0 <= k < i ==> stem_of(names[k]) != id
}

/// Some of `names` has the stem `id`.
pub open spec fn any_match(names: Seq<Seq<char>>, id: Seq<char>) -> bool {
    exists|k: int| 0 <= k < names.len() && stem_of(names[k]) == id
}

/// The path of `name` inside `dir`.
pub open spec fn join_path(dir: Seq<char>, name: Seq<char>) -> Seq<char> {
    dir + "/"@ + name
}

/// Where an asset is stored: `dir/id.ext`.
pub open spec fn asset_path(dir: Seq<char>, id: Seq<char>, ext: Seq<char>) -> Seq<char> {
    dir + "/"@ + id + "."@ + ext
}

/// The metadata request for an identifier.
pub open spec fn metadata_url(id: Seq<char>) -> Seq<char> {
    WALLHAVEN_API@ + "/"@ + trim(id)
}

/// The stem of a file name.
pub fn stem(name: &str) -> (r: String)
    ensures
        r@ == stem_of(name@),
{
    let n = name.unicode_len();
    let tail = suffix_after_last(name, '.');
    let t = tail.unicode_len();
    proof {
        lemma_after_last_len(name@, '.');
    }
    if t == n || t + 1 == n {
        name.to_owned()
    } else {
        name.substring_char(0, n - t - 1).to_owned()
    }
}

/// The position of the first directory entry whose stem is exactly
/// `wallpaper` (case-sensitive, any extension).
pub fn find_existing_image(names: &Vec<String>, wallpaper: &str) -> (r: Option<usize>)
    ensures
        r matches Some(i) ==> first_match(strings(names@), wallpaper@, i as int),
        r is None <==> !any_match(strings(names@), wallpaper@),
{
    let ghost ns = strings(names@);
    let target = wallpaper.to_owned();
    let mut i: usize = 0;
    while i < names.len()
        invariant
            ns == strings(names@),
            target@ == wallpaper@,
            i <= names@.len(),
            forall|k: int| 0 <= k < i ==> stem_of(ns[k]) != wallpaper@,
        decreases names@.len() - i,
    {
        let s = stem(names[i].as_str());
        assert(ns[i as int] == names@[i as int]@);
        if s == target {
            return Some(i);
        }
        i = i + 1;
    }
    None
}

/// `dir/name`.
pub fn join(dir: &str, name: &str) -> (r: String)
    ensures
        r@ == join_path(dir@, name@),
{
    let mut p = dir.to_owned();
    p.append("/");
    p.append(name);
    p
}

/// The metadata request URL for an identifier.
pub fn metadata_link(id: &str) -> (r: String)
    ensures
        r@ == metadata_url(id@),
{
    let mut u = WALLHAVEN_API.to_owned();
    u.append("/");
    let t = trim_str(id);
    u.append(t.as_str());
    u
}

/// The ledger after upserting the entries `es` into `s`, in order.
pub open spec fn upsert_into(s: Seq<EntryView>, es: Seq<EntryView>) -> Seq<EntryView>
    decreases es.len(),
{
    if es.len() == 0 {
        s
    } else {
        let p = upsert_into(s, es.drop_last());
        upserted(p, es.last().0, es.last().1, es.last().2)
    }
}

/// Recording another identifier keeps what is recorded for `id`.
pub proof fn lemma_upsert_other_keeps(
    t: Seq<EntryView>,
    id: Seq<char>,
    digest: Seq<char>,
    o: EntryView,
)
    requires
        records(t, id, digest),
        o.0 != id,
    ensures
        records(upserted(t, o.0, o.1, o.2), id, digest),
{
    let j = choose|j: int| 0 <= j < t.len() && t[j].0 == id && t[j].2 == digest;
    let u = upserted(t, o.0, o.1, o.2);
    if exists|i: int| 0 <= i < t.len() && t[i].0 == o.0 {
        let i = choose|i: int| 0 <= i < t.len() && t[i].0 == o.0;
        assert(u[j] == t[j]);
    } else {
        assert(u[j] == t[j]);
    }
}

/// Once a file with content `b` has been recorded for `id` (the ledger
/// change of `on_recorded`), the same content passes the check of
/// `on_checked`, however many other identifiers are recorded after it. So a
/// second run over unchanged files skips every identifier, through
/// `on_checked`, which takes the ledger read-only.
pub proof fn lemma_second_run_skips(
    s: Seq<EntryView>,
    id: Seq<char>,
    loc: Seq<char>,
    b: Seq<u8>,
    others: Seq<EntryView>,
)
    requires
        unique_ids(s),
        forall|k: int| 0 <= k < others.len() ==> others[k].0 != id,
    ensures
        records(upsert_into(upserted(s, id, loc, sha256_hex(b)), others), id, sha256_hex(b)),
    decreases others.len(),
{
    crate::ledger::lemma_upsert_keeps_unique(s, id, loc, sha256_hex(b));
    if others.len() > 0 {
        lemma_second_run_skips(s, id, loc, b, others.drop_last());
        lemma_upsert_other_keeps(
            upsert_into(upserted(s, id, loc, sha256_hex(b)), others.drop_last()),
            id,
            sha256_hex(b),
            others.last(),
        );
    }
}

/// A first run that records, for each identifier of `run` in turn, the
/// location and digest of the file it wrote (the ledger change of
/// `on_recorded`) leaves a ledger in which every one of those identifiers
/// passes the check of `on_checked` against the same content. So a second
/// run over unchanged files skips every identifier, makes no request, and,
/// as `on_checked` takes the ledger read-only, leaves the ledger as it is.
pub proof fn lemma_second_run_skips_all(s: Seq<EntryView>, run: Seq<EntryView>)
    requires
        unique_ids(s),
        unique_ids(run),
    ensures
        unique_ids(upsert_into(s, run)),
        forall|k: int| 0 <= k < run.len() ==> records(upsert_into(s, run), #[trigger] run[k].0, run[k].2),
    decreases run.len(),
{
    if run.len() > 0 {
        let init = run.drop_last();
        let e = run.last();
        lemma_second_run_skips_all(s, init);
        let p = upsert_into(s, init);
        crate::ledger::lemma_upsert_keeps_unique(p, e.0, e.1, e.2);
        assert forall|k: int| 0 <= k < run.len() implies records(
            upsert_into(s, run),
            #[trigger] run[k].0,
            run[k].2,
        ) by {
            if k < run.len() - 1 {
                assert(init[k] == run[k]);
                lemma_upsert_other_keeps(p, run[k].0, run[k].2, e);
            }
        }
    }
}

/// With integrity off, a task never stands where the ledger is consulted
/// (`on_checked`) or changed (`on_recorded`, then its write): with the file
/// present the identifier is skipped at once, as `on_listed` states.
pub proof fn lemma_integrity_off_leaves_ledger(t: Task)
    requires
        t.wf(),
        !t.spec_integrity(),
    ensures
        !(t.spec_phase() is Checking),
        !(t.spec_phase() is Recording),
        !(t.spec_phase() is Persisting),
{
}

/// What became of one identifier.
#[derive(PartialEq, Eq, Structural, Clone, Copy, Debug)]
pub enum Outcome {
    /// The stored file was kept.
    Skipped,
    /// The asset was fetched and stored.
    Downloaded,
    Failed(SyncError),
}

/// Where the work on one identifier stands.
#[derive(Debug)]
pub enum Phase {
    Start,
    /// Waiting for the listing of the save directory.
    Listing,
    /// Waiting for the content of the stored file, to check its digest.
    Checking,
    /// Metadata request attempt `n` (from 1) is under way.
    Fetching(u32),
    /// Attempt `n` failed; pausing before the next one.
    Waiting(u32),
    /// Waiting for the asset bytes.
    Downloading,
    /// Waiting for the asset to be written at this path.
    Saving(String),
    /// Waiting for the content of the file just written at this path.
    Recording(String),
    /// Waiting for the ledger to be written.
    Persisting,
    Done(Outcome),
}

/// What the caller is to do next, and which method takes the result.
#[derive(Debug)]
pub enum Action {
    /// List the file names in this directory; then `on_listed`.
    ListDir(String),
    /// Read this file; then `on_checked`, holding the ledger.
    ReadFile(String),
    /// Request this URL as text; then `on_reply`.
    GetText(String),
    /// Pause for this many seconds; then `on_slept`.
    Sleep(u64),
    /// Request this URL as bytes; then `on_body`.
    GetBytes(String),
    /// Decode the bytes as an image and write it, in the format detected from
    /// its content, at this path; then `on_saved`.
    Save { path: String, bytes: Vec<u8> },
    /// Read the file just written at this path; then `on_recorded`, holding
    /// the ledger.
    Record(String),
    /// Write the whole ledger; then `on_persisted`.
    Persist,
    /// Nothing more: the identifier ended so.
    Finish(Outcome),
}

/// The work on one identifier.
pub struct Task {
    id: String,
    dir: String,
    integrity: bool,
    phase: Phase,
}

impl Task {
    pub closed spec fn spec_id(&self) -> Seq<char> {
        self.id@
    }

    pub closed spec fn spec_dir(&self) -> Seq<char> {
        self.dir@
    }

    pub closed spec fn spec_integrity(&self) -> bool {
        self.integrity
    }

    pub closed spec fn spec_phase(&self) -> Phase {
        self.phase
    }

    /// The ledger is only ever consulted or changed with integrity on, and an
    /// attempt number stays within the retry budget.
    pub open spec fn wf(&self) -> bool {
        &&& (self.spec_phase() is Checking || self.spec_phase() is Recording
            || self.spec_phase() is Persisting) ==> self.spec_integrity()
        &&& self.spec_phase() matches Phase::Fetching(n) ==> 1 <= n <= MAX_RETRY
        &&& self.spec_phase() matches Phase::Waiting(n) ==> 1 <= n < MAX_RETRY
    }

    /// The identifier, save directory and integrity mode stay as they were.
    pub open spec fn same_job(&self, other: &Task) -> bool {
        &&& self.spec_id() == other.spec_id()
        &&& self.spec_dir() == other.spec_dir()
        &&& self.spec_integrity() == other.spec_integrity()
    }

    /// The state after the task ended with `o`.
    pub open spec fn ended(&self, r: &Action, o: Outcome) -> bool {
        &&& self.spec_phase() == Phase::Done(o)
        &&& *r == Action::Finish(o)
    }

    /// The state after a metadata request attempt `n` was sent.
    pub open spec fn requesting(&self, r: &Action, n: u32) -> bool {
        &&& self.spec_phase() == Phase::Fetching(n)
        &&& r matches Action::GetText(u) && u@ == metadata_url(self.spec_id())
    }

    /// Work on identifier `id`, stored under directory `dir`.
    pub fn new(id: String, dir: String, integrity: bool) -> (r: Task)
        ensures
            r.wf(),
            r.spec_id() == id@,
            r.spec_dir() == dir@,
            r.spec_integrity() == integrity,
            r.spec_phase() == Phase::Start,
    {
        Task { id, dir, integrity, phase: Phase::Start }
    }

    /// The identifier.
    pub fn id(&self) -> (r: &str)
        ensures
            r@ == self.spec_id(),
    {
        self.id.as_str()
    }

    /// Where the task stands.
    pub fn phase(&self) -> (r: &Phase)
        ensures
            *r == self.spec_phase(),
    {
        &self.phase
    }

    fn fetch(&mut self) -> (r: Action)
        requires
            old(self).wf(),
        ensures
            final(self).wf(),
            final(self).same_job(old(self)),
            final(self).requesting(&r, 1),
    {
        self.phase = Phase::Fetching(1);
        Action::GetText(metadata_link(self.id.as_str()))
    }

    fn fail(&mut self, e: SyncError) -> (r: Action)
        requires
            old(self).wf(),
        ensures
            final(self).wf(),
            final(self).same_job(old(self)),
            final(self).ended(&r, Outcome::Failed(e)),
    {
        self.phase = Phase::Done(Outcome::Failed(e));
        Action::Finish(Outcome::Failed(e))
    }

    fn finish(&mut self, o: Outcome) -> (r: Action)
        requires
            old(self).wf(),
        ensures
            final(self).wf(),
            final(self).same_job(old(self)),
            final(self).ended(&r, o),
    {
        self.phase = Phase::Done(o);
        Action::Finish(o)
    }

    /// Starts: the save directory is listed first.
    pub fn begin(&mut self) -> (r: Action)
        requires
            old(self).wf(),
            old(self).spec_phase() is Start,
        ensures
            final(self).wf(),
            final(self).same_job(old(self)),
            final(self).spec_phase() is Listing,
            r matches Action::ListDir(d) && d@ == old(self).spec_dir(),
    {
        self.phase = Phase::Listing;
        Action::ListDir(self.dir.clone())
    }

    /// Takes the file names of the save directory (none when it could not be
    /// listed). Without a file whose stem is the identifier, the metadata is
    /// requested. With one, the identifier is skipped when integrity is off;
    /// with integrity on, the first such file is read for its digest.
    pub fn on_listed(&mut self, names: Option<Vec<String>>) -> (r: Action)
        requires
            old(self).wf(),
            old(self).spec_phase() is Listing,
        ensures
            final(self).wf(),
            final(self).same_job(old(self)),
            names is None ==> final(self).ended(&r, Outcome::Failed(SyncError::ListDir)),
            names is Some && !any_match(strings(names->0@), old(self).spec_id())
                ==> final(self).requesting(&r, 1),
            names is Some && any_match(strings(names->0@), old(self).spec_id())
                && !old(self).spec_integrity() ==> final(self).ended(&r, Outcome::Skipped),
            names is Some && any_match(strings(names->0@), old(self).spec_id())
                && old(self).spec_integrity() ==> {
                &&& final(self).spec_phase() is Checking
                &&& r matches Action::ReadFile(p) && exists|i: int|
                    first_match(strings(names->0@), old(self).spec_id(), i) && p@ == join_path(
                        old(self).spec_dir(),
                        strings(names->0@)[i],
                    )
            },
    {
        match names {
            None => self.fail(SyncError::ListDir),
            Some(ns) => match find_existing_image(&ns, self.id.as_str()) {
                None => self.fetch(),
                Some(i) => {
                    if !self.integrity {
                        self.finish(Outcome::Skipped)
                    } else {
                        let path = join(self.dir.as_str(), ns[i].as_str());
                        assert(strings(ns@)[i as int] == ns@[i as int]@);
                        self.phase = Phase::Checking;
                        Action::ReadFile(path)
                    }
                },
            },
        }
    }

    /// Takes the content of the stored file (none when it could not be read)
    /// and the ledger. The identifier is skipped when the ledger records the
    /// file's digest for it; otherwise the asset is fetched again.
    pub fn on_checked(&mut self, contents: Option<Vec<u8>>, ledger: &LockFile) -> (r: Action)
        requires
            old(self).wf(),
            old(self).spec_phase() is Checking,
        ensures
            final(self).wf(),
            final(self).same_job(old(self)),
            contents is None ==> final(self).ended(&r, Outcome::Failed(SyncError::ReadFile)),
            contents is Some && records(ledger@, old(self).spec_id(), sha256_hex(contents->0@))
                ==> final(self).ended(&r, Outcome::Skipped),
            contents is Some && !records(ledger@, old(self).spec_id(), sha256_hex(contents->0@))
                ==> final(self).requesting(&r, 1),
    {
        match contents {
            None => self.fail(SyncError::ReadFile),
            Some(b) => {
                let digest = calculate_sha256(b.as_slice());
                if ledger.contains(self.id.as_str(), digest.as_str()) {
                    self.finish(Outcome::Skipped)
                } else {
                    self.fetch()
                }
            },
        }
    }

    /// Takes the asset link read from the metadata (or why there is none).
    /// A link that is not a valid URL fails the identifier; a valid one is
    /// downloaded.
    pub fn on_link(&mut self, link: Result<String, SyncError>) -> (r: Action)
        requires
            old(self).wf(),
            old(self).spec_phase() is Fetching,
        ensures
            final(self).wf(),
            final(self).same_job(old(self)),
            link matches Err(e) ==> final(self).ended(&r, Outcome::Failed(e)),
            link is Ok && !url_parses(link->Ok_0@) ==> final(self).ended(
                &r,
                Outcome::Failed(SyncError::BadUrl),
            ),
            link is Ok && url_parses(link->Ok_0@) ==> {
                &&& final(self).spec_phase() is Downloading
                &&& r matches Action::GetBytes(g) && g@ == link->Ok_0@
            },
    {
        match link {
            Err(e) => self.fail(e),
            Ok(u) => {
                if is_valid_link(u.as_str()) {
                    self.phase = Phase::Downloading;
                    Action::GetBytes(u)
                } else {
                    self.fail(SyncError::BadUrl)
                }
            },
        }
    }

    /// Takes the reply to the metadata request (none on a transport error).
    /// A transport error is retried after a pause while attempts remain, and
    /// fails the identifier with `Fetch` after the last one. A reply that
    /// names no link fails the identifier with the reason; a link that is a
    /// valid URL is downloaded, any other fails with `BadUrl`.
    pub fn on_reply(&mut self, reply: Option<String>) -> (r: Action)
        requires
            old(self).wf(),
            old(self).spec_phase() is Fetching,
        ensures
            final(self).wf(),
            final(self).same_job(old(self)),
            old(self).spec_phase() is Fetching && reply is None && old(self).spec_phase()->Fetching_0 < MAX_RETRY
                ==> {
                &&& final(self).spec_phase() == Phase::Waiting(old(self).spec_phase()->Fetching_0)
                &&& r == Action::Sleep(RETRY_DELAY_SECS)
            },
            old(self).spec_phase() is Fetching && reply is None && old(self).spec_phase()->Fetching_0 >= MAX_RETRY
                ==> final(self).ended(&r, Outcome::Failed(SyncError::Fetch)),
            reply is Some && reply_outcome(reply->0@) is Err ==> final(self).ended(
                &r,
                Outcome::Failed(reply_outcome(reply->0@)->Err_0),
            ),
            reply is Some && reply_outcome(reply->0@) is Ok && !url_parses(
                reply_outcome(reply->0@)->Ok_0,
            ) ==> final(self).ended(&r, Outcome::Failed(SyncError::BadUrl)),
            reply is Some && reply_outcome(reply->0@) is Ok && url_parses(
                reply_outcome(reply->0@)->Ok_0,
            ) ==> {
                &&& final(self).spec_phase() is Downloading
                &&& r matches Action::GetBytes(g) && g@ == reply_outcome(reply->0@)->Ok_0
            },
    {
        match reply {
            None => {
                let n = match self.phase {
                    Phase::Fetching(n) => n,
                    _ => 1,
                };
                let (next, pause) = RetryState::Attempt(n).on_result(false);
                if pause {
                    self.phase = Phase::Waiting(n);
                    Action::Sleep(RETRY_DELAY_SECS)
                } else {
                    assert(next == RetryState::Failed);
                    self.fail(SyncError::Fetch)
                }
            },
            Some(text) => {
                let link = read_reply(text.as_str());
                self.on_link(link)
            },
        }
    }

    /// After the pause, the next attempt is made.
    pub fn on_slept(&mut self) -> (r: Action)
        requires
            old(self).wf(),
            old(self).spec_phase() is Waiting,
        ensures
            final(self).wf(),
            final(self).same_job(old(self)),
            final(self).requesting(&r, (old(self).spec_phase()->Waiting_0 + 1) as u32),
    {
        let n = match self.phase {
            Phase::Waiting(n) => n,
            _ => 1,
        };
        self.phase = Phase::Fetching(n + 1);
        Action::GetText(metadata_link(self.id.as_str()))
    }

    /// Takes the asset bytes (none when the download failed). Their format
    /// is detected from the content, and they are to be written at
    /// `dir/id.ext` with that format's extension.
    pub fn on_body(&mut self, body: Option<Vec<u8>>) -> (r: Action)
        requires
            old(self).wf(),
            old(self).spec_phase() is Downloading,
        ensures
            final(self).wf(),
            final(self).same_job(old(self)),
            body is None ==> final(self).ended(&r, Outcome::Failed(SyncError::Download)),
            body is Some && guessed_format_name(body->0@) is None ==> final(self).ended(
                &r,
                Outcome::Failed(SyncError::Decode),
            ),
            body is Some && guessed_format_name(body->0@) is Some ==> {
                let p = asset_path(
                    old(self).spec_dir(),
                    old(self).spec_id(),
                    extension_of(format_named(guessed_format_name(body->0@)->0)),
                );
                &&& final(self).spec_phase() matches Phase::Saving(q) && q@ == p
                &&& r matches Action::Save { path, bytes } && path@ == p && bytes@ == body->0@
            },
    {
        match body {
            None => self.fail(SyncError::Download),
            Some(b) => match detect_format(b.as_slice()) {
                None => self.fail(SyncError::Decode),
                Some(f) => {
                    let mut path = join(self.dir.as_str(), self.id.as_str());
                    path.append(".");
                    path.append(get_img_extension(&f));
                    self.phase = Phase::Saving(path.clone());
                    Action::Save { path, bytes: b }
                },
            },
        }
    }

    /// Takes whether the asset was written. With integrity on, the written
    /// file is read back for its digest; otherwise the identifier is done.
    pub fn on_saved(&mut self, ok: bool) -> (r: Action)
        requires
            old(self).wf(),
            old(self).spec_phase() is Saving,
        ensures
            final(self).wf(),
            final(self).same_job(old(self)),
            !ok ==> final(self).ended(&r, Outcome::Failed(SyncError::Save)),
            ok && !old(self).spec_integrity() ==> final(self).ended(&r, Outcome::Downloaded),
            ok && old(self).spec_integrity() ==> {
                &&& final(self).spec_phase() matches Phase::Recording(q) && q@
                    == old(self).spec_phase()->Saving_0@
                &&& r matches Action::Record(a) && a@ == old(self).spec_phase()->Saving_0@
            },
    {
        if !ok {
            return self.fail(SyncError::Save);
        }
        if !self.integrity {
            return self.finish(Outcome::Downloaded);
        }
        let p = match &self.phase {
            Phase::Saving(p) => p.clone(),
            _ => String::new(),
        };
        self.phase = Phase::Recording(p.clone());
        Action::Record(p)
    }

    /// Takes the content of the file just written (none when it could not be
    /// read) and the ledger, and records the file's location and digest for
    /// the identifier, replacing an earlier entry.
    pub fn on_recorded(&mut self, contents: Option<Vec<u8>>, ledger: &mut LockFile) -> (r: Action)
        requires
            old(self).wf(),
            old(self).spec_phase() is Recording,
            old(ledger).wf(),
        ensures
            final(self).wf(),
            final(self).same_job(old(self)),
            final(ledger).wf(),
            contents is None ==> final(self).ended(&r, Outcome::Failed(SyncError::ReadFile))
                && *final(ledger) == *old(ledger),
            contents is Some ==> {
                &&& final(ledger)@ == upserted(
                    old(ledger)@,
                    old(self).spec_id(),
                    old(self).spec_phase()->Recording_0@,
                    sha256_hex(contents->0@),
                )
                &&& final(self).spec_phase() is Persisting
                &&& r == Action::Persist
            },
    {
        match contents {
            None => self.fail(SyncError::ReadFile),
            Some(b) => {
                let p = match &self.phase {
                    Phase::Recording(p) => p.clone(),
                    _ => String::new(),
                };
                let digest = calculate_sha256(b.as_slice());
                ledger.add(self.id.clone(), p, digest);
                self.phase = Phase::Persisting;
                Action::Persist
            },
        }
    }

    /// Takes whether the ledger was written.
    pub fn on_persisted(&mut self, ok: bool) -> (r: Action)
        requires
            old(self).wf(),
            old(self).spec_phase() is Persisting,
        ensures
            final(self).wf(),
            final(self).same_job(old(self)),
            ok ==> final(self).ended(&r, Outcome::Downloaded),
            !ok ==> final(self).ended(&r, Outcome::Failed(SyncError::Persist)),
    {
        if ok {
            self.finish(Outcome::Downloaded)
        } else {
            self.fail(SyncError::Persist)
        }
    }
}

} // verus!
