//! The records of the platform (users, organizations, projects, files,
//! annotations, chats) and an in-memory store of them with the analyses,
//! their documents and snapshots. What is saved under a key is what a read
//! of that key gives back, until it is saved over.
use vstd::prelude::*;
use crate::copy::DeepCopy;
use crate::diff::AnalysisSnapshot;
use crate::lexical::{newest_first, sort_newest_first};
use crate::model::{AnalysisOptions, Evidence, FileHashes, Role};
use crate::pipeline::PipelineStage;
use crate::report::{AnalysisReport, ReportDocument};
use crate::table::{list_at, Table};
use crate::text::{copy_string, eq_str, lower_chars, lower_seq, push_str, push_string, str_chars, string_of};

verus! {

// ---------------------------------------------------------------------------
// Records (identifiers as text, times as RFC 3339 text)
// ---------------------------------------------------------------------------

#[derive(Debug, Clone)]
pub struct User {
    pub id: String,
    pub email: String,
    pub name: String,
    pub avatar_url: Option<String>,
    pub created_at: String,
}

#[derive(Debug, Clone)]
pub struct Organization {
    pub id: String,
    pub name: String,
    pub slug: String,
    pub created_at: String,
}

#[derive(Debug, Clone)]
pub struct Project {
    pub id: String,
    pub org_id: String,
    pub name: String,
    pub description: Option<String>,
    pub created_by: String,
    pub created_at: String,
    pub updated_at: String,
}

#[derive(Debug, Clone)]
pub struct StoredFile {
    pub id: String,
    pub project_id: String,
    pub filename: String,
    pub size_bytes: u64,
    pub content_type: Option<String>,
    pub storage_key: String,
    pub hashes: FileHashes,
    pub uploaded_by: String,
    pub created_at: String,
}

#[derive(Debug, Clone)]
pub struct Annotation {
    pub id: String,
    pub analysis_id: String,
    pub author_id: String,
    pub target_address: Option<u64>,
    pub target_kind: String,
    pub body: String,
    pub highlight_color: Option<String>,
    pub created_at: String,
    pub updated_at: String,
}

#[derive(Debug, Clone)]
pub struct ChatSession {
    pub id: String,
    pub analysis_id: String,
    pub user_id: String,
    pub title: String,
    pub created_at: String,
    pub updated_at: String,
}

#[derive(Debug, Clone)]
pub struct ChatMessage {
    pub id: String,
    pub session_id: String,
    pub role: String,
    pub content: String,
    pub citations: Vec<Evidence>,
    pub created_at: String,
}

/// What a snapshot list shows of a snapshot.
#[derive(Debug, Clone)]
pub struct SnapshotMeta {
    pub id: String,
    pub analysis_id: String,
    pub label: String,
    pub created_at: String,
}

/// An analysis waiting in the queue.
#[derive(Debug, Clone)]
pub struct AnalysisJob {
    pub analysis_id: String,
    pub file_id: String,
    pub project_id: String,
    pub storage_key: String,
    pub filename: String,
    pub enqueued_at: String,
    pub options: AnalysisOptions,
}

// ---------------------------------------------------------------------------
// The store
// ---------------------------------------------------------------------------

/// Everything the platform keeps, in memory.
pub struct MemoryStore {
    password_hashes: Table<String>,
    memberships: Table<Table<Role>>,
    projects: Table<Project>,
    files: Table<StoredFile>,
    analyses: Table<AnalysisReport>,
    reports: Table<Vec<ReportDocument>>,
    annotations: Table<Vec<Annotation>>,
    chat_sessions: Table<ChatSession>,
    chat_messages: Table<Vec<ChatMessage>>,
    users: Table<User>,
    users_by_email: Table<String>,
    orgs: Table<Organization>,
    audit: Vec<String>,
    snapshots: Table<AnalysisSnapshot>,
}

impl MemoryStore {
    /// Every table's keys are distinct.
    pub closed spec fn wf(&self) -> bool {
        &&& self.password_hashes.wf()
        &&& self.memberships.wf()
        &&& forall|o: Seq<char>| #[trigger] self.memberships.map().dom().contains(o) ==> self.memberships.map()[o].wf()
        &&& self.projects.wf()
        &&& self.files.wf()
        &&& self.analyses.wf()
        &&& self.reports.wf()
        &&& self.annotations.wf()
        &&& self.chat_sessions.wf()
        &&& self.chat_messages.wf()
        &&& self.users.wf()
        &&& self.users_by_email.wf()
        &&& self.orgs.wf()
        &&& self.snapshots.wf()
    }

    /// Users by identifier.
    pub closed spec fn users(&self) -> Map<Seq<char>, User> {
        self.users.map()
    }

    /// User identifiers by lowercase e-mail address.
    pub closed spec fn users_by_email(&self) -> Map<Seq<char>, Seq<char>> {
        self.users_by_email.map().map_values(|s: String| s@)
    }

    /// Password hashes by lowercase e-mail address.
    pub closed spec fn password_hashes(&self) -> Map<Seq<char>, Seq<char>> {
        self.password_hashes.map().map_values(|s: String| s@)
    }

    /// Organizations by identifier.
    pub closed spec fn orgs(&self) -> Map<Seq<char>, Organization> {
        self.orgs.map()
    }

    /// The role of a user in an organization, if any.
    pub closed spec fn membership(&self, org: Seq<char>, user: Seq<char>) -> Option<Role> {
        if self.memberships.map().dom().contains(org) && self.memberships.map()[org].map().dom().contains(user) {
            Some(self.memberships.map()[org].map()[user])
        } else {
            None
        }
    }

    /// Projects by identifier.
    pub closed spec fn projects(&self) -> Map<Seq<char>, Project> {
        self.projects.map()
    }

    /// The projects, in the store's order.
    pub closed spec fn project_list(&self) -> Seq<Project> {
        self.projects.entries().map_values(|e: (Seq<char>, Project)| e.1)
    }

    /// Files by identifier.
    pub closed spec fn files(&self) -> Map<Seq<char>, StoredFile> {
        self.files.map()
    }

    /// Analyses by identifier.
    pub closed spec fn analyses(&self) -> Map<Seq<char>, AnalysisReport> {
        self.analyses.map()
    }

    /// The analyses, in the store's order.
    pub closed spec fn analysis_list(&self) -> Seq<AnalysisReport> {
        self.analyses.entries().map_values(|e: (Seq<char>, AnalysisReport)| e.1)
    }

    /// The documents of each analysis, in the order they were saved.
    pub closed spec fn reports(&self) -> Map<Seq<char>, Vec<ReportDocument>> {
        self.reports.map()
    }

    /// The annotations of each analysis, in the order they were saved.
    pub closed spec fn annotations(&self) -> Map<Seq<char>, Vec<Annotation>> {
        self.annotations.map()
    }

    /// Chat sessions by identifier.
    pub closed spec fn chat_sessions(&self) -> Map<Seq<char>, ChatSession> {
        self.chat_sessions.map()
    }

    /// The messages of each chat session, in the order they were added.
    pub closed spec fn chat_messages(&self) -> Map<Seq<char>, Vec<ChatMessage>> {
        self.chat_messages.map()
    }

    /// The audit log, oldest line first.
    pub closed spec fn audit_log(&self) -> Seq<Seq<char>> {
        self.audit@.map_values(|s: String| s@)
    }

    /// Snapshots by identifier.
    pub closed spec fn snapshots(&self) -> Map<Seq<char>, AnalysisSnapshot> {
        self.snapshots.map()
    }

    /// The snapshots, in the store's order.
    pub closed spec fn snapshot_list(&self) -> Seq<AnalysisSnapshot> {
        self.snapshots.entries().map_values(|e: (Seq<char>, AnalysisSnapshot)| e.1)
    }

    /// An empty store.
    pub fn new() -> (s: Self)
        ensures
            s.wf(),
            s.users() == Map::<Seq<char>, User>::empty(),
            s.users_by_email() == Map::<Seq<char>, Seq<char>>::empty(),
            s.password_hashes() == Map::<Seq<char>, Seq<char>>::empty(),
            s.orgs() == Map::<Seq<char>, Organization>::empty(),
            forall|o: Seq<char>, u: Seq<char>| s.membership(o, u) is None,
            s.projects() == Map::<Seq<char>, Project>::empty(),
            s.project_list() == Seq::<Project>::empty(),
            s.files() == Map::<Seq<char>, StoredFile>::empty(),
            s.analyses() == Map::<Seq<char>, AnalysisReport>::empty(),
            s.analysis_list() == Seq::<AnalysisReport>::empty(),
            s.reports() == Map::<Seq<char>, Vec<ReportDocument>>::empty(),
            s.annotations() == Map::<Seq<char>, Vec<Annotation>>::empty(),
            s.chat_sessions() == Map::<Seq<char>, ChatSession>::empty(),
            s.chat_messages() == Map::<Seq<char>, Vec<ChatMessage>>::empty(),
            s.audit_log() == Seq::<Seq<char>>::empty(),
            s.snapshots() == Map::<Seq<char>, AnalysisSnapshot>::empty(),
            s.snapshot_list() == Seq::<AnalysisSnapshot>::empty(),
    {
        let s = MemoryStore {
            password_hashes: Table::new(),
            memberships: Table::new(),
            projects: Table::new(),
            files: Table::new(),
            analyses: Table::new(),
            reports: Table::new(),
            annotations: Table::new(),
            chat_sessions: Table::new(),
            chat_messages: Table::new(),
            users: Table::new(),
            users_by_email: Table::new(),
            orgs: Table::new(),
            audit: Vec::new(),
            snapshots: Table::new(),
        };
        proof {
            assert(s.users_by_email() =~= Map::<Seq<char>, Seq<char>>::empty());
            assert(s.password_hashes() =~= Map::<Seq<char>, Seq<char>>::empty());
            assert(s.project_list() =~= Seq::<Project>::empty());
            assert(s.analysis_list() =~= Seq::<AnalysisReport>::empty());
            assert(s.audit_log() =~= Seq::<Seq<char>>::empty());
            assert(s.snapshot_list() =~= Seq::<AnalysisSnapshot>::empty());
        }
        s
    }
}

/// The users, e-mail index, password hashes, organizations and memberships
/// of two stores agree.
pub open spec fn same_accounts(a: MemoryStore, b: MemoryStore) -> bool {
    &&& a.users() == b.users()
    &&& a.users_by_email() == b.users_by_email()
    &&& a.password_hashes() == b.password_hashes()
    &&& a.orgs() == b.orgs()
    &&& forall|o: Seq<char>, u: Seq<char>| #[trigger] a.membership(o, u) == b.membership(o, u)
}

/// The projects and files of two stores agree.
pub open spec fn same_projects(a: MemoryStore, b: MemoryStore) -> bool {
    &&& a.projects() == b.projects()
    &&& a.project_list() == b.project_list()
    &&& a.files() == b.files()
}

/// The analyses of two stores agree.
pub open spec fn same_analysis_records(a: MemoryStore, b: MemoryStore) -> bool {
    &&& a.analyses() == b.analyses()
    &&& a.analysis_list() == b.analysis_list()
}

/// The documents, annotations and snapshots of two stores agree.
pub open spec fn same_attachments(a: MemoryStore, b: MemoryStore) -> bool {
    &&& a.reports() == b.reports()
    &&& a.annotations() == b.annotations()
    &&& a.snapshots() == b.snapshots()
    &&& a.snapshot_list() == b.snapshot_list()
}

/// The analyses, their documents, annotations and snapshots of two stores
/// agree.
pub open spec fn same_analyses(a: MemoryStore, b: MemoryStore) -> bool {
    same_analysis_records(a, b) && same_attachments(a, b)
}

/// The chat sessions and messages and the audit logs of two stores agree.
pub open spec fn same_chats(a: MemoryStore, b: MemoryStore) -> bool {
    &&& a.chat_sessions() == b.chat_sessions()
    &&& a.chat_messages() == b.chat_messages()
    &&& a.audit_log() == b.audit_log()
}

/// ASCII lowercase of a text, as a string.
fn lower_string(s: &str) -> (r: String)
    ensures
        r@ == lower_seq(s@),
{
    let cs = str_chars(s);
    let lc = lower_chars(cs.as_slice());
    string_of(lc.as_slice())
}

impl MemoryStore {
    /// Saves a user under its identifier and indexes it by its lowercase
    /// e-mail address; a password hash, where given, is kept under that
    /// address.
    pub fn upsert_user(&mut self, user: User, password_hash: Option<String>)
        requires
            old(self).wf(),
        ensures
            final(self).wf(),
            final(self).users() == old(self).users().insert(user.id@, user),
            final(self).users_by_email() == old(self).users_by_email().insert(lower_seq(user.email@), user.id@),
            final(self).password_hashes() == match password_hash {
                Some(h) => old(self).password_hashes().insert(lower_seq(user.email@), h@),
                None => old(self).password_hashes(),
            },
            final(self).orgs() == old(self).orgs(),
            forall|o: Seq<char>, u: Seq<char>| #[trigger] final(self).membership(o, u) == old(self).membership(o, u),
            same_projects(*final(self), *old(self)),
            same_analyses(*final(self), *old(self)),
            same_chats(*final(self), *old(self)),
    {
        let key = lower_string(user.email.as_str());
        let ghost e0 = self.users_by_email.map();
        let ghost h0 = self.password_hashes.map();
        self.users_by_email.insert(copy_string(&key), copy_string(&user.id));
        proof {
            assert(self.users_by_email() =~= old(self).users_by_email().insert(lower_seq(user.email@), user.id@));
        }
        match password_hash {
            Some(h) => {
                self.password_hashes.insert(key, h);
                proof {
                    assert(self.password_hashes() =~= old(self).password_hashes().insert(lower_seq(user.email@), h@));
                }
            },
            None => {},
        }
        let id = copy_string(&user.id);
        self.users.insert(id, user);
    }

    /// The user with this e-mail address (compared in lowercase) and the
    /// password hash kept for it.
    pub fn get_user_by_email(&self, email: &str) -> (r: Option<(&User, Option<&String>)>)
        requires
            self.wf(),
        ensures
            ({
                let key = lower_seq(email@);
                match r {
                    Some((u, h)) => {
                        &&& self.users_by_email().dom().contains(key)
                        &&& self.users().dom().contains(self.users_by_email()[key])
                        &&& *u == self.users()[self.users_by_email()[key]]
                        &&& (h is Some <==> self.password_hashes().dom().contains(key))
                        &&& (h matches Some(t) ==> t@ == self.password_hashes()[key])
                    },
                    None => !self.users_by_email().dom().contains(key)
                        || !self.users().dom().contains(self.users_by_email()[key]),
                }
            }),
    {
        let key = lower_string(email);
        match self.users_by_email.get(key.as_str()) {
            None => None,
            Some(id) => match self.users.get(id.as_str()) {
                None => None,
                Some(u) => Some((u, self.password_hashes.get(key.as_str()))),
            },
        }
    }

    /// The user with this identifier.
    pub fn get_user(&self, id: &str) -> (r: Option<&User>)
        requires
            self.wf(),
        ensures
            r is Some <==> self.users().dom().contains(id@),
            r matches Some(u) ==> *u == self.users()[id@],
    {
        self.users.get(id)
    }

    /// Saves an organization under its identifier.
    pub fn upsert_org(&mut self, org: Organization)
        requires
            old(self).wf(),
        ensures
            final(self).wf(),
            final(self).orgs() == old(self).orgs().insert(org.id@, org),
            final(self).users() == old(self).users(),
            final(self).users_by_email() == old(self).users_by_email(),
            final(self).password_hashes() == old(self).password_hashes(),
            forall|o: Seq<char>, u: Seq<char>| #[trigger] final(self).membership(o, u) == old(self).membership(o, u),
            same_projects(*final(self), *old(self)),
            same_analyses(*final(self), *old(self)),
            same_chats(*final(self), *old(self)),
    {
        let id = copy_string(&org.id);
        self.orgs.insert(id, org);
    }

    /// Gives a user a role in an organization, replacing any earlier one.
    pub fn set_membership(&mut self, org_id: &str, user_id: &str, role: Role)
        requires
            old(self).wf(),
        ensures
            final(self).wf(),
            forall|o: Seq<char>, u: Seq<char>| #[trigger] final(self).membership(o, u) == if o == org_id@ && u == user_id@ {
                Some(role)
            } else {
                old(self).membership(o, u)
            },
            final(self).users() == old(self).users(),
            final(self).users_by_email() == old(self).users_by_email(),
            final(self).password_hashes() == old(self).password_hashes(),
            final(self).orgs() == old(self).orgs(),
            same_projects(*final(self), *old(self)),
            same_analyses(*final(self), *old(self)),
            same_chats(*final(self), *old(self)),
    {
        let ghost m0 = self.memberships.map();
        match self.memberships.take(org_id) {
            Some((i, mut members)) => {
                let ghost m_mid = self.memberships.map();
                proof {
                    assert(m0.dom().contains(org_id@));
                    assert(members.wf());
                }
                members.insert(str_to_string(user_id), role);
                let ghost inner = members;
                self.memberships.put_at(i, str_to_string(org_id), members);
                proof {
                    assert(m_mid == m0.remove(org_id@));
                    assert(self.memberships.map() == m_mid.insert(org_id@, inner));
                    assert forall|o: Seq<char>| #[trigger] self.memberships.map().dom().contains(o) implies self.memberships.map()[o].wf() by {
                        if o != org_id@ {
                            assert(m0.dom().contains(o));
                        }
                    }
                }
            },
            None => {
                let mut members: Table<Role> = Table::new();
                members.insert(str_to_string(user_id), role);
                let ghost inner = members;
                self.memberships.insert(str_to_string(org_id), members);
                proof {
                    assert(self.memberships.map() == m0.insert(org_id@, inner));
                    assert forall|o: Seq<char>| #[trigger] self.memberships.map().dom().contains(o) implies self.memberships.map()[o].wf() by {
                        if o != org_id@ {
                            assert(m0.dom().contains(o));
                        }
                    }
                }
            },
        }
    }

    /// The role of a user in an organization.
    pub fn get_membership(&self, org_id: &str, user_id: &str) -> (r: Option<Role>)
        requires
            self.wf(),
        ensures
            r == self.membership(org_id@, user_id@),
    {
        match self.memberships.get(org_id) {
            Some(members) => match members.get(user_id) {
                Some(role) => Some(*role),
                None => None,
            },
            None => None,
        }
    }

    /// An organization in which the user has a role, with that role.
    pub fn find_org_for_user(&self, user_id: &str) -> (r: Option<(String, Role)>)
        requires
            self.wf(),
        ensures
            r is Some <==> exists|o: Seq<char>| #[trigger] self.membership(o, user_id@) is Some,
            r matches Some((o, role)) ==> self.membership(o@, user_id@) == Some(role),
    {
        let n = self.memberships.len();
        let mut i: usize = 0;
        while i < n
            invariant
                self.wf(),
                i <= n,
                n == self.memberships.entries().len(),
                forall|j: int| 0 <= j < i ==> !(#[trigger] self.memberships.entries()[j]).1.map().dom().contains(user_id@),
            decreases n - i,
        {
            let (org, members) = self.memberships.entry(i);
            proof {
                crate::table::lemma_entries_map_at(self.memberships.entries(), i as int);
                assert(self.memberships.map().dom().contains(org@));
            }
            match members.get(user_id) {
                Some(role) => {
                    return Some((copy_string(org), *role));
                },
                None => {},
            }
            i += 1;
        }
        proof {
            assert forall|o: Seq<char>| !(#[trigger] self.membership(o, user_id@) is Some) by {
                if self.memberships.map().dom().contains(o) {
                    crate::table::lemma_entries_map_dom(self.memberships.entries(), o);
                    let j = choose|j: int| 0 <= j < self.memberships.entries().len() && self.memberships.entries()[j].0 == o;
                    crate::table::lemma_entries_map_at(self.memberships.entries(), j);
                }
            }
        }
        None
    }
}

impl MemoryStore {
    /// Saves a project under its identifier.
    pub fn create_project(&mut self, project: Project)
        requires
            old(self).wf(),
        ensures
            final(self).wf(),
            final(self).projects() == old(self).projects().insert(project.id@, project),
            old(self).projects().dom().contains(project.id@) ==> exists|i: int|
                0 <= i < old(self).project_list().len() && final(self).project_list() == old(self).project_list().update(i, project),
            !old(self).projects().dom().contains(project.id@) ==> final(self).project_list() == old(self).project_list().push(project),
            final(self).files() == old(self).files(),
            same_accounts(*final(self), *old(self)),
            same_analyses(*final(self), *old(self)),
            same_chats(*final(self), *old(self)),
    {
        let ghost e0 = self.projects.entries();
        let ghost p0 = project;
        let id = copy_string(&project.id);
        self.projects.insert(id, project);
        proof {
            if old(self).projects().dom().contains(p0.id@) {
                let i = choose|i: int| 0 <= i < e0.len() && e0[i].0 == p0.id@
                    && self.projects.entries() == e0.update(i, (p0.id@, p0));
                assert(self.project_list() =~= old(self).project_list().update(i, p0));
            } else {
                assert(self.project_list() =~= old(self).project_list().push(p0));
            }
        }
    }

    /// The project with this identifier.
    pub fn get_project(&self, id: &str) -> (r: Option<&Project>)
        requires
            self.wf(),
        ensures
            r is Some <==> self.projects().dom().contains(id@),
            r matches Some(p) ==> *p == self.projects()[id@],
    {
        self.projects.get(id)
    }

    /// The projects of an organization, newest first.
    pub fn list_projects(&self, org_id: &str) -> (r: Vec<&Project>)
        requires
            self.wf(),
        ensures
            r@.map_values(|p: &Project| *p).to_multiset()
                == self.project_list().filter(|p: Project| p.org_id@ == org_id@).to_multiset(),
            newest_first(r@.map_values(|p: &Project| *p), |p: Project| p.created_at@),
    {
        let ghost vals = self.project_list();
        let ghost pred = |p: Project| p.org_id@ == org_id@;
        let n = self.projects.len();
        let mut picked: Vec<&Project> = Vec::new();
        let mut stamps: Vec<Vec<char>> = Vec::new();
        let mut i: usize = 0;
        while i < n
            invariant
                i <= n,
                n == vals.len(),
                vals == self.project_list(),
                pred == (|p: Project| p.org_id@ == org_id@),
                picked@.len() == stamps@.len(),
                picked@.map_values(|p: &Project| *p) == vals.take(i as int).filter(pred),
                forall|t: int| 0 <= t < picked@.len() ==> #[trigger] stamps@[t]@ == picked@[t].created_at@,
            decreases n - i,
        {
            let (_, p) = self.projects.entry(i);
            proof {
                assert(vals[i as int] == *p);
                assert(vals.take(i + 1).drop_last() =~= vals.take(i as int));
                assert(vals.take(i + 1).last() == *p);
            }
            let oc = str_chars(p.org_id.as_str());
            if eq_str(oc.as_slice(), org_id) {
                let ghost before = picked@;
                picked.push(p);
                stamps.push(str_chars(p.created_at.as_str()));
                proof {
                    assert(picked@.map_values(|p: &Project| *p) =~= before.map_values(|p: &Project| *p).push(*p));
                    assert(pred(*p));
                    reveal(Seq::filter);
                    assert(vals.take(i + 1).filter(pred) == vals.take(i as int).filter(pred).push(*p));
                }
            } else {
                proof {
                    assert(!pred(*p));
                    reveal(Seq::filter);
                    assert(vals.take(i + 1).filter(pred) == vals.take(i as int).filter(pred));
                }
            }
            i += 1;
        }
        proof {
            assert(vals.take(n as int) =~= vals);
        }
        let sorted = sort_newest_first(picked, stamps, Ghost(|p: &Project| p.created_at@));
        proof {
            crate::lexical::lemma_map_preserves_permutation(sorted@, picked@, |p: &Project| *p);
            let m = sorted@.map_values(|p: &Project| *p);
            let st = |p: Project| p.created_at@;
            let sr = |p: &Project| p.created_at@;
            assert forall|a: int, b: int| 0 <= a < b < m.len() implies !crate::lexical::lex_lt(
                #[trigger] st(m[a]),
                #[trigger] st(m[b]),
            ) by {
                assert(sr(sorted@[a]) == st(m[a]));
                assert(sr(sorted@[b]) == st(m[b]));
            }
        }
        sorted
    }

    /// Saves a file record under its identifier.
    pub fn create_file(&mut self, file: StoredFile)
        requires
            old(self).wf(),
        ensures
            final(self).wf(),
            final(self).files() == old(self).files().insert(file.id@, file),
            final(self).projects() == old(self).projects(),
            final(self).project_list() == old(self).project_list(),
            same_accounts(*final(self), *old(self)),
            same_analyses(*final(self), *old(self)),
            same_chats(*final(self), *old(self)),
    {
        let id = copy_string(&file.id);
        self.files.insert(id, file);
    }

    /// The file record with this identifier.
    pub fn get_file(&self, id: &str) -> (r: Option<&StoredFile>)
        requires
            self.wf(),
        ensures
            r is Some <==> self.files().dom().contains(id@),
            r matches Some(f) ==> *f == self.files()[id@],
    {
        self.files.get(id)
    }
}

impl MemoryStore {
    /// Saves an analysis report under its identifier.
    pub fn save_analysis(&mut self, report: AnalysisReport)
        requires
            old(self).wf(),
        ensures
            final(self).wf(),
            final(self).analyses() == old(self).analyses().insert(report.id@, report),
            old(self).analyses().dom().contains(report.id@) ==> exists|i: int|
                0 <= i < old(self).analysis_list().len() && final(self).analysis_list() == old(self).analysis_list().update(i, report),
            !old(self).analyses().dom().contains(report.id@) ==> final(self).analysis_list() == old(self).analysis_list().push(report),
            same_attachments(*final(self), *old(self)),
            same_accounts(*final(self), *old(self)),
            same_projects(*final(self), *old(self)),
            same_chats(*final(self), *old(self)),
    {
        let ghost e0 = self.analyses.entries();
        let ghost r0 = report;
        let id = copy_string(&report.id);
        self.analyses.insert(id, report);
        proof {
            if old(self).analyses().dom().contains(r0.id@) {
                let i = choose|i: int| 0 <= i < e0.len() && e0[i].0 == r0.id@
                    && self.analyses.entries() == e0.update(i, (r0.id@, r0));
                assert(self.analysis_list() =~= old(self).analysis_list().update(i, r0));
            } else {
                assert(self.analysis_list() =~= old(self).analysis_list().push(r0));
            }
        }
    }

    /// Moves a stored analysis to a stage with its progress and error, and
    /// stamps it with the current time; nothing happens where no analysis
    /// has this identifier.
    pub fn update_analysis_stage(&mut self, id: &str, stage: PipelineStage, progress: u8, error: Option<String>)
        requires
            old(self).wf(),
        ensures
            final(self).wf(),
            !old(self).analyses().dom().contains(id@) ==> same_analysis_records(*final(self), *old(self)),
            old(self).analyses().dom().contains(id@) ==> {
                let r0 = old(self).analyses()[id@];
                let r1 = final(self).analyses()[id@];
                &&& final(self).analyses() == old(self).analyses().insert(id@, r1)
                &&& r1 == AnalysisReport { stage, progress, error, updated_at: r1.updated_at, ..r0 }
                &&& exists|i: int| 0 <= i < old(self).analysis_list().len()
                    && final(self).analysis_list() == old(self).analysis_list().update(i, r1)
            },
            same_attachments(*final(self), *old(self)),
            same_accounts(*final(self), *old(self)),
            same_projects(*final(self), *old(self)),
            same_chats(*final(self), *old(self)),
    {
        let ghost e0 = self.analyses.entries();
        match self.analyses.take(id) {
            Some((i, mut r)) => {
                r.stage = stage;
                r.progress = progress;
                r.error = error;
                r.updated_at = crate::reports::now_rfc3339();
                let ghost r1 = r;
                self.analyses.put_at(i, str_to_string(id), r);
                proof {
                    assert(e0.remove(i as int).insert(i as int, (id@, r1)) =~= e0.update(i as int, (id@, r1)));
                    crate::table::lemma_entries_map_update(e0, i as int, r1);
                    assert(self.analyses() == old(self).analyses().insert(id@, r1));
                    assert(self.analysis_list() =~= old(self).analysis_list().update(i as int, r1));
                }
            },
            None => {},
        }
    }

    /// The analysis with this identifier.
    pub fn get_analysis(&self, id: &str) -> (r: Option<&AnalysisReport>)
        requires
            self.wf(),
        ensures
            r is Some <==> self.analyses().dom().contains(id@),
            r matches Some(a) ==> *a == self.analyses()[id@],
    {
        self.analyses.get(id)
    }

    /// The analyses of a project, newest first.
    pub fn list_analyses(&self, project_id: &str) -> (r: Vec<&AnalysisReport>)
        requires
            self.wf(),
        ensures
            r@.map_values(|a: &AnalysisReport| *a).to_multiset()
                == self.analysis_list().filter(|a: AnalysisReport| a.project_id@ == project_id@).to_multiset(),
            newest_first(r@.map_values(|a: &AnalysisReport| *a), |a: AnalysisReport| a.created_at@),
    {
        let ghost vals = self.analysis_list();
        let ghost pred = |a: AnalysisReport| a.project_id@ == project_id@;
        let n = self.analyses.len();
        let mut picked: Vec<&AnalysisReport> = Vec::new();
        let mut stamps: Vec<Vec<char>> = Vec::new();
        let mut i: usize = 0;
        while i < n
            invariant
                i <= n,
                n == vals.len(),
                vals == self.analysis_list(),
                pred == (|a: AnalysisReport| a.project_id@ == project_id@),
                picked@.len() == stamps@.len(),
                picked@.map_values(|a: &AnalysisReport| *a) == vals.take(i as int).filter(pred),
                forall|t: int| 0 <= t < picked@.len() ==> #[trigger] stamps@[t]@ == picked@[t].created_at@,
            decreases n - i,
        {
            let (_, a) = self.analyses.entry(i);
            proof {
                assert(vals[i as int] == *a);
                assert(vals.take(i + 1).drop_last() =~= vals.take(i as int));
                assert(vals.take(i + 1).last() == *a);
            }
            let pc = str_chars(a.project_id.as_str());
            if eq_str(pc.as_slice(), project_id) {
                let ghost before = picked@;
                picked.push(a);
                stamps.push(str_chars(a.created_at.as_str()));
                proof {
                    assert(picked@.map_values(|a: &AnalysisReport| *a) =~= before.map_values(|a: &AnalysisReport| *a).push(*a));
                    assert(pred(*a));
                    reveal(Seq::filter);
                    assert(vals.take(i + 1).filter(pred) == vals.take(i as int).filter(pred).push(*a));
                }
            } else {
                proof {
                    assert(!pred(*a));
                    reveal(Seq::filter);
                    assert(vals.take(i + 1).filter(pred) == vals.take(i as int).filter(pred));
                }
            }
            i += 1;
        }
        proof {
            assert(vals.take(n as int) =~= vals);
        }
        let sorted = sort_newest_first(picked, stamps, Ghost(|a: &AnalysisReport| a.created_at@));
        proof {
            crate::lexical::lemma_map_preserves_permutation(sorted@, picked@, |a: &AnalysisReport| *a);
            let m = sorted@.map_values(|a: &AnalysisReport| *a);
            let st = |a: AnalysisReport| a.created_at@;
            let sr = |a: &AnalysisReport| a.created_at@;
            assert forall|x: int, y: int| 0 <= x < y < m.len() implies !crate::lexical::lex_lt(
                #[trigger] st(m[x]),
                #[trigger] st(m[y]),
            ) by {
                assert(sr(sorted@[x]) == st(m[x]));
                assert(sr(sorted@[y]) == st(m[y]));
            }
        }
        sorted
    }

    /// Appends documents to their analyses' lists, in order.
    pub fn save_reports(&mut self, docs: Vec<ReportDocument>)
        requires
            old(self).wf(),
        ensures
            final(self).wf(),
            forall|k: Seq<char>| #[trigger] list_at(final(self).reports(), k) == list_at(old(self).reports(), k)
                + docs@.filter(|d: ReportDocument| d.analysis_id@ == k),
            final(self).annotations() == old(self).annotations(),
            final(self).snapshots() == old(self).snapshots(),
            final(self).snapshot_list() == old(self).snapshot_list(),
            same_analysis_records(*final(self), *old(self)),
            same_accounts(*final(self), *old(self)),
            same_projects(*final(self), *old(self)),
            same_chats(*final(self), *old(self)),
    {
        let ghost all = docs@;
        let mut rest = docs;
        let n = rest.len();
        let mut i: usize = 0;
        while i < n
            invariant
                i <= n,
                n == all.len(),
                rest@ == all.subrange(i as int, n as int),
                self.wf(),
                forall|k: Seq<char>| #[trigger] list_at(self.reports(), k) == list_at(old(self).reports(), k)
                    + all.take(i as int).filter(|d: ReportDocument| d.analysis_id@ == k),
                self.annotations() == old(self).annotations(),
                self.snapshots() == old(self).snapshots(),
                self.snapshot_list() == old(self).snapshot_list(),
                same_analysis_records(*self, *old(self)),
                same_accounts(*self, *old(self)),
                same_projects(*self, *old(self)),
                same_chats(*self, *old(self)),
            decreases n - i,
        {
            let ghost r0 = rest@;
            let d = rest.remove(0);
            proof {
                assert(r0[0] == all[i as int]);
                assert(rest@ =~= all.subrange(i + 1, n as int));
            }
            let ghost before = self.reports();
            let ghost prev = *self;
            let key = copy_string(&d.analysis_id);
            let ghost dd = d;
            self.reports.append(key, d);
            proof {
                assert forall|o: Seq<char>, u: Seq<char>| #[trigger] self.membership(o, u) == old(self).membership(o, u) by {
                    assert(self.membership(o, u) == prev.membership(o, u));
                }
                assert forall|k: Seq<char>| #[trigger] list_at(self.reports(), k) == list_at(old(self).reports(), k)
                    + all.take(i + 1).filter(|d: ReportDocument| d.analysis_id@ == k) by {
                    let pred = |d: ReportDocument| d.analysis_id@ == k;
                    assert(all.take(i + 1).drop_last() =~= all.take(i as int));
                    assert(all.take(i + 1).last() == dd);
                    reveal(Seq::filter);
                    assert(list_at(before, k) == list_at(old(self).reports(), k) + all.take(i as int).filter(pred));
                    if k == dd.analysis_id@ {
                        assert(all.take(i + 1).filter(pred) == all.take(i as int).filter(pred).push(dd));
                        assert(list_at(self.reports(), k) =~= list_at(old(self).reports(), k)
                            + all.take(i + 1).filter(pred));
                    } else {
                        assert(all.take(i + 1).filter(pred) == all.take(i as int).filter(pred));
                    }
                }
            }
            i += 1;
        }
        proof {
            assert(all.take(n as int) =~= all);
        }
    }

    /// The documents of an analysis, in the order they were saved.
    pub fn list_reports(&self, analysis_id: &str) -> (r: Vec<&ReportDocument>)
        requires
            self.wf(),
        ensures
            r@.map_values(|d: &ReportDocument| *d) == list_at(self.reports(), analysis_id@),
    {
        self.reports.list(analysis_id)
    }

    /// Appends an annotation to its analysis's list.
    pub fn save_annotation(&mut self, ann: Annotation)
        requires
            old(self).wf(),
        ensures
            final(self).wf(),
            forall|k: Seq<char>| #[trigger] list_at(final(self).annotations(), k) == if k == ann.analysis_id@ {
                list_at(old(self).annotations(), k).push(ann)
            } else {
                list_at(old(self).annotations(), k)
            },
            final(self).reports() == old(self).reports(),
            final(self).snapshots() == old(self).snapshots(),
            final(self).snapshot_list() == old(self).snapshot_list(),
            same_analysis_records(*final(self), *old(self)),
            same_accounts(*final(self), *old(self)),
            same_projects(*final(self), *old(self)),
            same_chats(*final(self), *old(self)),
    {
        let key = copy_string(&ann.analysis_id);
        self.annotations.append(key, ann);
    }

    /// The annotations of an analysis, in the order they were saved.
    pub fn list_annotations(&self, analysis_id: &str) -> (r: Vec<&Annotation>)
        requires
            self.wf(),
        ensures
            r@.map_values(|a: &Annotation| *a) == list_at(self.annotations(), analysis_id@),
    {
        self.annotations.list(analysis_id)
    }
}

/// How the audit log shows an optional identifier.
pub open spec fn shown_id(id: Option<Seq<char>>) -> Seq<char> {
    match id {
        Some(x) => "Some("@ + x + ")"@,
        None => "None"@,
    }
}

/// The audit line of an action, after its time.
pub open spec fn audit_tail(org: Option<Seq<char>>, user: Option<Seq<char>>, action: Seq<char>, resource: Seq<char>) -> Seq<char> {
    " org="@ + shown_id(org) + " user="@ + shown_id(user) + " action="@ + action + " resource="@ + resource
}

/// The text of an optional text.
pub open spec fn opt_str_view(s: Option<&str>) -> Option<Seq<char>> {
    match s {
        Some(x) => Some(x@),
        None => None,
    }
}

fn push_shown_id(line: &mut String, id: Option<&str>)
    ensures
        final(line)@ == old(line)@ + shown_id(opt_str_view(id)),
{
    match id {
        Some(x) => {
            push_str(line, "Some(");
            push_str(line, x);
            push_str(line, ")");
        },
        None => push_str(line, "None"),
    }
}

impl MemoryStore {
    /// Saves a chat session under its identifier.
    pub fn create_chat_session(&mut self, session: ChatSession)
        requires
            old(self).wf(),
        ensures
            final(self).wf(),
            final(self).chat_sessions() == old(self).chat_sessions().insert(session.id@, session),
            final(self).chat_messages() == old(self).chat_messages(),
            final(self).audit_log() == old(self).audit_log(),
            same_accounts(*final(self), *old(self)),
            same_projects(*final(self), *old(self)),
            same_analyses(*final(self), *old(self)),
    {
        let id = copy_string(&session.id);
        self.chat_sessions.insert(id, session);
    }

    /// Appends a message to its session's list.
    pub fn add_chat_message(&mut self, msg: ChatMessage)
        requires
            old(self).wf(),
        ensures
            final(self).wf(),
            forall|k: Seq<char>| #[trigger] list_at(final(self).chat_messages(), k) == if k == msg.session_id@ {
                list_at(old(self).chat_messages(), k).push(msg)
            } else {
                list_at(old(self).chat_messages(), k)
            },
            final(self).chat_sessions() == old(self).chat_sessions(),
            final(self).audit_log() == old(self).audit_log(),
            same_accounts(*final(self), *old(self)),
            same_projects(*final(self), *old(self)),
            same_analyses(*final(self), *old(self)),
    {
        let key = copy_string(&msg.session_id);
        self.chat_messages.append(key, msg);
    }

    /// The messages of a session, in the order they were added.
    pub fn list_chat_messages(&self, session_id: &str) -> (r: Vec<&ChatMessage>)
        requires
            self.wf(),
        ensures
            r@.map_values(|m: &ChatMessage| *m) == list_at(self.chat_messages(), session_id@),
    {
        self.chat_messages.list(session_id)
    }

    /// Adds a line to the audit log: the current time, then who did what to
    /// which resource.
    pub fn audit(&mut self, org_id: Option<&str>, user_id: Option<&str>, action: &str, resource: &str)
        requires
            old(self).wf(),
        ensures
            final(self).wf(),
            final(self).audit_log().len() == old(self).audit_log().len() + 1,
            final(self).audit_log().drop_last() == old(self).audit_log(),
            exists|t: Seq<char>| final(self).audit_log().last()
                == t + audit_tail(opt_str_view(org_id), opt_str_view(user_id), action@, resource@),
            final(self).chat_sessions() == old(self).chat_sessions(),
            final(self).chat_messages() == old(self).chat_messages(),
            same_accounts(*final(self), *old(self)),
            same_projects(*final(self), *old(self)),
            same_analyses(*final(self), *old(self)),
    {
        let mut line = crate::reports::now_rfc3339();
        let ghost t = line@;
        push_str(&mut line, " org=");
        push_shown_id(&mut line, org_id);
        push_str(&mut line, " user=");
        push_shown_id(&mut line, user_id);
        push_str(&mut line, " action=");
        push_str(&mut line, action);
        push_str(&mut line, " resource=");
        push_str(&mut line, resource);
        proof {
            assert(line@ =~= t + audit_tail(opt_str_view(org_id), opt_str_view(user_id), action@, resource@));
        }
        let ghost l = line@;
        self.audit.push(line);
        proof {
            assert(self.audit_log().drop_last() =~= old(self).audit_log());
            assert(self.audit_log().last() == l);
        }
    }

    /// Saves a snapshot under its identifier.
    pub fn save_snapshot(&mut self, snap: AnalysisSnapshot)
        requires
            old(self).wf(),
        ensures
            final(self).wf(),
            final(self).snapshots() == old(self).snapshots().insert(snap.id@, snap),
            old(self).snapshots().dom().contains(snap.id@) ==> exists|i: int|
                0 <= i < old(self).snapshot_list().len() && final(self).snapshot_list() == old(self).snapshot_list().update(i, snap),
            !old(self).snapshots().dom().contains(snap.id@) ==> final(self).snapshot_list() == old(self).snapshot_list().push(snap),
            final(self).reports() == old(self).reports(),
            final(self).annotations() == old(self).annotations(),
            same_analysis_records(*final(self), *old(self)),
            same_accounts(*final(self), *old(self)),
            same_projects(*final(self), *old(self)),
            same_chats(*final(self), *old(self)),
    {
        let ghost e0 = self.snapshots.entries();
        let ghost s0 = snap;
        let id = copy_string(&snap.id);
        self.snapshots.insert(id, snap);
        proof {
            if old(self).snapshots().dom().contains(s0.id@) {
                let i = choose|i: int| 0 <= i < e0.len() && e0[i].0 == s0.id@
                    && self.snapshots.entries() == e0.update(i, (s0.id@, s0));
                assert(self.snapshot_list() =~= old(self).snapshot_list().update(i, s0));
            } else {
                assert(self.snapshot_list() =~= old(self).snapshot_list().push(s0));
            }
        }
    }

    /// The snapshot with this identifier.
    pub fn get_snapshot(&self, id: &str) -> (r: Option<&AnalysisSnapshot>)
        requires
            self.wf(),
        ensures
            r is Some <==> self.snapshots().dom().contains(id@),
            r matches Some(s) ==> *s == self.snapshots()[id@],
    {
        self.snapshots.get(id)
    }

    /// The snapshots of an analysis, newest first.
    pub fn list_snapshots(&self, analysis_id: &str) -> (r: Vec<&AnalysisSnapshot>)
        requires
            self.wf(),
        ensures
            r@.map_values(|s: &AnalysisSnapshot| *s).to_multiset()
                == self.snapshot_list().filter(|s: AnalysisSnapshot| s.analysis_id@ == analysis_id@).to_multiset(),
            newest_first(r@.map_values(|s: &AnalysisSnapshot| *s), |s: AnalysisSnapshot| s.created_at@),
    {
        let ghost vals = self.snapshot_list();
        let ghost pred = |s: AnalysisSnapshot| s.analysis_id@ == analysis_id@;
        let n = self.snapshots.len();
        let mut picked: Vec<&AnalysisSnapshot> = Vec::new();
        let mut stamps: Vec<Vec<char>> = Vec::new();
        let mut i: usize = 0;
        while i < n
            invariant
                i <= n,
                n == vals.len(),
                vals == self.snapshot_list(),
                pred == (|s: AnalysisSnapshot| s.analysis_id@ == analysis_id@),
                picked@.len() == stamps@.len(),
                picked@.map_values(|s: &AnalysisSnapshot| *s) == vals.take(i as int).filter(pred),
                forall|t: int| 0 <= t < picked@.len() ==> #[trigger] stamps@[t]@ == picked@[t].created_at@,
            decreases n - i,
        {
            let (_, a) = self.snapshots.entry(i);
            proof {
                assert(vals[i as int] == *a);
                assert(vals.take(i + 1).drop_last() =~= vals.take(i as int));
                assert(vals.take(i + 1).last() == *a);
            }
            let ac = str_chars(a.analysis_id.as_str());
            if eq_str(ac.as_slice(), analysis_id) {
                let ghost before = picked@;
                picked.push(a);
                stamps.push(str_chars(a.created_at.as_str()));
                proof {
                    assert(picked@.map_values(|s: &AnalysisSnapshot| *s) =~= before.map_values(|s: &AnalysisSnapshot| *s).push(*a));
                    assert(pred(*a));
                    reveal(Seq::filter);
                    assert(vals.take(i + 1).filter(pred) == vals.take(i as int).filter(pred).push(*a));
                }
            } else {
                proof {
                    assert(!pred(*a));
                    reveal(Seq::filter);
                    assert(vals.take(i + 1).filter(pred) == vals.take(i as int).filter(pred));
                }
            }
            i += 1;
        }
        proof {
            assert(vals.take(n as int) =~= vals);
        }
        let sorted = sort_newest_first(picked, stamps, Ghost(|s: &AnalysisSnapshot| s.created_at@));
        proof {
            crate::lexical::lemma_map_preserves_permutation(sorted@, picked@, |s: &AnalysisSnapshot| *s);
            let m = sorted@.map_values(|s: &AnalysisSnapshot| *s);
            let st = |s: AnalysisSnapshot| s.created_at@;
            let sr = |s: &AnalysisSnapshot| s.created_at@;
            assert forall|x: int, y: int| 0 <= x < y < m.len() implies !crate::lexical::lex_lt(
                #[trigger] st(m[x]),
                #[trigger] st(m[y]),
            ) by {
                assert(sr(sorted@[x]) == st(m[x]));
                assert(sr(sorted@[y]) == st(m[y]));
            }
        }
        sorted
    }

    /// Saves a copy of a snapshot's report, stamped with the current time,
    /// as the current state of its analysis and gives back that analysis's
    /// identifier; `None` where no snapshot has this identifier.
    pub fn restore_snapshot(&mut self, id: &str) -> (r: Option<String>)
        requires
            old(self).wf(),
        ensures
            final(self).wf(),
            r is Some <==> old(self).snapshots().dom().contains(id@),
            r is None ==> same_analysis_records(*final(self), *old(self)),
            r matches Some(k) ==> {
                let saved = old(self).snapshots()[id@].report;
                let restored = final(self).analyses()[k@];
                &&& k@ == saved.id@
                &&& final(self).analyses() == old(self).analyses().insert(k@, restored)
                &&& AnalysisReport { updated_at: restored.updated_at, ..saved }.same(&restored)
            },
            same_attachments(*final(self), *old(self)),
            same_accounts(*final(self), *old(self)),
            same_projects(*final(self), *old(self)),
            same_chats(*final(self), *old(self)),
    {
        let mut report = match self.snapshots.get(id) {
            Some(snap) => snap.report.deep_copy(),
            None => {
                return None;
            },
        };
        let ghost saved = self.snapshots()[id@].report;
        report.updated_at = crate::reports::now_rfc3339();
        let ghost restored = report;
        let key = copy_string(&report.id);
        self.save_analysis(report);
        proof {
            assert(AnalysisReport { updated_at: restored.updated_at, ..saved }.same(&restored));
        }
        Some(key)
    }
}

/// A user saved by `upsert_user` is what `get_user_by_email` finds under
/// any spelling of the address that has the same lowercase form, and the
/// password hash saved with it is the one found.
pub proof fn law_user_found_by_email(before: MemoryStore, after: MemoryStore, user: User, hash: Seq<char>, email: Seq<char>)
    requires
        after.users() == before.users().insert(user.id@, user),
        after.users_by_email() == before.users_by_email().insert(lower_seq(user.email@), user.id@),
        after.password_hashes() == before.password_hashes().insert(lower_seq(user.email@), hash),
        lower_seq(email) == lower_seq(user.email@),
    ensures
        after.users_by_email().dom().contains(lower_seq(email)),
        after.users().dom().contains(after.users_by_email()[lower_seq(email)]),
        after.users()[after.users_by_email()[lower_seq(email)]] == user,
        after.password_hashes()[lower_seq(email)] == hash,
{
}

/// An analysis saved by `save_analysis` is what `get_analysis` reads back
/// under its identifier, and the analyses under every other identifier are
/// as they were.
pub proof fn law_analysis_read_after_save(before: MemoryStore, after: MemoryStore, report: AnalysisReport)
    requires
        after.analyses() == before.analyses().insert(report.id@, report),
    ensures
        after.analyses().dom().contains(report.id@),
        after.analyses()[report.id@] == report,
        forall|k: Seq<char>| k != report.id@ ==> (#[trigger] after.analyses().dom().contains(k) <==> before.analyses().dom().contains(k)),
        forall|k: Seq<char>| k != report.id@ && before.analyses().dom().contains(k) ==> #[trigger] after.analyses()[k] == before.analyses()[k],
{
}

/// A project created by `create_project` under a new identifier is listed
/// by `list_projects` for its organization, beside every project listed
/// there before.
pub proof fn law_created_project_is_listed(before: MemoryStore, after: MemoryStore, project: Project)
    requires
        !before.projects().dom().contains(project.id@),
        after.project_list() == before.project_list().push(project),
    ensures
        after.project_list().filter(|p: Project| p.org_id@ == project.org_id@).to_multiset()
            == before.project_list().filter(|p: Project| p.org_id@ == project.org_id@).to_multiset().insert(project),
{
    broadcast use vstd::seq_lib::group_to_multiset_ensures;

    let pred = |p: Project| p.org_id@ == project.org_id@;
    reveal(Seq::filter);
    assert(after.project_list().drop_last() =~= before.project_list());
    assert(after.project_list().filter(pred) == before.project_list().filter(pred).push(project));
    vstd::seq_lib::to_multiset_build(before.project_list().filter(pred), project);
}

/// After `set_membership`, `get_membership` gives the new role for that
/// organization and user, and every other membership is as it was.
pub proof fn law_membership_read_after_set(
    before: MemoryStore,
    after: MemoryStore,
    org: Seq<char>,
    user: Seq<char>,
    role: Role,
    other_org: Seq<char>,
    other_user: Seq<char>,
)
    requires
        forall|o: Seq<char>, u: Seq<char>| #[trigger] after.membership(o, u) == if o == org && u == user {
            Some(role)
        } else {
            before.membership(o, u)
        },
        other_org != org || other_user != user,
    ensures
        after.membership(org, user) == Some(role),
        after.membership(other_org, other_user) == before.membership(other_org, other_user),
{
    assert(after.membership(org, user) == Some(role));
    assert(after.membership(other_org, other_user) == before.membership(other_org, other_user));
}

/// The text as an owned string.
fn str_to_string(s: &str) -> (r: String)
    ensures
        r@ == s@,
{
    let cs = str_chars(s);
    string_of(cs.as_slice())
}

} // verus!
