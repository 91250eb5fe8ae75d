//! Browser session history and action log: sessions stay listed after they
//! close, with the actions taken in them.

use vstd::prelude::*;

use crate::order::{is_ordering, is_sorted_order, key_view, keys_view, sort_order, text_key, text_key_of, KeyPart, KeyView};
use crate::store::lemma_filter_step;
use crate::text::{clone_opt, first_index, lemma_first_index, opt_str_view, owned};

verus! {

/// Summary of a browser session (active or closed).
#[derive(Debug, Clone)]
pub struct SessionRecord {
    pub session_id: String,
    pub sandboxed: bool,
    pub url: Option<String>,
    pub created_at: String,
    pub closed_at: Option<String>,
}

/// A single action logged against a browser session.
#[derive(Debug, Clone)]
pub struct ActionLogEntry {
    pub id: i64,
    pub action: String,
    pub url: Option<String>,
    pub success: bool,
    pub error: Option<String>,
    pub duration_ms: i64,
    pub created_at: String,
}

/// A logged action with the session it belongs to.
#[derive(Debug, Clone)]
pub struct ActionRow {
    pub session_id: String,
    pub entry: ActionLogEntry,
}

/// Browser sessions and their action log, in the order they were written.
#[derive(Debug, Clone, Default)]
pub struct BrowserSessionStore {
    pub sessions: Vec<SessionRecord>,
    pub actions: Vec<ActionRow>,
}

impl SessionRecord {
    /// An exact copy.
    pub fn copy(&self) -> (r: Self)
        ensures
            r == *self,
    {
        SessionRecord {
            session_id: self.session_id.clone(),
            sandboxed: self.sandboxed,
            url: clone_opt(&self.url),
            created_at: self.created_at.clone(),
            closed_at: clone_opt(&self.closed_at),
        }
    }
}

impl ActionLogEntry {
    /// An exact copy.
    pub fn copy(&self) -> (r: Self)
        ensures
            r == *self,
    {
        ActionLogEntry {
            id: self.id,
            action: self.action.clone(),
            url: clone_opt(&self.url),
            success: self.success,
            error: clone_opt(&self.error),
            duration_ms: self.duration_ms,
            created_at: self.created_at.clone(),
        }
    }
}

/// The ids of sessions.
pub open spec fn session_ids(s: Seq<SessionRecord>) -> Seq<Seq<char>> {
    s.map_values(|x: SessionRecord| x.session_id@)
}

/// `b` is `a` with every session of this id at a new URL.
pub open spec fn url_set(a: Seq<SessionRecord>, b: Seq<SessionRecord>, id: Seq<char>, url: Seq<char>) -> bool {
    &&& b.len() == a.len()
    &&& forall|j: int|
        0 <= j < a.len() ==> if (#[trigger] a[j]).session_id@ == id {
            &&& b[j].url matches Some(u) && u@ == url
            &&& b[j].session_id == a[j].session_id && b[j].sandboxed == a[j].sandboxed
            &&& b[j].created_at == a[j].created_at && b[j].closed_at == a[j].closed_at
        } else {
            b[j] == a[j]
        }
}

/// Sessions with this id are closed at `now`.
pub open spec fn closed(s: Seq<SessionRecord>, id: Seq<char>, now: String) -> Seq<SessionRecord> {
    s.map_values(|x: SessionRecord| if x.session_id@ == id { SessionRecord { closed_at: Some(now), ..x } } else { x })
}

/// Newest first, by creation time.
pub open spec fn session_keys(s: Seq<SessionRecord>) -> Seq<Seq<KeyView>> {
    s.map_values(|x: SessionRecord| text_key(x.created_at@))
}

/// Actions of one session.
pub open spec fn action_of(id: Seq<char>) -> spec_fn(ActionRow) -> bool {
    |a: ActionRow| a.session_id@ == id
}

/// The log entries of actions.
pub open spec fn entries(a: Seq<ActionRow>) -> Seq<ActionLogEntry> {
    a.map_values(|x: ActionRow| x.entry)
}

/// Newest first, by creation time.
pub open spec fn entry_keys(a: Seq<ActionLogEntry>) -> Seq<Seq<KeyView>> {
    a.map_values(|x: ActionLogEntry| text_key(x.created_at@))
}

/// The smaller of a limit and a length.
pub open spec fn capped(limit: u32, len: int) -> int {
    if (limit as int) < len {
        limit as int
    } else {
        len
    }
}

impl BrowserSessionStore {
    /// Session ids occur once, and the `i`th logged action has id `i + 1`.
    pub open spec fn well_formed(self) -> bool {
        &&& session_ids(self.sessions@).no_duplicates()
        &&& forall|i: int| 0 <= i < self.actions@.len() ==> #[trigger] self.actions@[i].entry.id == i + 1
    }

    /// Records a new session started at `now`; a session already recorded
    /// with this id is kept as it is.
    pub fn start_session_at(&mut self, session_id: &str, sandboxed: bool, now: String)
        ensures
            first_index(session_ids(old(self).sessions@), session_id@) is Some ==> *final(self) == *old(self),
            first_index(session_ids(old(self).sessions@), session_id@) is None ==> {
                &&& final(self).sessions@.len() == old(self).sessions@.len() + 1
                &&& final(self).sessions@.drop_last() == old(self).sessions@
                &&& final(self).sessions@.last().session_id@ == session_id@
                &&& final(self).sessions@.last().sandboxed == sandboxed
                &&& final(self).sessions@.last().url is None
                &&& final(self).sessions@.last().created_at == now
                &&& final(self).sessions@.last().closed_at is None
                &&& final(self).actions == old(self).actions
            },
            old(self).well_formed() ==> final(self).well_formed(),
    {
        let ghost ids = session_ids(self.sessions@);
        let mut i: usize = 0;
        while i < self.sessions.len()
            invariant
                i <= self.sessions.len(),
                ids == session_ids(self.sessions@),
                forall|j: int| 0 <= j < i ==> ids[j] != session_id@,
            decreases self.sessions.len() - i,
        {
            if crate::text::str_equal(self.sessions[i].session_id.as_str(), session_id) {
                proof {
                    lemma_first_index(ids, session_id@, i as int);
                }
                return;
            }
            i += 1;
        }
        proof {
            lemma_first_index(ids, session_id@, i as int);
        }
        self.sessions.push(SessionRecord { session_id: owned(session_id), sandboxed, url: None, created_at: now, closed_at: None });
        assert(self.sessions@.drop_last() =~= old(self).sessions@);
        proof {
            assert(session_ids(self.sessions@) =~= ids.push(session_id@));
            assert(self.actions == old(self).actions);
        }
    }

    fn set_url(&mut self, session_id: &str, url: &str)
        ensures
            url_set(old(self).sessions@, final(self).sessions@, session_id@, url@),
            final(self).actions == old(self).actions,
    {
        let mut i: usize = 0;
        while i < self.sessions.len()
            invariant
                i <= self.sessions.len(),
                self.sessions@.len() == old(self).sessions@.len(),
                self.actions == old(self).actions,
                forall|j: int|
                    0 <= j < i ==> if (#[trigger] old(self).sessions@[j]).session_id@ == session_id@ {
                        &&& self.sessions@[j].url matches Some(u) && u@ == url@
                        &&& self.sessions@[j].session_id == old(self).sessions@[j].session_id
                        &&& self.sessions@[j].sandboxed == old(self).sessions@[j].sandboxed
                        &&& self.sessions@[j].created_at == old(self).sessions@[j].created_at
                        &&& self.sessions@[j].closed_at == old(self).sessions@[j].closed_at
                    } else {
                        self.sessions@[j] == old(self).sessions@[j]
                    },
                forall|j: int| i <= j < self.sessions@.len() ==> self.sessions@[j] == old(self).sessions@[j],
            decreases self.sessions.len() - i,
        {
            if crate::text::str_equal(self.sessions[i].session_id.as_str(), session_id) {
                let mut rec = self.sessions[i].copy();
                rec.url = Some(owned(url));
                self.sessions.set(i, rec);
            }
            i += 1;
        }
    }

    /// Logs an action taken at `now` with the next action id; a successful
    /// action with a URL also becomes the session's current URL.
    pub fn log_action_at(
        &mut self,
        session_id: &str,
        action: &str,
        url: Option<&str>,
        success: bool,
        error: Option<&str>,
        duration_ms: u64,
        now: String,
    )
        requires
            old(self).actions@.len() < i64::MAX,
        ensures
            success && url is Some ==> url_set(old(self).sessions@, final(self).sessions@, session_id@, url->0@),
            !(success && url is Some) ==> final(self).sessions@ == old(self).sessions@,
            final(self).actions@.len() == old(self).actions@.len() + 1,
            final(self).actions@.drop_last() == old(self).actions@,
            ({
                let a = final(self).actions@.last();
                &&& a.session_id@ == session_id@
                &&& a.entry.id == old(self).actions@.len() + 1
                &&& a.entry.action@ == action@
                &&& opt_view_of(a.entry.url) == opt_str_view(url)
                &&& a.entry.success == success
                &&& opt_view_of(a.entry.error) == opt_str_view(error)
                &&& a.entry.duration_ms == duration_ms as i64
                &&& a.entry.created_at == now
            }),
            old(self).well_formed() ==> final(self).well_formed(),
    {
        if success {
            match url {
                Some(u) => self.set_url(session_id, u),
                None => {},
            }
        }
        let id: i64 = self.actions.len() as i64 + 1;
        let entry = ActionLogEntry {
            id,
            action: owned(action),
            url: match url {
                Some(u) => Some(owned(u)),
                None => None,
            },
            success,
            error: match error {
                Some(e) => Some(owned(e)),
                None => None,
            },
            duration_ms: #[verifier::truncate] (duration_ms as i64),
            created_at: now,
        };
        self.actions.push(ActionRow { session_id: owned(session_id), entry });
        assert(self.actions@.drop_last() =~= old(self).actions@);
        proof {
            if old(self).well_formed() {
                assert(session_ids(self.sessions@) =~= session_ids(old(self).sessions@));
                assert forall|i: int| 0 <= i < self.actions@.len() implies #[trigger] self.actions@[i].entry.id == i + 1 by {
                    if i < old(self).actions@.len() {
                        assert(self.actions@[i] == old(self).actions@[i]);
                    }
                }
            }
        }
    }

    /// Marks every session with this id closed at `now`.
    pub fn close_session_at(&mut self, session_id: &str, now: String)
        ensures
            final(self).sessions@ == closed(old(self).sessions@, session_id@, now),
            final(self).actions == old(self).actions,
            old(self).well_formed() ==> final(self).well_formed(),
    {
        let mut i: usize = 0;
        while i < self.sessions.len()
            invariant
                i <= self.sessions.len(),
                self.sessions@.len() == old(self).sessions@.len(),
                self.actions == old(self).actions,
                forall|j: int| 0 <= j < i ==> self.sessions@[j] == closed(old(self).sessions@, session_id@, now)[j],
                forall|j: int| i <= j < self.sessions@.len() ==> self.sessions@[j] == old(self).sessions@[j],
            decreases self.sessions.len() - i,
        {
            if crate::text::str_equal(self.sessions[i].session_id.as_str(), session_id) {
                let mut rec = self.sessions[i].copy();
                rec.closed_at = Some(now.clone());
                self.sessions.set(i, rec);
            }
            i += 1;
        }
        assert(self.sessions@ =~= closed(old(self).sessions@, session_id@, now));
        assert(session_ids(self.sessions@) =~= session_ids(old(self).sessions@));
    }

    /// Every session, newest first, at most `limit` of them.
    pub fn list_all(&self, limit: u32) -> (r: Vec<SessionRecord>)
        ensures
            exists|full: Seq<SessionRecord>|
                #[trigger] is_ordering(full, self.sessions@, session_keys(self.sessions@), true) && r@ == full.take(
                    capped(limit, full.len() as int),
                ),
            self.well_formed() ==> session_ids(r@).no_duplicates(),
    {
        let mut keys: Vec<Vec<KeyPart>> = Vec::new();
        let mut j: usize = 0;
        while j < self.sessions.len()
            invariant
                j <= self.sessions.len(),
                keys.len() == j,
                forall|y: int| 0 <= y < j ==> key_view(#[trigger] keys@[y]) == text_key(self.sessions@[y].created_at@),
            decreases self.sessions.len() - j,
        {
            keys.push(text_key_of(&self.sessions[j].created_at));
            j += 1;
        }
        assert(keys_view(keys@) =~= session_keys(self.sessions@));
        let order = sort_order(&keys, true);
        let ghost full = order@.map_values(|x: usize| self.sessions@[x as int]);
        let mut out: Vec<SessionRecord> = Vec::new();
        let mut k: usize = 0;
        while k < order.len() && k < limit as usize
            invariant
                k <= order.len(),
                k as int <= limit as int,
                order.len() == self.sessions.len(),
                forall|y: int| 0 <= y < order.len() ==> order@[y] < self.sessions.len(),
                full == order@.map_values(|x: usize| self.sessions@[x as int]),
                out@ == full.take(k as int),
            decreases order.len() - k,
        {
            out.push(self.sessions[order[k]].copy());
            k += 1;
            assert(out@ =~= full.take(k as int));
        }
        assert(is_sorted_order(session_keys(self.sessions@), order@, true));
        assert(is_ordering(full, self.sessions@, session_keys(self.sessions@), true));
        assert(full.len() == order.len());
        assert(k as int == capped(limit, full.len() as int));
        proof {
            if self.well_formed() {
                let ids = session_ids(self.sessions@);
                assert forall|a: int, b: int| 0 <= a < out.len() && 0 <= b < out.len() && a != b implies session_ids(out@)[a] != session_ids(out@)[b] by {
                    assert(out@[a] == self.sessions@[order@[a] as int]);
                    assert(out@[b] == self.sessions@[order@[b] as int]);
                    assert(ids[order@[a] as int] == self.sessions@[order@[a] as int].session_id@);
                    assert(ids[order@[b] as int] == self.sessions@[order@[b] as int].session_id@);
                }
            }
        }
        out
    }

    /// The actions of a session, newest first, at most `limit` of them.
    pub fn get_actions(&self, session_id: &str, limit: u32) -> (r: Vec<ActionLogEntry>)
        ensures
            exists|full: Seq<ActionLogEntry>|
                #[trigger] is_ordering(
                    full,
                    entries(self.actions@.filter(action_of(session_id@))),
                    entry_keys(entries(self.actions@.filter(action_of(session_id@)))),
                    true,
                ) && r@ == full.take(capped(limit, full.len() as int)),
            self.well_formed() ==> entry_ids(r@).no_duplicates(),
    {
        let ghost all = self.actions@;
        let ghost pred = action_of(session_id@);
        let mut rows: Vec<ActionLogEntry> = Vec::new();
        let mut i: usize = 0;
        while i < self.actions.len()
            invariant
                i <= self.actions.len(),
                all == self.actions@,
                pred == action_of(session_id@),
                rows@ == entries(all.take(i as int).filter(pred)),
                self.well_formed() ==> forall|a: int, b: int| 0 <= a < b < rows.len() ==> rows@[a].id < rows@[b].id,
                self.well_formed() ==> forall|a: int| 0 <= a < rows.len() ==> rows@[a].id <= i,
            decreases self.actions.len() - i,
        {
            proof {
                lemma_filter_step(all, pred, i as int);
            }
            let ghost before = all.take(i as int).filter(pred);
            if crate::text::str_equal(self.actions[i].session_id.as_str(), session_id) {
                rows.push(self.actions[i].entry.copy());
                assert(entries(before.push(all[i as int])) =~= entries(before).push(all[i as int].entry));
            }
            i += 1;
        }
        assert(all.take(i as int) =~= all);
        let mut keys: Vec<Vec<KeyPart>> = Vec::new();
        let mut j: usize = 0;
        while j < rows.len()
            invariant
                j <= rows.len(),
                keys.len() == j,
                forall|y: int| 0 <= y < j ==> key_view(#[trigger] keys@[y]) == text_key(rows@[y].created_at@),
            decreases rows.len() - j,
        {
            keys.push(text_key_of(&rows[j].created_at));
            j += 1;
        }
        assert(keys_view(keys@) =~= entry_keys(rows@));
        let order = sort_order(&keys, true);
        let ghost full = order@.map_values(|x: usize| rows@[x as int]);
        let mut out: Vec<ActionLogEntry> = Vec::new();
        let mut k: usize = 0;
        while k < order.len() && k < limit as usize
            invariant
                k <= order.len(),
                k as int <= limit as int,
                order.len() == rows.len(),
                forall|y: int| 0 <= y < order.len() ==> order@[y] < rows.len(),
                full == order@.map_values(|x: usize| rows@[x as int]),
                out@ == full.take(k as int),
            decreases order.len() - k,
        {
            out.push(rows[order[k]].copy());
            k += 1;
            assert(out@ =~= full.take(k as int));
        }
        assert(is_sorted_order(entry_keys(rows@), order@, true));
        assert(is_ordering(full, rows@, entry_keys(rows@), true));
        assert(full.len() == order.len());
        assert(k as int == capped(limit, full.len() as int));
        proof {
            if self.well_formed() {
                assert forall|a: int, b: int| 0 <= a < out.len() && 0 <= b < out.len() && a != b implies entry_ids(out@)[a] != entry_ids(out@)[b] by {
                    assert(out@[a] == rows@[order@[a] as int]);
                    assert(out@[b] == rows@[order@[b] as int]);
                    assert(order@[a] != order@[b]);
                    if order@[a] < order@[b] {
                        assert(rows@[order@[a] as int].id < rows@[order@[b] as int].id);
                    } else {
                        assert(rows@[order@[b] as int].id < rows@[order@[a] as int].id);
                    }
                }
            }
        }
        out
    }
}

/// The ids of log entries.
pub open spec fn entry_ids(a: Seq<ActionLogEntry>) -> Seq<i64> {
    a.map_values(|x: ActionLogEntry| x.id)
}

/// The text of an optional string.
pub open spec fn opt_view_of(o: Option<String>) -> Option<Seq<char>> {
    match o {
        Some(s) => Some(s@),
        None => None,
    }
}

} // verus!
