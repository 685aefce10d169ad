use vstd::prelude::*;
use crate::bounds::{compute_child_bounds, window_bounds, Bounds, HostWindow};
use crate::download::names_of;
use crate::storage::{
    host_of, normalize_url, normalized_url, parse_url_host, parsed_host, resolved_key,
    storage_key_from_host,
};

verus! {

/// One embedded browser view, as the registry records it.
#[derive(Debug)]
pub struct ChildSession {
    pub platform_id: String,
    /// The URL the view was created with, scheme included.
    pub url: String,
    /// The storage partition the view owns.
    pub storage_key: String,
    pub visible: bool,
    pub bounds: Bounds,
}

/// What the registry knows of one session.
pub struct SessionView {
    pub id: Seq<char>,
    pub url: Seq<char>,
    pub storage_key: Seq<char>,
    pub visible: bool,
    pub bounds: Bounds,
}

impl View for ChildSession {
    type V = SessionView;

    open spec fn view(&self) -> SessionView {
        SessionView {
            id: self.platform_id@,
            url: self.url@,
            storage_key: self.storage_key@,
            visible: self.visible,
            bounds: self.bounds,
        }
    }
}

/// Why a show request failed.
#[derive(Clone, Copy, Debug, PartialEq, Eq, Structural)]
pub enum SessionError {
    /// The host window could not be found.
    HostWindowMissing,
    /// The session's URL, once normalized, does not parse.
    InvalidUrl,
}

/// What the host has to do to the views after a successful show request.
#[derive(Debug)]
pub enum ShowAction {
    /// Move the existing view to `bounds` and show it.
    Reshow { bounds: Bounds },
    /// Create a view for `url`, backed by the storage partition `storage_key`, at `bounds`.
    Create { url: String, storage_key: String, bounds: Bounds },
}

/// The live child sessions, at most one per platform id.
pub struct SessionRegistry {
    sessions: Vec<ChildSession>,
}

/// No two sessions share a platform id.
pub open spec fn ids_unique(s: Seq<SessionView>) -> bool {
    forall|a: int, b: int| 0 <= a < s.len() && 0 <= b < s.len() && s[a].id == s[b].id ==> a == b
}

/// Some session has platform id `id`.
pub open spec fn has_session(s: Seq<SessionView>, id: Seq<char>) -> bool {
    exists|k: int| 0 <= k < s.len() && s[k].id == id
}

/// The position of the session with platform id `id`.
pub open spec fn index_of_session(s: Seq<SessionView>, id: Seq<char>) -> int {
    choose|k: int| 0 <= k < s.len() && s[k].id == id
}

/// `v`, hidden.
pub open spec fn hidden(v: SessionView) -> SessionView {
    SessionView { visible: false, ..v }
}

/// `v`, shown at `b`.
pub open spec fn placed(v: SessionView, b: Bounds) -> SessionView {
    SessionView { visible: true, bounds: b, ..v }
}

/// Every session but the one of `id` hidden.
pub open spec fn hide_others(s: Seq<SessionView>, id: Seq<char>) -> Seq<SessionView> {
    Seq::new(s.len(), |k: int| if s[k].id == id { s[k] } else { hidden(s[k]) })
}

/// Every session hidden.
pub open spec fn hide_every(s: Seq<SessionView>) -> Seq<SessionView> {
    Seq::new(s.len(), |k: int| hidden(s[k]))
}

/// Every session moved to `b`.
pub open spec fn move_every(s: Seq<SessionView>, b: Bounds) -> Seq<SessionView> {
    Seq::new(s.len(), |k: int| SessionView { bounds: b, ..s[k] })
}

/// The session that a show request for `id` and `url` creates at `b`.
pub open spec fn fresh_session(id: Seq<char>, url: Seq<char>, b: Bounds) -> SessionView {
    SessionView {
        id,
        url: normalized_url(url),
        storage_key: resolved_key(id, url),
        visible: true,
        bounds: b,
    }
}

/// The sessions after a successful show request for `id` and `url` at `b`: the
/// others hidden, and the session of `id` shown at `b`, created if it was absent.
pub open spec fn shown(s: Seq<SessionView>, id: Seq<char>, url: Seq<char>, b: Bounds) -> Seq<
    SessionView,
> {
    if has_session(s, id) {
        Seq::new(s.len(), |k: int| if s[k].id == id { placed(s[k], b) } else { hidden(s[k]) })
    } else {
        hide_others(s, id).push(fresh_session(id, url, b))
    }
}

/// The sessions without the one of `id`.
pub open spec fn removed(s: Seq<SessionView>, id: Seq<char>) -> Seq<SessionView> {
    if has_session(s, id) {
        s.remove(index_of_session(s, id))
    } else {
        s
    }
}

/// The ids of the hidden sessions, in registry order.
pub open spec fn hidden_ids_spec(s: Seq<SessionView>) -> Seq<Seq<char>>
    decreases s.len(),
{
    if s.len() == 0 {
        Seq::empty()
    } else if s.last().visible {
        hidden_ids_spec(s.drop_last())
    } else {
        hidden_ids_spec(s.drop_last()).push(s.last().id)
    }
}

/// Hiding changes no id.
proof fn lemma_hide_others_ids(s: Seq<SessionView>, id: Seq<char>)
    ensures
        hide_others(s, id).len() == s.len(),
        forall|k: int| 0 <= k < s.len() ==> (#[trigger] hide_others(s, id)[k]).id == s[k].id,
        forall|x: Seq<char>| #[trigger] has_session(hide_others(s, id), x) == has_session(s, x),
        ids_unique(s) ==> ids_unique(hide_others(s, id)),
{
    assert forall|x: Seq<char>| #[trigger] has_session(hide_others(s, id), x) implies has_session(s, x) by {
        let k = choose|k: int| 0 <= k < s.len() && hide_others(s, id)[k].id == x;
        assert(s[k].id == x);
    }
    assert forall|x: Seq<char>| has_session(s, x) implies #[trigger] has_session(hide_others(s, id), x) by {
        let k = choose|k: int| 0 <= k < s.len() && s[k].id == x;
        assert(hide_others(s, id)[k].id == x);
    }
}

/// After a show request for `id`, the sessions still have unique ids, the session of
/// `id` is the one shown, at `b`, and every other session is hidden.
pub proof fn lemma_shown_exclusive(s: Seq<SessionView>, id: Seq<char>, url: Seq<char>, b: Bounds)
    requires
        ids_unique(s),
    ensures
        ids_unique(shown(s, id, url, b)),
        has_session(shown(s, id, url, b), id),
        shown(s, id, url, b)[index_of_session(shown(s, id, url, b), id)].visible,
        shown(s, id, url, b)[index_of_session(shown(s, id, url, b), id)].bounds == b,
        forall|k: int|
            0 <= k < shown(s, id, url, b).len() && (#[trigger] shown(s, id, url, b)[k]).id != id
                ==> !shown(s, id, url, b)[k].visible,
{
    let t = shown(s, id, url, b);
    lemma_hide_others_ids(s, id);
    if has_session(s, id) {
        let k = choose|k: int| 0 <= k < s.len() && s[k].id == id;
        assert(t[k].id == id);
    } else {
        assert(t[s.len() as int].id == id);
        assert forall|a: int, c: int| 0 <= a < t.len() && 0 <= c < t.len() && t[a].id == t[c].id implies a == c by {
            if a < s.len() && c < s.len() {
                assert(t[a].id == s[a].id);
                assert(t[c].id == s[c].id);
            } else if a < s.len() {
                assert(t[a].id == s[a].id);
            } else if c < s.len() {
                assert(t[c].id == s[c].id);
            }
        }
    }
    let k = index_of_session(t, id);
    assert(t[k].id == id);
}

/// Showing a session twice with the same id and URL is showing it once at the later
/// layout: one session of that id stays, shown, at the later bounds.
pub proof fn lemma_show_idempotent(
    s: Seq<SessionView>,
    id: Seq<char>,
    url: Seq<char>,
    b1: Bounds,
    b2: Bounds,
)
    requires
        ids_unique(s),
    ensures
        shown(shown(s, id, url, b1), id, url, b2) == shown(s, id, url, b2),
        ids_unique(shown(s, id, url, b2)),
        has_session(shown(s, id, url, b2), id),
        shown(s, id, url, b2)[index_of_session(shown(s, id, url, b2), id)].visible,
        shown(s, id, url, b2)[index_of_session(shown(s, id, url, b2), id)].bounds == b2,
{
    lemma_shown_exclusive(s, id, url, b1);
    lemma_shown_exclusive(s, id, url, b2);
    let t1 = shown(s, id, url, b1);
    let t2 = shown(t1, id, url, b2);
    let t = shown(s, id, url, b2);
    assert(t2.len() == t.len());
    assert forall|k: int| 0 <= k < t.len() implies #[trigger] t2[k] == t[k] by {
        if !has_session(s, id) && k < s.len() {
            assert(t1[k] == hide_others(s, id)[k]);
        }
    }
    assert(t2 =~= t);
}

/// Showing `a` and then another session `b` leaves `a` live but hidden and `b`
/// shown (the host window is no session, and no show request touches it).
pub proof fn lemma_show_hides_previous(
    s: Seq<SessionView>,
    a: Seq<char>,
    url_a: Seq<char>,
    b: Seq<char>,
    url_b: Seq<char>,
    b1: Bounds,
    b2: Bounds,
)
    requires
        ids_unique(s),
        a != b,
    ensures
        has_session(shown(shown(s, a, url_a, b1), b, url_b, b2), a),
        forall|k: int|
            0 <= k < shown(shown(s, a, url_a, b1), b, url_b, b2).len() && (#[trigger] shown(
                shown(s, a, url_a, b1),
                b,
                url_b,
                b2,
            )[k]).id == a ==> !shown(shown(s, a, url_a, b1), b, url_b, b2)[k].visible,
        has_session(shown(shown(s, a, url_a, b1), b, url_b, b2), b),
        shown(shown(s, a, url_a, b1), b, url_b, b2)[index_of_session(
            shown(shown(s, a, url_a, b1), b, url_b, b2),
            b,
        )].visible,
{
    lemma_shown_exclusive(s, a, url_a, b1);
    let t1 = shown(s, a, url_a, b1);
    lemma_shown_exclusive(t1, b, url_b, b2);
    let t2 = shown(t1, b, url_b, b2);
    let k = index_of_session(t1, a);
    lemma_hide_others_ids(t1, b);
    assert(t2[k].id == a);
}

/// Destroying an id that has no session changes nothing.
pub proof fn lemma_destroy_absent(s: Seq<SessionView>, id: Seq<char>)
    requires
        !has_session(s, id),
    ensures
        removed(s, id) == s,
{
}

/// After the session of `id` is destroyed, a show request for `id` creates a new
/// session: the one of `id` is exactly the fresh session for the request, whatever the
/// destroyed one held.
pub proof fn lemma_recreate_after_destroy(
    s: Seq<SessionView>,
    id: Seq<char>,
    url: Seq<char>,
    b: Bounds,
)
    requires
        ids_unique(s),
    ensures
        !has_session(removed(s, id), id),
        has_session(shown(removed(s, id), id, url, b), id),
        shown(removed(s, id), id, url, b)[index_of_session(shown(removed(s, id), id, url, b), id)]
            == fresh_session(id, url, b),
{
    let r = removed(s, id);
    if has_session(s, id) {
        let i = index_of_session(s, id);
        assert(s[i].id == id);
        if has_session(r, id) {
            let j = choose|j: int| 0 <= j < r.len() && r[j].id == id;
            if j < i {
                assert(r[j] == s[j]);
            } else {
                assert(r[j] == s[j + 1]);
            }
        }
    }
    assert(ids_unique(r)) by {
        if has_session(s, id) {
            let i = index_of_session(s, id);
            assert forall|a: int, c: int| 0 <= a < r.len() && 0 <= c < r.len() && r[a].id == r[c].id implies a == c by {
                let sa = if a < i { a } else { a + 1 };
                let sc = if c < i { c } else { c + 1 };
                assert(r[a] == s[sa]);
                assert(r[c] == s[sc]);
            }
        }
    }
    lemma_shown_exclusive(r, id, url, b);
    let t = shown(r, id, url, b);
    assert(t[r.len() as int].id == id);
}

impl View for SessionRegistry {
    type V = Seq<SessionView>;

    closed spec fn view(&self) -> Seq<SessionView> {
        self.sessions@.map_values(|c: ChildSession| c@)
    }
}

impl SessionRegistry {
    /// At most one session per platform id.
    pub open spec fn wf(&self) -> bool {
        ids_unique(self@)
    }

    /// An empty registry.
    pub fn new() -> (r: SessionRegistry)
        ensures
            r.wf(),
            r@ == Seq::<SessionView>::empty(),
    {
        let r = SessionRegistry { sessions: Vec::new() };
        assert(r@ =~= Seq::<SessionView>::empty());
        r
    }

    /// The live sessions.
    pub fn sessions(&self) -> (r: &Vec<ChildSession>)
        ensures
            r@.map_values(|c: ChildSession| c@) == self@,
    {
        &self.sessions
    }

    /// Where the session of `platform_id` stands, if there is one.
    fn position(&self, platform_id: &str) -> (r: Option<usize>)
        requires
            self.wf(),
        ensures
            match r {
                Some(k) => k < self@.len() && self@[k as int].id == platform_id@
                    && index_of_session(self@, platform_id@) == k,
                None => !has_session(self@, platform_id@),
            },
    {
        let target = String::from_str(platform_id);
        let mut i: usize = 0;
        while i < self.sessions.len()
            invariant
                i <= self@.len(),
                self@.len() == self.sessions@.len(),
                target@ == platform_id@,
                self.wf(),
                forall|k: int| 0 <= k < i ==> self@[k].id != platform_id@,
            decreases self@.len() - i,
        {
            if self.sessions[i].platform_id == target {
                assert(self@[i as int].id == platform_id@);
                assert(has_session(self@, platform_id@));
                assert(self@[index_of_session(self@, platform_id@)].id == platform_id@);
                return Some(i);
            }
            i = i + 1;
        }
        None
    }

    /// Tells whether a session of `platform_id` is live.
    pub fn contains(&self, platform_id: &str) -> (r: bool)
        requires
            self.wf(),
        ensures
            r == has_session(self@, platform_id@),
    {
        self.position(platform_id).is_some()
    }

    /// Hides every session but the one of `platform_id`.
    fn hide_except(&mut self, platform_id: &str)
        requires
            old(self).wf(),
        ensures
            final(self).wf(),
            final(self)@ == hide_others(old(self)@, platform_id@),
    {
        let target = String::from_str(platform_id);
        let ghost start = self@;
        let mut i: usize = 0;
        while i < self.sessions.len()
            invariant
                i <= self@.len(),
                self@.len() == start.len() == self.sessions@.len(),
                target@ == platform_id@,
                ids_unique(start),
                forall|k: int|
                    0 <= k < i ==> #[trigger] self.sessions@[k]@ == hide_others(start, platform_id@)[k],
                forall|k: int| i <= k < self@.len() ==> #[trigger] self.sessions@[k]@ == start[k],
            decreases self@.len() - i,
        {
            let ghost prev = self.sessions@;
            if self.sessions[i].platform_id != target {
                self.sessions[i].visible = false;
                assert(self.sessions@[i as int].platform_id == prev[i as int].platform_id);
                assert(self.sessions@[i as int].bounds == prev[i as int].bounds);
            }
            assert(prev[i as int]@ == start[i as int]);
            assert(self.sessions@[i as int]@ == hide_others(start, platform_id@)[i as int]);
            assert(forall|k: int| 0 <= k < prev.len() && k != i ==> self.sessions@[k] == prev[k]);
            i = i + 1;
        }
        assert(self@ =~= hide_others(start, platform_id@));
    }

    /// Shows the session of `platform_id` at the layout of `window`, and hides all the
    /// others. Without a session of that id, one is created for `url` (given `https://`
    /// when it names no scheme), with the storage partition of its id and host.
    pub fn create_or_show(&mut self, window: Option<HostWindow>, platform_id: &str, url: &str) -> (r:
        Result<ShowAction, SessionError>)
        requires
            old(self).wf(),
        ensures
            final(self).wf(),
            window is None ==> r == Err::<ShowAction, SessionError>(SessionError::HostWindowMissing)
                && final(self)@ == old(self)@,
            window is Some && !has_session(old(self)@, platform_id@) && parsed_host(
                normalized_url(url@),
            ) is None ==> r == Err::<ShowAction, SessionError>(SessionError::InvalidUrl)
                && final(self)@ == hide_others(old(self)@, platform_id@),
            window is Some && (has_session(old(self)@, platform_id@) || parsed_host(
                normalized_url(url@),
            ) is Some) ==> r is Ok && final(self)@ == shown(
                old(self)@,
                platform_id@,
                url@,
                window_bounds(window->Some_0),
            ),
            r matches Ok(ShowAction::Reshow { bounds }) ==> has_session(old(self)@, platform_id@)
                && bounds == window_bounds(window->Some_0),
            r matches Ok(ShowAction::Create { url: u, storage_key: key, bounds }) ==> !has_session(
                old(self)@,
                platform_id@,
            ) && bounds == window_bounds(window->Some_0) && u@ == normalized_url(url@) && key@
                == resolved_key(platform_id@, url@),
    {
        let w = match window {
            Some(w) => w,
            None => return Err(SessionError::HostWindowMissing),
        };
        let ghost start = self@;
        self.hide_except(platform_id);
        proof {
            lemma_hide_others_ids(start, platform_id@);
        }
        let bounds = compute_child_bounds(&w);
        match self.position(platform_id) {
            Some(k) => {
                let ghost prev = self.sessions@;
                self.sessions[k].visible = true;
                self.sessions[k].bounds = bounds;
                assert(self.sessions@[k as int].platform_id == prev[k as int].platform_id);
                assert(self.sessions@[k as int].url == prev[k as int].url);
                assert(self.sessions@[k as int].storage_key == prev[k as int].storage_key);
                assert(forall|j: int| 0 <= j < prev.len() && j != k ==> self.sessions@[j] == prev[j]);
                assert(has_session(start, platform_id@)) by {
                    assert(start[k as int].id == platform_id@);
                }
                assert forall|j: int| 0 <= j < start.len() implies #[trigger] self@[j] == shown(
                    start,
                    platform_id@,
                    url@,
                    bounds,
                )[j] by {
                    assert(hide_others(start, platform_id@)[j].id == start[j].id);
                    if j != k {
                        assert(start[j].id != platform_id@);
                    }
                }
                assert(self@ =~= shown(start, platform_id@, url@, bounds));
                Ok(ShowAction::Reshow { bounds })
            },
            None => {
                let normalized = normalize_url(url);
                let host = match parse_url_host(normalized.as_str()) {
                    None => return Err(SessionError::InvalidUrl),
                    Some(Some(h)) => Some(h),
                    Some(None) => None,
                };
                let storage_key = storage_key_from_host(platform_id, host);
                let session = ChildSession {
                    platform_id: String::from_str(platform_id),
                    url: normalized.clone(),
                    storage_key: storage_key.clone(),
                    visible: true,
                    bounds,
                };
                self.sessions.push(session);
                assert(self@ =~= shown(start, platform_id@, url@, bounds));
                Ok(ShowAction::Create { url: normalized, storage_key, bounds })
            },
        }
    }

    /// Removes the session of `platform_id`; tells whether there was one (its view
    /// is then to be closed). Nothing changes when there is none.
    pub fn destroy(&mut self, platform_id: &str) -> (r: bool)
        requires
            old(self).wf(),
        ensures
            final(self).wf(),
            r == has_session(old(self)@, platform_id@),
            final(self)@ == removed(old(self)@, platform_id@),
    {
        let ghost start = self@;
        match self.position(platform_id) {
            Some(k) => {
                self.sessions.remove(k);
                assert(self@ =~= start.remove(k as int));
                true
            },
            None => false,
        }
    }

    /// Hides every session.
    pub fn hide_all(&mut self)
        requires
            old(self).wf(),
        ensures
            final(self).wf(),
            final(self)@ == hide_every(old(self)@),
    {
        let ghost start = self@;
        let mut i: usize = 0;
        while i < self.sessions.len()
            invariant
                i <= self@.len(),
                self@.len() == start.len() == self.sessions@.len(),
                ids_unique(start),
                forall|k: int| 0 <= k < i ==> #[trigger] self.sessions@[k]@ == hidden(start[k]),
                forall|k: int| i <= k < self@.len() ==> #[trigger] self.sessions@[k]@ == start[k],
            decreases self@.len() - i,
        {
            let ghost prev = self.sessions@;
            self.sessions[i].visible = false;
            assert(self.sessions@[i as int].platform_id == prev[i as int].platform_id);
            assert(self.sessions@[i as int].bounds == prev[i as int].bounds);
            assert(prev[i as int]@ == start[i as int]);
            assert(forall|k: int| 0 <= k < prev.len() && k != i ==> self.sessions@[k] == prev[k]);
            i = i + 1;
        }
        assert(self@ =~= hide_every(start));
    }

    /// Tells whether the session of `platform_id` is live, that is whether there is a
    /// view to reload. The registry does not change.
    pub fn reload(&self, platform_id: &str) -> (r: bool)
        requires
            self.wf(),
        ensures
            r == has_session(self@, platform_id@),
    {
        self.contains(platform_id)
    }

    /// Moves every session to `bounds`.
    pub fn apply_bounds(&mut self, bounds: Bounds)
        requires
            old(self).wf(),
        ensures
            final(self).wf(),
            final(self)@ == move_every(old(self)@, bounds),
    {
        let ghost start = self@;
        let mut i: usize = 0;
        while i < self.sessions.len()
            invariant
                i <= self@.len(),
                self@.len() == start.len() == self.sessions@.len(),
                ids_unique(start),
                forall|k: int|
                    0 <= k < i ==> #[trigger] self.sessions@[k]@ == move_every(start, bounds)[k],
                forall|k: int| i <= k < self@.len() ==> #[trigger] self.sessions@[k]@ == start[k],
            decreases self@.len() - i,
        {
            let ghost prev = self.sessions@;
            self.sessions[i].bounds = bounds;
            assert(self.sessions@[i as int].platform_id == prev[i as int].platform_id);
            assert(self.sessions@[i as int].visible == prev[i as int].visible);
            assert(prev[i as int]@ == start[i as int]);
            assert(self.sessions@[i as int]@ == move_every(start, bounds)[i as int]);
            assert(forall|k: int| 0 <= k < prev.len() && k != i ==> self.sessions@[k] == prev[k]);
            i = i + 1;
        }
        assert(self@ =~= move_every(start, bounds));
    }

    /// The ids of the hidden sessions, in registry order.
    pub fn hidden_ids(&self) -> (r: Vec<String>)
        ensures
            names_of(r@) == hidden_ids_spec(self@),
    {
        let mut r: Vec<String> = Vec::new();
        let mut i: usize = 0;
        while i < self.sessions.len()
            invariant
                i <= self@.len() == self.sessions@.len(),
                names_of(r@) == hidden_ids_spec(self@.subrange(0, i as int)),
            decreases self@.len() - i,
        {
            assert(self@.subrange(0, i + 1).drop_last() =~= self@.subrange(0, i as int));
            if !self.sessions[i].visible {
                r.push(self.sessions[i].platform_id.clone());
                assert(names_of(r@) =~= hidden_ids_spec(self@.subrange(0, i + 1)));
            }
            i = i + 1;
        }
        assert(self@.subrange(0, self@.len() as int) =~= self@);
        r
    }
}

} // verus!
