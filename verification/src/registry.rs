//! The configured tunnels and the ones running, with every edit the user
//! can make to them.

use vstd::prelude::*;
use vstd::set_lib::lemma_len_subset;
use crate::config::{is_uuid_v4_text, default_tunnel, new_uuid_v4_text, TunnelConfig, TunnelConfigModel};
use crate::text::{contains_text, lowercase, occurs_at, text_contains, to_lowercase};

verus! {

/// A running tunnel: the id of its settings and what the caller keeps to
/// stop it.
pub struct RunningTunnel<H> {
    pub id: String,
    pub handle: H,
}

/// A row of a search: the position of a matching tunnel and whether it
/// runs.
#[derive(Clone, Copy, Debug, PartialEq, Eq, Structural)]
pub struct SearchHit {
    pub index: usize,
    pub running: bool,
}

/// The tunnels the user has configured, in order, and those running, each
/// with a handle of type `H`.
pub struct TunnelRegistry<H> {
    configs: Vec<TunnelConfig>,
    running: Vec<RunningTunnel<H>>,
}

/// The position of the first `id` in `ids`.
pub open spec fn first_index_of(ids: Seq<Seq<char>>, id: Seq<char>) -> Option<int>
    decreases ids.len(),
{
    if ids.len() == 0 {
        None
    } else if ids[0] == id {
        Some(0)
    } else {
        match first_index_of(ids.drop_first(), id) {
            Some(i) => Some(i + 1),
            None => None,
        }
    }
}

/// An index as an optional integer.
pub open spec fn as_index(r: Option<usize>) -> Option<int> {
    match r {
        Some(i) => Some(i as int),
        None => None,
    }
}

/// Whether a tunnel named `name` is listed for the search text `query`:
/// always for an empty query, otherwise when the lowercased name contains
/// the lowercased query.
pub open spec fn matches_search(name: Seq<char>, query: Seq<char>) -> bool {
    lowercase(query).len() == 0 || contains_text(lowercase(name), lowercase(query))
}

/// The ids of the tunnels that connect at start-up, in list order.
pub open spec fn auto_connect_ids_of(cs: Seq<TunnelConfigModel>) -> Seq<Seq<char>>
    decreases cs.len(),
{
    if cs.len() == 0 {
        Seq::empty()
    } else if cs.last().auto_connect {
        auto_connect_ids_of(cs.drop_last()).push(cs.last().id)
    } else {
        auto_connect_ids_of(cs.drop_last())
    }
}

/// The name a copy of a tunnel gets.
pub open spec fn copy_name(name: Seq<char>) -> Seq<char> {
    name + " (Copy)"@
}

/// `after` is `before` with one more tunnel at the end: a copy of a tunnel
/// of `before` with id `id`, under `new_id`, named as that tunnel with
/// " (Copy)" after it, and with every other setting of that tunnel.
pub open spec fn copy_appended(
    before: Seq<TunnelConfigModel>,
    after: Seq<TunnelConfigModel>,
    id: Seq<char>,
    new_id: Seq<char>,
) -> bool {
    &&& after.len() == before.len() + 1
    &&& after.subrange(0, before.len() as int) == before
    &&& exists|i: int|
        #![trigger before[i]]
        0 <= i < before.len() && before[i].id == id && {
            let c = before[i];
            let n = after.last();
            &&& n.id == new_id
            &&& n.name == c.name + " (Copy)"@
            &&& n.local_port == c.local_port
            &&& n.proxy_host == c.proxy_host
            &&& n.proxy_port == c.proxy_port
            &&& n.proxy_username == c.proxy_username
            &&& n.save_proxy_password == c.save_proxy_password
            &&& n.rsa_key_path == c.rsa_key_path
            &&& n.target_host == c.target_host
            &&& n.target_port == c.target_port
            &&& n.auto_connect == c.auto_connect
        }
}

/// A copy of a tunnel under another id.
pub open spec fn copied_tunnel(c: TunnelConfigModel, new_id: Seq<char>) -> TunnelConfigModel {
    TunnelConfigModel { id: new_id, name: copy_name(c.name), ..c }
}

proof fn lemma_first_index_of(ids: Seq<Seq<char>>, id: Seq<char>)
    ensures
        match first_index_of(ids, id) {
            Some(i) => 0 <= i < ids.len() && ids[i] == id && forall|j: int|
                0 <= j < i ==> ids[j] != id,
            None => forall|j: int| 0 <= j < ids.len() ==> ids[j] != id,
        },
    decreases ids.len(),
{
    if ids.len() > 0 && ids[0] != id {
        lemma_first_index_of(ids.drop_first(), id);
        match first_index_of(ids.drop_first(), id) {
            Some(i) => {
                assert forall|j: int| 0 <= j < i + 1 implies ids[j] != id by {
                    if j > 0 {
                        assert(ids[j] == ids.drop_first()[j - 1]);
                    }
                }
            },
            None => {
                assert forall|j: int| 0 <= j < ids.len() implies ids[j] != id by {
                    if j > 0 {
                        assert(ids[j] == ids.drop_first()[j - 1]);
                    }
                }
            },
        }
    }
}

proof fn lemma_first_index_is(ids: Seq<Seq<char>>, id: Seq<char>, i: int)
    requires
        0 <= i <= ids.len(),
        i < ids.len() ==> ids[i] == id,
        forall|j: int| 0 <= j < i ==> ids[j] != id,
    ensures
        first_index_of(ids, id) == (if i < ids.len() {
            Some(i)
        } else {
            None::<int>
        }),
{
    lemma_first_index_of(ids, id);
}

proof fn lemma_remove_unique(ids: Seq<Seq<char>>, k: int)
    requires
        ids.no_duplicates(),
        0 <= k < ids.len(),
    ensures
        ids.remove(k).no_duplicates(),
        !ids.remove(k).contains(ids[k]),
        forall|j: int|
            0 <= j < ids.remove(k).len() ==> #[trigger] ids.remove(k)[j] == (if j < k {
                ids[j]
            } else {
                ids[j + 1]
            }),
{
    let r = ids.remove(k);
    assert forall|j: int| 0 <= j < r.len() implies #[trigger] r[j] == (if j < k {
        ids[j]
    } else {
        ids[j + 1]
    }) by {}
    assert forall|a: int, b: int| 0 <= a < r.len() && 0 <= b < r.len() && a != b implies r[a]
        != r[b] by {
        let oa = if a < k {
            a
        } else {
            a + 1
        };
        let ob = if b < k {
            b
        } else {
            b + 1
        };
        assert(r[a] == ids[oa]);
        assert(r[b] == ids[ob]);
    }
    if r.contains(ids[k]) {
        let j = choose|j: int| 0 <= j < r.len() && r[j] == ids[k];
        let oj = if j < k {
            j
        } else {
            j + 1
        };
        assert(r[j] == ids[oj]);
    }
}

/// Deleting a tunnel just added under an id that no other tunnel has gives
/// back the list as it was.
pub proof fn lemma_delete_undoes_add(cs: Seq<TunnelConfigModel>, c: TunnelConfigModel)
    requires
        forall|j: int| 0 <= j < cs.len() ==> cs[j].id != c.id,
    ensures
        first_index_of(
            Seq::new(cs.push(c).len(), |i: int| cs.push(c)[i].id),
            c.id,
        ) == Some(cs.len() as int),
        cs.push(c).remove(cs.len() as int) == cs,
{
    let ids = Seq::new(cs.push(c).len(), |i: int| cs.push(c)[i].id);
    lemma_first_index_is(ids, c.id, cs.len() as int);
    assert(cs.push(c).remove(cs.len() as int) =~= cs);
}

/// A copy keeps every setting of the tunnel it copies but its id, which is
/// the new one, and its name, which gets " (Copy)" after it.
pub proof fn lemma_copy_keeps_settings(c: TunnelConfigModel, new_id: Seq<char>)
    ensures
        copied_tunnel(c, new_id).id == new_id,
        copied_tunnel(c, new_id).name == c.name + " (Copy)"@,
        copied_tunnel(c, new_id).local_port == c.local_port,
        copied_tunnel(c, new_id).proxy_host == c.proxy_host,
        copied_tunnel(c, new_id).proxy_port == c.proxy_port,
        copied_tunnel(c, new_id).proxy_username == c.proxy_username,
        copied_tunnel(c, new_id).save_proxy_password == c.save_proxy_password,
        copied_tunnel(c, new_id).rsa_key_path == c.rsa_key_path,
        copied_tunnel(c, new_id).target_host == c.target_host,
        copied_tunnel(c, new_id).target_port == c.target_port,
        copied_tunnel(c, new_id).auto_connect == c.auto_connect,
{
}

/// A search lists a tunnel exactly when the query is empty once lowercased,
/// or the whole lowercased query stands somewhere in the lowercased name.
pub proof fn lemma_search_needs_whole_query(name: Seq<char>, query: Seq<char>)
    ensures
        matches_search(name, query) <==> (lowercase(query).len() == 0 || exists|i: int|
            0 <= i && i + lowercase(query).len() <= lowercase(name).len()
                && #[trigger] lowercase(name).subrange(i, i + lowercase(query).len())
                == lowercase(query)),
{
    let n = lowercase(name);
    let q = lowercase(query);
    if matches_search(name, query) && q.len() > 0 {
        let i = choose|i: int| occurs_at(n, q, i);
        assert(n.subrange(i, i + q.len()) == q);
    }
    if exists|i: int| 0 <= i && i + q.len() <= n.len() && #[trigger] n.subrange(i, i + q.len()) == q {
        let i = choose|i: int| 0 <= i && i + q.len() <= n.len() && #[trigger] n.subrange(i, i + q.len()) == q;
        assert(occurs_at(n, q, i));
    }
}

/// Some tunnel of `cs` that connects at start-up has the id `x`.
pub open spec fn is_start_up_id(cs: Seq<TunnelConfigModel>, x: Seq<char>) -> bool {
    exists|i: int| 0 <= i < cs.len() && cs[i].auto_connect && #[trigger] cs[i].id == x
}

/// The start-up list holds the id of each tunnel that connects at start-up
/// and nothing else.
pub proof fn lemma_auto_connect_ids_members(cs: Seq<TunnelConfigModel>)
    ensures
        forall|k: int|
            0 <= k < auto_connect_ids_of(cs).len() ==> is_start_up_id(
                cs,
                #[trigger] auto_connect_ids_of(cs)[k],
            ),
        forall|i: int|
            0 <= i < cs.len() && #[trigger] cs[i].auto_connect ==> auto_connect_ids_of(
                cs,
            ).contains(cs[i].id),
        auto_connect_ids_of(cs).len() <= cs.len(),
    decreases cs.len(),
{
    if cs.len() > 0 {
        let p = cs.drop_last();
        lemma_auto_connect_ids_members(p);
        let r = auto_connect_ids_of(cs);
        let rp = auto_connect_ids_of(p);
        assert forall|k: int| 0 <= k < r.len() implies is_start_up_id(cs, #[trigger] r[k]) by {
            if k < rp.len() {
                assert(r[k] == rp[k]);
                assert(is_start_up_id(p, rp[k]));
                let i = choose|i: int| 0 <= i < p.len() && p[i].auto_connect && #[trigger] p[i].id == rp[k];
                assert(cs[i] == p[i]);
                assert(cs[i].id == r[k]);
            } else {
                assert(cs.last().auto_connect);
                assert(r[k] == cs.last().id);
                assert(cs[cs.len() - 1].id == r[k]);
            }
        }
        assert forall|i: int| 0 <= i < cs.len() && #[trigger] cs[i].auto_connect implies r.contains(
            cs[i].id,
        ) by {
            if i < p.len() {
                assert(p[i] == cs[i]);
                assert(p[i].auto_connect);
                let k = choose|k: int| 0 <= k < rp.len() && rp[k] == p[i].id;
                assert(r[k] == rp[k]);
            } else {
                assert(r[r.len() - 1] == cs.last().id);
            }
        }
    }
}

impl<H> TunnelRegistry<H> {
    /// The settings of the configured tunnels, in order.
    pub closed spec fn configs(&self) -> Seq<TunnelConfigModel> {
        Seq::new(self.configs@.len(), |i: int| self.configs@[i]@)
    }

    /// The running tunnels: each id with its handle, in the order started.
    pub closed spec fn running(&self) -> Seq<(Seq<char>, H)> {
        Seq::new(self.running@.len(), |i: int| (self.running@[i].id@, self.running@[i].handle))
    }

    /// The ids of the configured tunnels, in order.
    pub open spec fn config_ids(&self) -> Seq<Seq<char>> {
        Seq::new(self.configs().len(), |i: int| self.configs()[i].id)
    }

    /// The ids of the running tunnels.
    pub open spec fn running_ids(&self) -> Seq<Seq<char>> {
        Seq::new(self.running().len(), |i: int| self.running()[i].0)
    }

    /// Whether a tunnel with this id runs.
    pub open spec fn is_running(&self, id: Seq<char>) -> bool {
        self.running_ids().contains(id)
    }

    /// No tunnel runs twice, and each running tunnel is configured.
    pub open spec fn wf(&self) -> bool {
        &&& self.running_ids().no_duplicates()
        &&& forall|k: int|
            0 <= k < self.running_ids().len() ==> self.config_ids().contains(
                #[trigger] self.running_ids()[k],
            )
    }

    /// A registry of the given tunnels, none of them running.
    pub fn new(configs: Vec<TunnelConfig>) -> (r: Self)
        ensures
            r.wf(),
            r.configs() == Seq::new(configs@.len(), |i: int| configs@[i]@),
            r.running().len() == 0,
    {
        let r = TunnelRegistry { configs, running: Vec::new() };
        assert(r.running_ids() =~= Seq::<Seq<char>>::empty());
        r
    }

    /// The configured tunnels, in order.
    pub fn config_list(&self) -> (v: &Vec<TunnelConfig>)
        ensures
            v@.len() == self.configs().len(),
            forall|i: int| 0 <= i < v@.len() ==> v@[i]@ == #[trigger] self.configs()[i],
    {
        &self.configs
    }

    /// The number of configured tunnels.
    pub fn len(&self) -> (n: usize)
        ensures
            n == self.configs().len(),
    {
        self.configs.len()
    }

    /// The position of the first tunnel with this id.
    pub fn position(&self, id: &String) -> (r: Option<usize>)
        ensures
            as_index(r) == first_index_of(self.config_ids(), id@),
            match r {
                Some(i) => i < self.configs().len() && self.configs()[i as int].id == id@ && forall|
                    j: int,
                | 0 <= j < i ==> #[trigger] self.configs()[j].id != id@,
                None => forall|j: int|
                    0 <= j < self.configs().len() ==> #[trigger] self.configs()[j].id != id@,
            },
    {
        proof {
            lemma_first_index_of(self.config_ids(), id@);
        }
        let n = self.configs.len();
        let mut i: usize = 0;
        while i < n
            invariant
                n == self.configs@.len(),
                i <= n,
                forall|j: int| 0 <= j < i ==> self.config_ids()[j] != id@,
                forall|j: int| 0 <= j < i ==> #[trigger] self.configs()[j].id != id@,
            decreases n - i,
        {
            if self.configs[i].id == *id {
                proof {
                    lemma_first_index_is(self.config_ids(), id@, i as int);
                }
                return Some(i);
            }
            i = i + 1;
        }
        proof {
            lemma_first_index_is(self.config_ids(), id@, n as int);
        }
        None
    }

    /// The settings of the first tunnel with this id.
    pub fn find(&self, id: &String) -> (r: Option<&TunnelConfig>)
        ensures
            match first_index_of(self.config_ids(), id@) {
                Some(i) => r matches Some(c) && c@ == self.configs()[i],
                None => r is None,
            },
    {
        proof {
            lemma_first_index_of(self.config_ids(), id@);
        }
        match self.position(id) {
            Some(i) => Some(&self.configs[i]),
            None => None,
        }
    }

    fn running_position(&self, id: &String) -> (r: Option<usize>)
        ensures
            as_index(r) == first_index_of(self.running_ids(), id@),
    {
        let n = self.running.len();
        let mut i: usize = 0;
        while i < n
            invariant
                n == self.running@.len(),
                i <= n,
                forall|j: int| 0 <= j < i ==> self.running_ids()[j] != id@,
            decreases n - i,
        {
            if self.running[i].id == *id {
                proof {
                    lemma_first_index_is(self.running_ids(), id@, i as int);
                }
                return Some(i);
            }
            i = i + 1;
        }
        proof {
            lemma_first_index_is(self.running_ids(), id@, n as int);
        }
        None
    }

    /// Whether the tunnel with this id runs.
    pub fn is_running_id(&self, id: &String) -> (b: bool)
        ensures
            b == self.is_running(id@),
    {
        proof {
            lemma_first_index_of(self.running_ids(), id@);
        }
        self.running_position(id).is_some()
    }

    /// The handle of the running tunnel with this id.
    pub fn running_handle(&self, id: &String) -> (r: Option<&H>)
        ensures
            match first_index_of(self.running_ids(), id@) {
                Some(k) => r matches Some(h) && *h == self.running()[k].1,
                None => r is None,
            },
            r is Some <==> self.is_running(id@),
    {
        proof {
            lemma_first_index_of(self.running_ids(), id@);
        }
        match self.running_position(id) {
            Some(k) => Some(&self.running[k].handle),
            None => None,
        }
    }

    /// Adds a tunnel at the end of the list.
    pub fn add(&mut self, c: TunnelConfig)
        requires
            old(self).wf(),
        ensures
            final(self).wf(),
            final(self).configs() == old(self).configs().push(c@),
            final(self).running() == old(self).running(),
    {
        let ghost before = self.config_ids();
        self.configs.push(c);
        assert(self.configs() =~= old(self).configs().push(c@));
        assert(self.running() =~= old(self).running());
        proof {
            assert forall|k: int|
                0 <= k < self.running_ids().len() implies self.config_ids().contains(
                #[trigger] self.running_ids()[k],
            ) by {
                assert(old(self).running_ids()[k] == self.running_ids()[k]);
                let j = choose|j: int| 0 <= j < before.len() && before[j] == self.running_ids()[k];
                assert(self.config_ids()[j] == before[j]);
            }
            assert(self.running_ids() =~= old(self).running_ids());
        }
    }

    /// Adds a new tunnel with the default settings under a fresh random
    /// id, and gives back its settings.
    pub fn create_new(&mut self) -> (c: TunnelConfig)
        requires
            old(self).wf(),
        ensures
            final(self).wf(),
            is_uuid_v4_text(c.id@),
            c@ == default_tunnel(c.id@),
            final(self).configs() == old(self).configs().push(c@),
            final(self).running() == old(self).running(),
    {
        let c = TunnelConfig::default();
        self.add(c.duplicate());
        c
    }

    /// Replaces the settings of the first tunnel with the same id; tells
    /// whether there was one. Nothing changes where there is none.
    pub fn save_config(&mut self, updated: TunnelConfig) -> (found: bool)
        requires
            old(self).wf(),
        ensures
            final(self).wf(),
            final(self).running() == old(self).running(),
            match first_index_of(old(self).config_ids(), updated@.id) {
                Some(i) => found && final(self).configs() == old(self).configs().update(
                    i,
                    updated@,
                ),
                None => !found && final(self).configs() == old(self).configs(),
            },
    {
        proof {
            lemma_first_index_of(self.config_ids(), updated@.id);
        }
        match self.position(&updated.id) {
            Some(i) => {
                let ghost u = updated@;
                self.configs.set(i, updated);
                assert(self.configs() =~= old(self).configs().update(i as int, u));
                assert(self.config_ids() =~= old(self).config_ids());
                assert(self.running() =~= old(self).running());
                assert(self.running_ids() =~= old(self).running_ids());
                true
            },
            None => false,
        }
    }

    /// Turns connecting at start-up on or off for the first tunnel with
    /// this id; tells whether there was one.
    pub fn set_auto_connect(&mut self, id: &String, auto_connect: bool) -> (found: bool)
        requires
            old(self).wf(),
        ensures
            final(self).wf(),
            final(self).running() == old(self).running(),
            match first_index_of(old(self).config_ids(), id@) {
                Some(i) => found && final(self).configs() == old(self).configs().update(
                    i,
                    TunnelConfigModel { auto_connect: auto_connect, ..old(self).configs()[i] },
                ),
                None => !found && final(self).configs() == old(self).configs(),
            },
    {
        proof {
            lemma_first_index_of(self.config_ids(), id@);
        }
        match self.position(id) {
            Some(i) => {
                let mut c = self.configs[i].duplicate();
                c.auto_connect = auto_connect;
                let ghost u = c@;
                self.configs.set(i, c);
                assert(self.configs() =~= old(self).configs().update(i as int, u));
                assert(self.config_ids() =~= old(self).config_ids());
                assert(self.running() =~= old(self).running());
                assert(self.running_ids() =~= old(self).running_ids());
                true
            },
            None => false,
        }
    }

    /// Appends a copy of the first tunnel with id `id`, under `new_id` and
    /// with " (Copy)" after its name; tells whether there was one to copy.
    pub fn copy_tunnel_with_id(&mut self, id: &String, new_id: String) -> (found: bool)
        requires
            old(self).wf(),
        ensures
            final(self).wf(),
            final(self).running() == old(self).running(),
            match first_index_of(old(self).config_ids(), id@) {
                Some(i) => found && final(self).configs() == old(self).configs().push(
                    copied_tunnel(old(self).configs()[i], new_id@),
                ),
                None => !found && final(self).configs() == old(self).configs(),
            },
            found ==> copy_appended(old(self).configs(), final(self).configs(), id@, new_id@),
    {
        proof {
            lemma_first_index_of(self.config_ids(), id@);
        }
        match self.position(id) {
            Some(i) => {
                let mut c = self.configs[i].duplicate();
                c.id = new_id;
                c.name.append(" (Copy)");
                assert(c@ == copied_tunnel(old(self).configs()[i as int], new_id@));
                self.add(c);
                proof {
                    let before = old(self).configs();
                    assert(self.configs().subrange(0, before.len() as int) =~= before);
                    assert(before[i as int].id == id@);
                    assert(self.configs().last() == copied_tunnel(before[i as int], new_id@));
                }
                true
            },
            None => false,
        }
    }

    /// Appends a copy of the first tunnel with id `id` under a fresh random
    /// id, with " (Copy)" after its name; tells whether there was one.
    pub fn copy_tunnel(&mut self, id: &String) -> (found: bool)
        requires
            old(self).wf(),
        ensures
            final(self).wf(),
            final(self).running() == old(self).running(),
            match first_index_of(old(self).config_ids(), id@) {
                Some(i) => found && is_uuid_v4_text(final(self).configs().last().id)
                    && final(self).configs() == old(self).configs().push(
                    copied_tunnel(old(self).configs()[i], final(self).configs().last().id),
                ),
                None => !found && final(self).configs() == old(self).configs(),
            },
            found ==> copy_appended(
                old(self).configs(),
                final(self).configs(),
                id@,
                final(self).configs().last().id,
            ),
    {
        let new_id = new_uuid_v4_text();
        self.copy_tunnel_with_id(id, new_id)
    }

    fn take_running(&mut self, id: &String) -> (h: Option<H>)
        ensures
            final(self).configs() == old(self).configs(),
            match first_index_of(old(self).running_ids(), id@) {
                Some(k) => final(self).running() == old(self).running().remove(k) && h == Some(
                    old(self).running()[k].1,
                ),
                None => final(self).running() == old(self).running() && h is None,
            },
    {
        proof {
            lemma_first_index_of(self.running_ids(), id@);
        }
        match self.running_position(id) {
            Some(k) => {
                let entry = self.running.remove(k);
                assert(self.running() =~= old(self).running().remove(k as int));
                assert(self.configs() =~= old(self).configs());
                Some(entry.handle)
            },
            None => None,
        }
    }

    proof fn lemma_running_removed(&self, before: Self, id: Seq<char>)
        requires
            before.wf(),
            first_index_of(before.running_ids(), id) matches Some(k) && self.running()
                == before.running().remove(k),
            forall|x: Seq<char>|
                x != id && before.config_ids().contains(x) ==> #[trigger] self.config_ids().contains(
                    x,
                ),
        ensures
            self.wf(),
            !self.is_running(id),
            self.running_ids() == before.running_ids().remove(
                first_index_of(before.running_ids(), id)->0,
            ),
    {
        lemma_first_index_of(before.running_ids(), id);
        let k = first_index_of(before.running_ids(), id)->0;
        assert(self.running_ids() =~= before.running_ids().remove(k));
        lemma_remove_unique(before.running_ids(), k);
        assert forall|j: int|
            0 <= j < self.running_ids().len() implies self.config_ids().contains(
            #[trigger] self.running_ids()[j],
        ) by {
            let oj = if j < k {
                j
            } else {
                j + 1
            };
            assert(self.running_ids()[j] == before.running_ids()[oj]);
            assert(before.config_ids().contains(before.running_ids()[oj]));
            if before.running_ids()[oj] == id {
                assert(before.running_ids()[oj] == before.running_ids()[k]);
            }
        }
    }

    /// Forgets the running tunnel with this id, giving back its handle so
    /// that the caller can stop it; nothing changes where none runs.
    pub fn stop(&mut self, id: &String) -> (h: Option<H>)
        requires
            old(self).wf(),
        ensures
            final(self).wf(),
            !final(self).is_running(id@),
            final(self).configs() == old(self).configs(),
            match first_index_of(old(self).running_ids(), id@) {
                Some(k) => final(self).running() == old(self).running().remove(k) && h == Some(
                    old(self).running()[k].1,
                ),
                None => final(self).running() == old(self).running() && h is None,
            },
    {
        let h = self.take_running(id);
        proof {
            lemma_first_index_of(old(self).running_ids(), id@);
            if first_index_of(old(self).running_ids(), id@) is Some {
                assert(self.config_ids() =~= old(self).config_ids());
                self.lemma_running_removed(*old(self), id@);
            } else {
                assert(self.config_ids() =~= old(self).config_ids());
                assert(self.running_ids() =~= old(self).running_ids());
            }
        }
        h
    }

    /// Removes the first tunnel with this id and forgets it as running.
    /// Gives back its settings and, where it ran, its handle, so that the
    /// caller can forget its password and stop it.
    pub fn delete_tunnel(&mut self, id: &String) -> (r: Option<(TunnelConfig, Option<H>)>)
        requires
            old(self).wf(),
        ensures
            final(self).wf(),
            match first_index_of(old(self).config_ids(), id@) {
                Some(i) => {
                    &&& r matches Some((c, h))
                    &&& c@ == old(self).configs()[i]
                    &&& final(self).configs() == old(self).configs().remove(i)
                    &&& !final(self).is_running(id@)
                    &&& match first_index_of(old(self).running_ids(), id@) {
                        Some(k) => final(self).running() == old(self).running().remove(k) && h
                            == Some(old(self).running()[k].1),
                        None => final(self).running() == old(self).running() && h is None,
                    }
                },
                None => r is None && final(self).configs() == old(self).configs()
                    && final(self).running() == old(self).running(),
            },
    {
        proof {
            lemma_first_index_of(self.config_ids(), id@);
            lemma_first_index_of(self.running_ids(), id@);
        }
        match self.position(id) {
            Some(i) => {
                let c = self.configs.remove(i);
                assert(self.configs() =~= old(self).configs().remove(i as int));
                let ghost mid = *self;
                let h = self.take_running(id);
                proof {
                    let before = *old(self);
                    assert forall|x: Seq<char>|
                        x != id@ && before.config_ids().contains(x) implies #[trigger] self.config_ids().contains(
                        x,
                    ) by {
                        let j = choose|j: int| 0 <= j < before.config_ids().len() && before.config_ids()[j] == x;
                        assert(j != i);
                        let nj = if j < i {
                            j
                        } else {
                            j - 1
                        };
                        assert(self.config_ids()[nj] == x);
                    }
                    if first_index_of(before.running_ids(), id@) is Some {
                        self.lemma_running_removed(before, id@);
                    } else {
                        assert(self.running_ids() =~= before.running_ids());
                        assert forall|k: int|
                            0 <= k < self.running_ids().len() implies self.config_ids().contains(
                            #[trigger] self.running_ids()[k],
                        ) by {
                            assert(before.config_ids().contains(before.running_ids()[k]));
                        }
                    }
                }
                Some((c, h))
            },
            None => None,
        }
    }

    /// Records the tunnel with this id as running with `handle`. Refused,
    /// giving the handle back, where no tunnel has this id. Where it already
    /// runs, the new handle takes the old one's place and the old one is
    /// given back.
    pub fn start_running(&mut self, id: String, handle: H) -> (r: Result<Option<H>, H>)
        requires
            old(self).wf(),
        ensures
            final(self).wf(),
            final(self).configs() == old(self).configs(),
            match first_index_of(old(self).config_ids(), id@) {
                None => r == Err::<Option<H>, H>(handle) && final(self).running() == old(
                    self,
                ).running(),
                Some(_) => final(self).is_running(id@) && match first_index_of(
                    old(self).running_ids(),
                    id@,
                ) {
                    Some(k) => final(self).running() == old(self).running().update(
                        k,
                        (id@, handle),
                    ) && r == Ok::<Option<H>, H>(Some(old(self).running()[k].1)),
                    None => final(self).running() == old(self).running().push((id@, handle))
                        && r == Ok::<Option<H>, H>(None),
                },
            },
    {
        proof {
            lemma_first_index_of(self.config_ids(), id@);
            lemma_first_index_of(self.running_ids(), id@);
        }
        if self.position(&id).is_none() {
            return Err(handle);
        }
        let ghost idv = id@;
        match self.running_position(&id) {
            Some(k) => {
                let old_entry = self.running.remove(k);
                self.running.insert(k, RunningTunnel { id, handle });
                assert(self.running() =~= old(self).running().update(k as int, (idv, handle)));
                assert(self.configs() =~= old(self).configs());
                assert(self.config_ids() =~= old(self).config_ids());
                assert(self.running_ids() =~= old(self).running_ids());
                assert(self.running_ids()[k as int] == idv);
                Ok(Some(old_entry.handle))
            },
            None => {
                self.running.push(RunningTunnel { id, handle });
                assert(self.running() =~= old(self).running().push((idv, handle)));
                assert(self.configs() =~= old(self).configs());
                assert(self.config_ids() =~= old(self).config_ids());
                assert(self.running_ids() =~= old(self).running_ids().push(idv));
                proof {
                    let before = old(self).running_ids();
                    let i = first_index_of(old(self).config_ids(), idv)->0;
                    assert(self.config_ids()[i] == idv);
                    assert forall|a: int, b: int|
                        0 <= a < self.running_ids().len() && 0 <= b < self.running_ids().len()
                            && a != b implies self.running_ids()[a] != self.running_ids()[b] by {
                        if a < before.len() && b < before.len() {
                        } else if a < before.len() {
                            assert(before[a] != idv);
                        } else {
                            assert(before[b] != idv);
                        }
                    }
                    assert forall|k: int|
                        0 <= k < self.running_ids().len() implies self.config_ids().contains(
                        #[trigger] self.running_ids()[k],
                    ) by {
                        if k < before.len() {
                            assert(old(self).config_ids().contains(before[k]));
                        }
                    }
                    assert(self.running_ids()[before.len() as int] == idv);
                }
                Ok(None)
            },
        }
    }

    /// Never more tunnels run than are configured.
    pub proof fn lemma_running_at_most_configured(&self)
        requires
            self.wf(),
        ensures
            self.running().len() <= self.configs().len(),
    {
        broadcast use vstd::seq_lib::seq_to_set_is_finite;

        let r = self.running_ids();
        let c = self.config_ids();
        r.unique_seq_to_set();
        c.lemma_cardinality_of_set();
        assert forall|x: Seq<char>| r.to_set().contains(x) implies c.to_set().contains(x) by {
            let k = choose|k: int| 0 <= k < r.len() && r[k] == x;
            assert(c.contains(r[k]));
        }
        lemma_len_subset(r.to_set(), c.to_set());
    }

    /// How many tunnels run and how many are stopped.
    pub fn status_counts(&self) -> (counts: (usize, usize))
        requires
            self.wf(),
        ensures
            counts.0 == self.running().len(),
            counts.0 + counts.1 == self.configs().len(),
    {
        proof {
            self.lemma_running_at_most_configured();
        }
        let active = self.running.len();
        let total = self.configs.len();
        (active, total - active)
    }

    /// The ids of the tunnels that connect at start-up, in list order.
    pub fn auto_connect_ids(&self) -> (ids: Vec<String>)
        ensures
            ids@.len() == auto_connect_ids_of(self.configs()).len(),
            forall|k: int|
                0 <= k < ids@.len() ==> #[trigger] ids@[k]@ == auto_connect_ids_of(
                    self.configs(),
                )[k],
            forall|k: int|
                0 <= k < ids@.len() ==> is_start_up_id(self.configs(), #[trigger] ids@[k]@),
            forall|i: int|
                0 <= i < self.configs().len() && #[trigger] self.configs()[i].auto_connect
                    ==> exists|k: int| 0 <= k < ids@.len() && ids@[k]@ == self.configs()[i].id,
    {
        proof {
            lemma_auto_connect_ids_members(self.configs());
        }
        let n = self.configs.len();
        let mut ids: Vec<String> = Vec::new();
        let mut i: usize = 0;
        while i < n
            invariant
                n == self.configs@.len(),
                i <= n,
                ids@.len() == auto_connect_ids_of(self.configs().subrange(0, i as int)).len(),
                forall|k: int|
                    0 <= k < ids@.len() ==> #[trigger] ids@[k]@ == auto_connect_ids_of(
                        self.configs().subrange(0, i as int),
                    )[k],
            decreases n - i,
        {
            let ghost prev = self.configs().subrange(0, i as int);
            let ghost next = self.configs().subrange(0, i + 1);
            assert(next.drop_last() =~= prev);
            assert(next.last() == self.configs()[i as int]);
            if self.configs[i].auto_connect {
                ids.push(self.configs[i].id.clone());
            }
            i = i + 1;
        }
        assert(self.configs().subrange(0, n as int) =~= self.configs());
        proof {
            let cs = self.configs();
            let auto = auto_connect_ids_of(cs);
            assert forall|k: int| 0 <= k < ids@.len() implies is_start_up_id(cs, #[trigger] ids@[k]@) by {
                assert(ids@[k]@ == auto[k]);
            }
            assert forall|i: int|
                0 <= i < cs.len() && #[trigger] cs[i].auto_connect implies exists|k: int|
                    0 <= k < ids@.len() && ids@[k]@ == cs[i].id by {
                let k = choose|k: int| 0 <= k < auto.len() && auto[k] == cs[i].id;
                assert(ids@[k]@ == auto[k]);
            }
        }
        ids
    }

    /// The tunnels listed for the search text `query`, in list order, each
    /// with whether it runs.
    pub fn search(&self, query: &String) -> (hits: Vec<SearchHit>)
        ensures
            forall|a: int, b: int|
                0 <= a < b < hits@.len() ==> hits@[a].index < hits@[b].index,
            forall|a: int|
                0 <= a < hits@.len() ==> {
                    &&& #[trigger] hits@[a].index < self.configs().len()
                    &&& matches_search(self.configs()[hits@[a].index as int].name, query@)
                    &&& hits@[a].running == self.is_running(
                        self.configs()[hits@[a].index as int].id,
                    )
                },
            forall|i: int|
                0 <= i < self.configs().len() && matches_search(self.configs()[i].name, query@)
                    ==> exists|a: int| 0 <= a < hits@.len() && #[trigger] hits@[a].index == i,
            query@.len() == 0 ==> forall|i: int|
                0 <= i < self.configs().len() ==> matches_search(
                    #[trigger] self.configs()[i].name,
                    query@,
                ),
            forall|a: int|
                0 <= a < hits@.len() ==> lowercase(query@).len() == 0 || contains_text(
                    lowercase(self.configs()[#[trigger] hits@[a].index as int].name),
                    lowercase(query@),
                ),
            forall|i: int|
                0 <= i < self.configs().len() && (lowercase(query@).len() == 0 || contains_text(
                    lowercase(#[trigger] self.configs()[i].name),
                    lowercase(query@),
                )) ==> exists|a: int| 0 <= a < hits@.len() && hits@[a].index == i,
            query@.len() == 0 ==> hits@.len() == self.configs().len(),
    {
        let q = to_lowercase(query.as_str());
        assert(query@.len() == 0 ==> forall|i: int|
            0 <= i < self.configs().len() ==> matches_search(#[trigger] self.configs()[i].name, query@));
        let n = self.configs.len();
        let mut hits: Vec<SearchHit> = Vec::new();
        let mut i: usize = 0;
        while i < n
            invariant
                n == self.configs@.len(),
                i <= n,
                q@ == lowercase(query@),
                query@.len() == 0 ==> q@.len() == 0,
                query@.len() == 0 ==> hits@.len() == i,
                forall|a: int, b: int|
                    0 <= a < b < hits@.len() ==> hits@[a].index < hits@[b].index,
                forall|a: int|
                    0 <= a < hits@.len() ==> {
                        &&& #[trigger] hits@[a].index < i
                        &&& matches_search(self.configs()[hits@[a].index as int].name, query@)
                        &&& hits@[a].running == self.is_running(
                            self.configs()[hits@[a].index as int].id,
                        )
                    },
                forall|j: int|
                    0 <= j < i && matches_search(self.configs()[j].name, query@) ==> exists|a: int|
                        0 <= a < hits@.len() && #[trigger] hits@[a].index == j,
            decreases n - i,
        {
            let listed = if q.as_str().is_empty() {
                true
            } else {
                let name = to_lowercase(self.configs[i].name.as_str());
                text_contains(name.as_str(), q.as_str())
            };
            assert(listed == matches_search(self.configs()[i as int].name, query@));
            let ghost before = hits@;
            if listed {
                let running = self.is_running_id(&self.configs[i].id);
                hits.push(SearchHit { index: i, running });
                assert(hits@[before.len() as int].index == i);
            }
            proof {
                assert forall|j: int|
                    0 <= j < i + 1 && matches_search(self.configs()[j].name, query@) implies exists|a: int|
                        0 <= a < hits@.len() && #[trigger] hits@[a].index == j by {
                    if j < i {
                        let a = choose|a: int| 0 <= a < before.len() && #[trigger] before[a].index == j;
                        assert(hits@[a] == before[a]);
                    } else {
                        assert(hits@[before.len() as int].index == j);
                    }
                }
            }
            i = i + 1;
        }
        hits
    }
}

} // verus!
