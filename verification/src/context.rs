//! The registry of long-poll listeners: what each listener is interested in,
//! the events waiting for it, and the connection to reply on, if it is
//! waiting.
//!
//! A listener is known by a number that it picks. It sends the servers it is
//! interested in and waits; an event for one of those servers is handed to
//! the connection it waits on, or kept until it listens again. A listener not
//! heard from for a while is told to listen again, and one not heard from for
//! longer is forgotten.

use crate::assoc::{
    keys_unique, lemma_to_map_absent, lemma_to_map_dom, lemma_to_map_index, lemma_to_map_push, lemma_to_map_update,
    to_map,
};
use crate::encoding::{b64_encode, base64_text, decimal, percent_encode, u128_to_decimal, url_encode};
use crate::error::{Error, ErrorKind};
use crate::persistence::{
    Event, EventModel, InterestFailure, duplicate_events, id_text_reads_back, interest_failure_kind, lemma_remote_post_data_reads_back,
    parse_interest_list, remote_interests_read_back, spec_interest_list, split_crlf, without_channels,
};
use crate::ser::views;
use crate::sys::{elapsed, elapsed_millis, now_millis};
use vstd::prelude::*;
use vstd::string::{StrSliceExecFns, StringExecFns};
use vstd::utf8::*;

verus! {

broadcast use vstd::seq_lib::group_seq_properties;

/// A listener that has not been heard from for this long, in milliseconds,
/// is told to listen again.
pub const PING_TIMEOUT: u128 = 30_000;

/// A listener that has not been heard from for this long, in milliseconds,
/// is forgotten.
pub const PURGE_TIMEOUT: u128 = 60_000;

/// What a listener listens to: the events of a server, or of one of its
/// channels.
#[derive(Debug, Clone, Copy)]
pub struct Interest {
    pub server_pubkey: [u8; 32],
    pub server_id: [u8; 8],
    pub channel_id: Option<u64>,
}

/// The model of an interest: the server's key and identifier, and the
/// channel if one is named.
pub type InterestModel = (Seq<u8>, Seq<u8>, Option<u64>);

impl View for Interest {
    type V = InterestModel;

    open spec fn view(&self) -> InterestModel {
        (self.server_pubkey@, self.server_id@, self.channel_id)
    }
}

/// Whether two byte strings are the same.
pub(crate) fn bytes_eq(a: &[u8], b: &[u8]) -> (r: bool)
    ensures
        r == (a@ == b@),
{
    if a.len() != b.len() {
        return false;
    }
    let mut i: usize = 0;
    while i < a.len()
        invariant
            i <= a@.len(),
            a@.len() == b@.len(),
            forall|j: int| 0 <= j < i ==> a@[j] == b@[j],
        decreases a@.len() - i,
    {
        if a[i] != b[i] {
            assert(a@[i as int] != b@[i as int]);
            return false;
        }
        i = i + 1;
    }
    assert(a@ =~= b@);
    true
}

impl Interest {
    /// Whether two interests are the same.
    pub fn same(&self, other: &Interest) -> (r: bool)
        ensures
            r == (self@ == other@),
    {
        bytes_eq(self.server_pubkey.as_slice(), other.server_pubkey.as_slice()) && bytes_eq(
            self.server_id.as_slice(),
            other.server_id.as_slice(),
        ) && match (self.channel_id, other.channel_id) {
            (Some(a), Some(b)) => a == b,
            (None, None) => true,
            _ => false,
        }
    }
}

/// What is known of one listener.
pub struct ConnectionInfo<A> {
    ac: Option<A>,
    subscriptions: Vec<Interest>,
    pending: Vec<Event>,
    ping_time: u128,
}

/// The model of a listener: the connection it waits on, if any; what it is
/// interested in; the events waiting for it; and when it was last heard from.
pub struct ConnModel<A> {
    pub ac: Option<A>,
    pub subscriptions: Set<InterestModel>,
    pub pending: Seq<EventModel>,
    pub ping_time: u128,
}

impl<A> View for ConnectionInfo<A> {
    type V = ConnModel<A>;

    closed spec fn view(&self) -> ConnModel<A> {
        ConnModel {
            ac: self.ac,
            subscriptions: views(self.subscriptions@).to_set(),
            pending: views(self.pending@),
            ping_time: self.ping_time,
        }
    }
}

/// The model of the registry: the listeners with their states, in the order
/// they were first heard from; the listeners of each interest, in the order
/// they subscribed; and the interests followed on each remote server.
pub struct ContextModel<A> {
    pub listeners: Seq<(u128, ConnModel<A>)>,
    pub subscriptions: Seq<(InterestModel, Seq<u128>)>,
    pub remotes: Seq<(Seq<u8>, Set<InterestModel>)>,
}

/// The registry of listeners.
pub struct ConcordContext<A> {
    listener_map: Vec<(u128, ConnectionInfo<A>)>,
    subscription_map: Vec<(Interest, Vec<u128>)>,
    remote_interest: Vec<([u8; 32], Vec<Interest>)>,
}

impl<A> View for ConcordContext<A> {
    type V = ContextModel<A>;

    closed spec fn view(&self) -> ContextModel<A> {
        ContextModel {
            listeners: views(self.listener_map@),
            subscriptions: views(self.subscription_map@),
            remotes: self.remote_interest@.map_values(|p: ([u8; 32], Vec<Interest>)| (p.0@, views(p.1@).to_set())),
        }
    }
}

/// A registry whose listeners, interests and remote servers each appear once,
/// and whose interests list each listener once.
pub open spec fn context_wf<A>(m: ContextModel<A>) -> bool {
    &&& keys_unique(m.listeners)
    &&& keys_unique(m.subscriptions)
    &&& keys_unique(m.remotes)
    &&& forall|i: int| 0 <= i < m.subscriptions.len() ==> (#[trigger] m.subscriptions[i]).1.no_duplicates()
}

/// `ids` with `id` added at the end, unless it is there already.
pub open spec fn add_id(ids: Seq<u128>, id: u128) -> Seq<u128> {
    if ids.contains(id) {
        ids
    } else {
        ids.push(id)
    }
}

/// The listeners of each interest, once `id` subscribes to the interests of
/// `list` in order.
pub open spec fn subscribe_all(m: Map<InterestModel, Seq<u128>>, id: u128, list: Seq<InterestModel>) -> Map<
    InterestModel,
    Seq<u128>,
>
    decreases list.len(),
{
    if list.len() == 0 {
        m
    } else {
        let prev = subscribe_all(m, id, list.drop_last());
        let i = list.last();
        prev.insert(
            i,
            add_id(
                if prev.contains_key(i) {
                    prev[i]
                } else {
                    Seq::empty()
                },
                id,
            ),
        )
    }
}

/// The remote servers followed with the interests followed on each, the
/// interests whose remote connections start, and the interests that
/// servers already followed must be told of, once the interests of `list`
/// are followed for the user `user`. An interest on a server other than the
/// user's own starts a connection when its server is not yet followed, and
/// is otherwise added to what is followed there, the server being told of
/// it when it is new.
pub open spec fn follow_all(m: Map<Seq<u8>, Set<InterestModel>>, user: Seq<u8>, list: Seq<InterestModel>) -> (Map<
    Seq<u8>,
    Set<InterestModel>,
>, Seq<InterestModel>, Seq<InterestModel>)
    decreases list.len(),
{
    if list.len() == 0 {
        (m, Seq::empty(), Seq::empty())
    } else {
        let (prev, started, told) = follow_all(m, user, list.drop_last());
        let i = list.last();
        if i.0 == user {
            (prev, started, told)
        } else if !prev.contains_key(i.0) {
            (prev.insert(i.0, set![i]), started.push(i), told)
        } else if !prev[i.0].contains(i) {
            (prev.insert(i.0, prev[i.0].insert(i)), started, told.push(i))
        } else {
            (prev, started, told)
        }
    }
}

/// `ids` without `id`, the others in order.
pub open spec fn without_id(ids: Seq<u128>, id: u128) -> Seq<u128>
    decreases ids.len(),
{
    if ids.len() == 0 {
        ids
    } else {
        let prev = without_id(ids.drop_last(), id);
        if ids.last() == id {
            prev
        } else {
            prev.push(ids.last())
        }
    }
}

/// `without_id` keeps exactly the ids other than `id`, each once if `ids`
/// had it once.
pub proof fn lemma_without_id(ids: Seq<u128>, id: u128)
    ensures
        forall|x: u128| #[trigger] without_id(ids, id).contains(x) <==> (ids.contains(x) && x != id),
        ids.no_duplicates() ==> without_id(ids, id).no_duplicates(),
    decreases ids.len(),
{
    if ids.len() > 0 {
        let d = ids.drop_last();
        lemma_without_id(d, id);
        let prev = without_id(d, id);
        assert forall|x: u128| #[trigger] without_id(ids, id).contains(x) <==> (ids.contains(x) && x != id) by {
            if ids.contains(x) && x != id {
                let k = choose|k: int| 0 <= k < ids.len() && ids[k] == x;
                if k < ids.len() - 1 {
                    assert(d[k] == x);
                    assert(prev.contains(x));
                    if ids.last() != id {
                        let kk = choose|kk: int| 0 <= kk < prev.len() && prev[kk] == x;
                        assert(prev.push(ids.last())[kk] == x);
                    }
                } else {
                    assert(ids.last() == x);
                    assert(prev.push(ids.last())[prev.len() as int] == x);
                }
            }
            if without_id(ids, id).contains(x) {
                if ids.last() != id {
                    let kk = choose|kk: int| 0 <= kk < prev.push(ids.last()).len() && prev.push(ids.last())[kk] == x;
                    if kk < prev.len() {
                        assert(prev[kk] == x);
                        assert(prev.contains(x));
                        let k = choose|k: int| 0 <= k < d.len() && d[k] == x;
                        assert(ids[k] == x);
                    } else {
                        assert(ids[ids.len() - 1] == x);
                    }
                } else {
                    assert(prev.contains(x));
                    let k = choose|k: int| 0 <= k < d.len() && d[k] == x;
                    assert(ids[k] == x);
                }
            }
        }
        if ids.no_duplicates() {
            assert(d.no_duplicates());
            if ids.last() != id {
                assert(!d.contains(ids.last()));
                assert(!prev.contains(ids.last()));
                assert(prev.push(ids.last()).no_duplicates());
            }
        }
    }
}

/// The listeners of each interest once `id` has left them all.
pub open spec fn drop_listener(subs: Seq<(InterestModel, Seq<u128>)>, id: u128) -> Seq<(InterestModel, Seq<u128>)> {
    subs.map_values(|p: (InterestModel, Seq<u128>)| (p.0, without_id(p.1, id)))
}

/// Once `id` has left every interest, the interests are the same and each
/// lists its other listeners.
pub proof fn lemma_drop_listener(subs: Seq<(InterestModel, Seq<u128>)>, id: u128)
    ensures
        to_map(drop_listener(subs, id)).dom() == to_map(subs).dom(),
        forall|k: InterestModel| #[trigger] to_map(subs).contains_key(k) ==> to_map(drop_listener(subs, id))[k]
            == without_id(to_map(subs)[k], id),
    decreases subs.len(),
{
    if subs.len() > 0 {
        lemma_drop_listener(subs.drop_last(), id);
        assert(drop_listener(subs, id).drop_last() =~= drop_listener(subs.drop_last(), id));
        assert(to_map(drop_listener(subs, id)).dom() =~= to_map(subs).dom());
    }
}

/// A copy of a list of interests.
fn copy_interests(list: &Vec<Interest>) -> (c: Vec<Interest>)
    ensures
        c@ == list@,
{
    let mut c: Vec<Interest> = Vec::new();
    let mut i: usize = 0;
    while i < list.len()
        invariant
            i <= list@.len(),
            c@ == list@.take(i as int),
        decreases list@.len() - i,
    {
        let x = list[i];
        c.push(Interest { server_pubkey: x.server_pubkey, server_id: x.server_id, channel_id: x.channel_id });
        assert(c@ =~= list@.take(i + 1));
        i = i + 1;
    }
    assert(list@.take(list@.len() as int) =~= list@);
    c
}

impl<A> ConcordContext<A> {
    /// The registry is well formed.
    pub open spec fn wf(&self) -> bool {
        context_wf(self@)
    }

    /// An empty registry.
    pub fn new() -> (c: ConcordContext<A>)
        ensures
            c.wf(),
            c@.listeners.len() == 0,
            c@.subscriptions.len() == 0,
            c@.remotes.len() == 0,
    {
        let c = ConcordContext { listener_map: Vec::new(), subscription_map: Vec::new(), remote_interest: Vec::new() };
        assert(c@.remotes =~= Seq::<(Seq<u8>, Set<InterestModel>)>::empty());
        c
    }

    /// Follows `interest` on its server remotely: a server not yet followed
    /// is followed with that interest, and its connection must be started;
    /// on a server already followed the interest is added, and when it is
    /// new there the server must be told of it. Returns whether a connection
    /// must be started and whether the server must be told.
    fn check_add_remote(&mut self, interest: &Interest) -> (res: (bool, bool))
        requires
            keys_unique(old(self)@.remotes),
        ensures
            keys_unique(final(self)@.remotes),
            final(self)@.listeners == old(self)@.listeners,
            final(self)@.subscriptions == old(self)@.subscriptions,
            res.0 == !to_map(old(self)@.remotes).contains_key(interest@.0),
            res.1 == (!res.0 && !to_map(old(self)@.remotes)[interest@.0].contains(interest@)),
            to_map(final(self)@.remotes) == if res.0 {
                to_map(old(self)@.remotes).insert(interest@.0, set![interest@])
            } else {
                to_map(old(self)@.remotes).insert(interest@.0, to_map(old(self)@.remotes)[interest@.0].insert(interest@))
            },
    {
        let ghost rm = old(self)@.remotes;
        let mut j: usize = 0;
        while j < self.remote_interest.len()
            invariant
                j <= self.remote_interest@.len(),
                self@.remotes == rm,
                rm == old(self)@.remotes,
                keys_unique(rm),
                self@.listeners == old(self)@.listeners,
                self@.subscriptions == old(self)@.subscriptions,
                rm == self.remote_interest@.map_values(|p: ([u8; 32], Vec<Interest>)| (p.0@, views(p.1@).to_set())),
                forall|k: int| 0 <= k < j ==> (#[trigger] rm[k]).0 != interest@.0,
            decreases self.remote_interest@.len() - j,
        {
            if bytes_eq(self.remote_interest[j].0.as_slice(), interest.server_pubkey.as_slice()) {
                assert(rm[j as int].0 == interest@.0);
                proof {
                    lemma_to_map_index(rm, j as int);
                }
                assert(to_map(rm).contains_key(interest@.0));
                let ghost before = self@;
                let ghost entry = self.remote_interest@[j as int];
                assert(rm[j as int] == (entry.0@, views(entry.1@).to_set()));
                let (key, mut list) = self.remote_interest.remove(j);
                assert(key == entry.0 && list == entry.1);
                let ghost old_list = views(list@);
                assert(old_list.to_set() == rm[j as int].1);
                assert(to_map(rm)[interest@.0] == old_list.to_set());
                let mut present = false;
                let mut t: usize = 0;
                while t < list.len()
                    invariant
                        t <= list@.len(),
                        views(list@) == old_list,
                        present <==> exists|u: int| 0 <= u < t && old_list[u] == interest@,
                    decreases list@.len() - t,
                {
                    assert(old_list[t as int] == list@[t as int]@);
                    if list[t].same(interest) {
                        present = true;
                    }
                    t = t + 1;
                }
                assert(present == old_list.contains(interest@));
                assert(old_list.to_set().contains(interest@) == old_list.contains(interest@));
                if !present {
                    list.push(*interest);
                    assert(views(list@) =~= old_list.push(interest@));
                    assert(views(list@).to_set() =~= old_list.to_set().insert(interest@));
                } else {
                    assert(views(list@).to_set() =~= old_list.to_set().insert(interest@));
                }
                let ghost new_set = old_list.to_set().insert(interest@);
                self.remote_interest.insert(j, (key, list));
                assert(self@.remotes =~= rm.update(j as int, (interest@.0, new_set)));
                assert(self@.listeners == before.listeners);
                assert(self@.subscriptions =~= before.subscriptions);
                proof {
                    lemma_to_map_update(rm, j as int, new_set);
                    lemma_to_map_dom(rm, interest@.0);
                }
                return (false, !present);
            }
            j = j + 1;
        }
        proof {
            lemma_to_map_absent(rm, interest@.0);
        }
        let mut list: Vec<Interest> = Vec::new();
        list.push(*interest);
        assert(views(list@).to_set() =~= set![interest@]) by {
            assert(views(list@) =~= seq![interest@]);
        }
        self.remote_interest.push((interest.server_pubkey, list));
        assert(self@.remotes =~= rm.push((interest@.0, set![interest@])));
        proof {
            lemma_to_map_push(rm, interest@.0, set![interest@]);
        }
        (true, false)
    }

    /// Takes `listener_id` off the listeners of every interest.
    fn leave_all(&mut self, listener_id: u128)
        requires
            context_wf(old(self)@),
        ensures
            context_wf(final(self)@),
            final(self)@.listeners == old(self)@.listeners,
            final(self)@.remotes == old(self)@.remotes,
            final(self)@.subscriptions == drop_listener(old(self)@.subscriptions, listener_id),
    {
        let ghost sm = old(self)@.subscriptions;
        let mut j: usize = 0;
        while j < self.subscription_map.len()
            invariant
                j <= self.subscription_map@.len(),
                self.subscription_map@.len() == sm.len(),
                self@.listeners == old(self)@.listeners,
                self@.remotes == old(self)@.remotes,
                sm == old(self)@.subscriptions,
                context_wf(old(self)@),
                forall|k: int|
                    0 <= k < sm.len() ==> #[trigger] self@.subscriptions[k] == if k < j {
                        (sm[k].0, without_id(sm[k].1, listener_id))
                    } else {
                        sm[k]
                    },
            decreases self.subscription_map@.len() - j,
        {
            let ghost before = self@;
            let ghost entry = self.subscription_map@[j as int];
            assert(before.subscriptions[j as int] == (entry.0@, entry.1@));
            let (interest, ids) = self.subscription_map.remove(j);
            assert(interest == entry.0 && ids == entry.1);
            let mut kept: Vec<u128> = Vec::new();
            let mut t: usize = 0;
            while t < ids.len()
                invariant
                    t <= ids@.len(),
                    kept@ == without_id(ids@.take(t as int), listener_id),
                decreases ids@.len() - t,
            {
                assert(ids@.take(t + 1).drop_last() =~= ids@.take(t as int));
                if ids[t] != listener_id {
                    kept.push(ids[t]);
                }
                t = t + 1;
            }
            assert(ids@.take(ids@.len() as int) =~= ids@);
            self.subscription_map.insert(j, (interest, kept));
            assert(before.subscriptions[j as int] == sm[j as int]);
            assert(self@.subscriptions =~= before.subscriptions.update(j as int, (sm[j as int].0, without_id(sm[j as int].1, listener_id))));
            assert(self@.listeners == before.listeners);
            assert(self@.remotes =~= before.remotes);
            j = j + 1;
        }
        assert(self@.subscriptions =~= drop_listener(sm, listener_id));
        proof {
            assert forall|a: int, b: int| 0 <= a < b < self@.subscriptions.len() implies #[trigger] self@.subscriptions[a].0
                != #[trigger] self@.subscriptions[b].0 by {
                assert(sm[a].0 != sm[b].0);
            }
            assert forall|t: int| 0 <= t < self@.subscriptions.len() implies (#[trigger] self@.subscriptions[t]).1.no_duplicates() by {
                lemma_without_id(sm[t].1, listener_id);
            }
        }
    }

    /// Adds `listener_id` to the listeners of `interest`.
    fn subscribe(&mut self, interest: &Interest, listener_id: u128)
        requires
            context_wf(old(self)@),
        ensures
            context_wf(final(self)@),
            final(self)@.listeners == old(self)@.listeners,
            final(self)@.remotes == old(self)@.remotes,
            to_map(final(self)@.subscriptions) == to_map(old(self)@.subscriptions).insert(
                interest@,
                add_id(
                    if to_map(old(self)@.subscriptions).contains_key(interest@) {
                        to_map(old(self)@.subscriptions)[interest@]
                    } else {
                        Seq::empty()
                    },
                    listener_id,
                ),
            ),
    {
        let ghost sm = old(self)@.subscriptions;
        let mut j: usize = 0;
        while j < self.subscription_map.len()
            invariant
                j <= self.subscription_map@.len(),
                self@ == old(self)@,
                context_wf(old(self)@),
                sm == old(self)@.subscriptions,
                forall|k: int| 0 <= k < j ==> (#[trigger] sm[k]).0 != interest@,
            decreases self.subscription_map@.len() - j,
        {
            if self.subscription_map[j].0.same(interest) {
                proof {
                    lemma_to_map_index(sm, j as int);
                }
                let (i, mut ids) = self.subscription_map.remove(j);
                let ghost old_ids = ids@;
                let mut present = false;
                let mut k: usize = 0;
                while k < ids.len()
                    invariant
                        k <= ids@.len(),
                        ids@ == old_ids,
                        present <==> exists|t: int| 0 <= t < k && ids@[t] == listener_id,
                    decreases ids@.len() - k,
                {
                    if ids[k] == listener_id {
                        present = true;
                    }
                    k = k + 1;
                }
                assert(present == old_ids.contains(listener_id));
                if !present {
                    ids.push(listener_id);
                }
                assert(ids@ == add_id(old_ids, listener_id));
                self.subscription_map.insert(j, (i, ids));
                assert(self@.subscriptions =~= sm.update(j as int, (interest@, add_id(old_ids, listener_id))));
                assert(self@.listeners == old(self)@.listeners);
                assert(self@.remotes =~= old(self)@.remotes);
                proof {
                    lemma_to_map_update(sm, j as int, add_id(old_ids, listener_id));
                    assert(add_id(old_ids, listener_id).no_duplicates());
                    assert forall|t: int| 0 <= t < self@.subscriptions.len() implies (
                    #[trigger] self@.subscriptions[t]).1.no_duplicates() by {
                        if t != j {
                            assert(self@.subscriptions[t] == sm[t]);
                        }
                    }
                }
                return;
            }
            j = j + 1;
        }
        proof {
            lemma_to_map_absent(sm, interest@);
            lemma_to_map_push(sm, interest@, seq![listener_id]);
        }
        let mut ids: Vec<u128> = Vec::new();
        ids.push(listener_id);
        self.subscription_map.push((*interest, ids));
        assert(self@.subscriptions =~= sm.push((interest@, seq![listener_id])));
        assert(self@.listeners == old(self)@.listeners);
        assert(self@.remotes =~= old(self)@.remotes);
        assert(add_id(Seq::<u128>::empty(), listener_id) =~= seq![listener_id]);
        proof {
            assert forall|t: int| 0 <= t < self@.subscriptions.len() implies (
            #[trigger] self@.subscriptions[t]).1.no_duplicates() by {
                if t < sm.len() {
                    assert(self@.subscriptions[t] == sm[t]);
                }
            }
        }
    }
}

/// The registry `new` is `old` once the listener `id`, heard from at `t` for
/// the user `user`, sets its interests to `list` and its connection to `ac`,
/// with the result `res`: the connection to reply on, the events that were
/// waiting, the interests whose remote connections must be started, and the
/// interests that servers already followed must be told of. The listener
/// leaves every interest and then lists under those of `list`.
pub open spec fn interest_set<A>(
    old: ContextModel<A>,
    new: ContextModel<A>,
    user: Seq<u8>,
    id: u128,
    ac: Option<A>,
    list: Seq<InterestModel>,
    t: u128,
    res: (Option<A>, Seq<EventModel>, Seq<InterestModel>, Seq<InterestModel>),
) -> bool {
    let old_l = to_map(old.listeners);
    let known = old_l.contains_key(id);
    let waiting = known && old_l[id].pending.len() > 0;
    &&& to_map(new.listeners) == old_l.insert(
        id,
        ConnModel {
            ac: if waiting {
                None
            } else {
                ac
            },
            subscriptions: list.to_set(),
            pending: Seq::empty(),
            ping_time: t,
        },
    )
    &&& res.0 == if waiting {
        old_l[id].ac
    } else {
        None
    }
    &&& res.1 == if known {
        old_l[id].pending
    } else {
        Seq::empty()
    }
    &&& to_map(new.subscriptions) == subscribe_all(to_map(drop_listener(old.subscriptions, id)), id, list)
    &&& to_map(new.remotes) == follow_all(to_map(old.remotes), user, list).0
    &&& res.2 == follow_all(to_map(old.remotes), user, list).1
    &&& res.3 == follow_all(to_map(old.remotes), user, list).2
}

impl<A> ConcordContext<A> {
    /// Sets what the listener `listener_id` listens to, as heard from at
    /// `time_now` for the user `user_pubkey`, and the connection `ac` it
    /// waits on.
    ///
    /// A listener with events waiting gets them back, and its old
    /// connection with them to reply on; it is then left waiting on no
    /// connection. Otherwise it waits on `ac`. The listener is listed under
    /// the interests of the list and under no other, and each interest on a
    /// remote server is followed there: the interests whose connections must
    /// be started, and those that servers already followed must be told of,
    /// are returned last.
    pub fn set_listener_interest_at(
        &mut self,
        user_pubkey: [u8; 32],
        listener_id: u128,
        ac: Option<A>,
        interest_list: Vec<Interest>,
        time_now: u128,
    ) -> (res: (Option<A>, Vec<Event>, Vec<Interest>, Vec<Interest>))
        requires
            old(self).wf(),
        ensures
            final(self).wf(),
            interest_set(
                old(self)@,
                final(self)@,
                user_pubkey@,
                listener_id,
                ac,
                views(interest_list@),
                time_now,
                (res.0, views(res.1@), views(res.2@), views(res.3@)),
            ),
    {
        let ghost list = views(interest_list@);
        let ghost rm0 = to_map(old(self)@.remotes);
        let mut starts: Vec<Interest> = Vec::new();
        let mut tells: Vec<Interest> = Vec::new();
        let mut i: usize = 0;
        while i < interest_list.len()
            invariant
                i <= interest_list@.len(),
                list == views(interest_list@),
                context_wf(self@),
                self@.listeners == old(self)@.listeners,
                self@.subscriptions == old(self)@.subscriptions,
                to_map(self@.remotes) == follow_all(rm0, user_pubkey@, list.take(i as int)).0,
                views(starts@) == follow_all(rm0, user_pubkey@, list.take(i as int)).1,
                views(tells@) == follow_all(rm0, user_pubkey@, list.take(i as int)).2,
            decreases interest_list@.len() - i,
        {
            let interest = interest_list[i];
            assert(list.take(i + 1).drop_last() =~= list.take(i as int));
            assert(list.take(i + 1).last() == interest@);
            if !bytes_eq(interest.server_pubkey.as_slice(), user_pubkey.as_slice()) {
                let ghost before = self@;
                let (start, tell) = self.check_add_remote(&interest);
                if start {
                    let ghost old_starts = views(starts@);
                    starts.push(interest);
                    assert(views(starts@) =~= old_starts.push(interest@));
                }
                if tell {
                    let ghost old_tells = views(tells@);
                    tells.push(interest);
                    assert(views(tells@) =~= old_tells.push(interest@));
                }
                if !start && !tell {
                    assert(to_map(before.remotes)[interest@.0].insert(interest@) =~= to_map(before.remotes)[interest@.0]);
                    assert(to_map(self@.remotes) =~= to_map(before.remotes));
                }
                assert(context_wf(self@)) by {
                    assert(self@.subscriptions == before.subscriptions);
                    assert(self@.listeners == before.listeners);
                }
            }
            i = i + 1;
        }
        assert(list.take(list.len() as int) =~= list);
        self.leave_all(listener_id);
        let ghost sm0 = to_map(self@.subscriptions);
        assert(sm0 == to_map(drop_listener(old(self)@.subscriptions, listener_id)));
        let mut i: usize = 0;
        while i < interest_list.len()
            invariant
                i <= interest_list@.len(),
                list == views(interest_list@),
                context_wf(self@),
                self@.listeners == old(self)@.listeners,
                to_map(self@.remotes) == follow_all(rm0, user_pubkey@, list).0,
                views(starts@) == follow_all(rm0, user_pubkey@, list).1,
                views(tells@) == follow_all(rm0, user_pubkey@, list).2,
                to_map(self@.subscriptions) == subscribe_all(sm0, listener_id, list.take(i as int)),
            decreases interest_list@.len() - i,
        {
            let interest = interest_list[i];
            assert(list.take(i + 1).drop_last() =~= list.take(i as int));
            assert(list.take(i + 1).last() == interest@);
            self.subscribe(&interest, listener_id);
            i = i + 1;
        }
        assert(list.take(list.len() as int) =~= list);
        let ghost lm = old(self)@.listeners;
        let mut p: usize = 0;
        while p < self.listener_map.len()
            invariant
                p <= self.listener_map@.len(),
                lm == self@.listeners,
                lm == old(self)@.listeners,
                list == views(interest_list@),
                rm0 == to_map(old(self)@.remotes),
                sm0 == to_map(drop_listener(old(self)@.subscriptions, listener_id)),
                context_wf(self@),
                to_map(self@.remotes) == follow_all(rm0, user_pubkey@, list).0,
                views(starts@) == follow_all(rm0, user_pubkey@, list).1,
                views(tells@) == follow_all(rm0, user_pubkey@, list).2,
                to_map(self@.subscriptions) == subscribe_all(sm0, listener_id, list),
                forall|k: int| 0 <= k < p ==> (#[trigger] lm[k]).0 != listener_id,
            decreases self.listener_map@.len() - p,
        {
            if self.listener_map[p].0 == listener_id {
                proof {
                    lemma_to_map_index(lm, p as int);
                }
                let ghost before = self@;
                let (id, conn) = self.listener_map.remove(p);
                let ConnectionInfo { ac: old_ac, subscriptions: _, pending, ping_time: _ } = conn;
                let waiting = pending.len() > 0;
                let (ret_ac, new_ac) = if waiting {
                    (old_ac, None)
                } else {
                    (None, ac)
                };
                let new_conn = ConnectionInfo {
                    ac: new_ac,
                    subscriptions: copy_interests(&interest_list),
                    pending: Vec::new(),
                    ping_time: time_now,
                };
                let ghost new_model = new_conn@;
                self.listener_map.insert(p, (id, new_conn));
                assert(self@.listeners =~= lm.update(p as int, (listener_id, new_model)));
                assert(self@.subscriptions == before.subscriptions);
                assert(self@.remotes =~= before.remotes);
                proof {
                    lemma_to_map_update(lm, p as int, new_model);
                }
                assert(new_model.pending =~= Seq::<EventModel>::empty());
                return (ret_ac, pending, starts, tells);
            }
            p = p + 1;
        }
        proof {
            lemma_to_map_absent(lm, listener_id);
        }
        let new_conn = ConnectionInfo {
            ac,
            subscriptions: copy_interests(&interest_list),
            pending: Vec::new(),
            ping_time: time_now,
        };
        let ghost new_model = new_conn@;
        assert(new_model.pending =~= Seq::<EventModel>::empty());
        proof {
            lemma_to_map_push(lm, listener_id, new_model);
        }
        let ghost before = self@;
        self.listener_map.push((listener_id, new_conn));
        assert(self@.listeners =~= lm.push((listener_id, new_model)));
        assert(self@.subscriptions == before.subscriptions);
        assert(self@.remotes =~= before.remotes);
        let none_pending: Vec<Event> = Vec::new();
        assert(views(none_pending@) =~= Seq::<EventModel>::empty());
        (None, none_pending, starts, tells)
    }
}

/// The listeners and the connections handed back once `events` are delivered
/// to the listeners `ids` in order: a listener waiting on a connection gives
/// it up and is then waiting on none; one that is not keeps the events.
pub open spec fn deliver<A>(m: Map<u128, ConnModel<A>>, ids: Seq<u128>, events: Seq<EventModel>) -> (Map<
    u128,
    ConnModel<A>,
>, Seq<A>)
    decreases ids.len(),
{
    if ids.len() == 0 {
        (m, Seq::empty())
    } else {
        let (prev, handed) = deliver(m, ids.drop_last(), events);
        let id = ids.last();
        if prev.contains_key(id) {
            let c = prev[id];
            match c.ac {
                Some(a) => (
                    prev.insert(
                        id,
                        ConnModel { ac: None, subscriptions: c.subscriptions, pending: c.pending, ping_time: c.ping_time },
                    ),
                    handed.push(a),
                ),
                None => (
                    prev.insert(
                        id,
                        ConnModel {
                            ac: None,
                            subscriptions: c.subscriptions,
                            pending: c.pending + events,
                            ping_time: c.ping_time,
                        },
                    ),
                    handed,
                ),
            }
        } else {
            (prev, handed)
        }
    }
}

/// The listeners of `interest` in the registry `m`, in the order they
/// subscribed.
pub open spec fn subscribers<A>(m: ContextModel<A>, interest: InterestModel) -> Seq<u128> {
    if to_map(m.subscriptions).contains_key(interest) {
        to_map(m.subscriptions)[interest]
    } else {
        Seq::empty()
    }
}

impl<A> ConcordContext<A> {
    /// Delivers `events` for `interest`: each listener of the interest that
    /// waits on a connection gives it up, and the connections are returned to
    /// reply on; the others keep the events until they listen again.
    pub fn add_event(&mut self, events: Vec<Event>, interest: &Interest) -> (handed: Vec<A>)
        requires
            old(self).wf(),
        ensures
            final(self).wf(),
            to_map(final(self)@.listeners) == deliver(
                to_map(old(self)@.listeners),
                subscribers(old(self)@, interest@),
                views(events@),
            ).0,
            handed@ == deliver(to_map(old(self)@.listeners), subscribers(old(self)@, interest@), views(events@)).1,
            final(self)@.subscriptions == old(self)@.subscriptions,
            final(self)@.remotes == old(self)@.remotes,
    {
        let ghost sm = old(self)@.subscriptions;
        let ghost m0 = to_map(old(self)@.listeners);
        let ghost ev = views(events@);
        let mut handed: Vec<A> = Vec::new();
        let mut j: usize = 0;
        while j < self.subscription_map.len()
            invariant
                j <= self.subscription_map@.len(),
                self@ == old(self)@,
                context_wf(self@),
                sm == self@.subscriptions,
                ev == views(events@),
                m0 == to_map(old(self)@.listeners),
                handed@ == Seq::<A>::empty(),
                forall|k: int| 0 <= k < j ==> (#[trigger] sm[k]).0 != interest@,
            decreases self.subscription_map@.len() - j,
        {
            if self.subscription_map[j].0.same(interest) {
                proof {
                    lemma_to_map_index(sm, j as int);
                }
                let ghost ids = sm[j as int].1;
                assert(ids == subscribers(old(self)@, interest@));
                assert(ids.take(0) =~= Seq::<u128>::empty());
                let mut k: usize = 0;
                while k < self.subscription_map[j].1.len()
                    invariant
                        j < self.subscription_map@.len(),
                        self.subscription_map@[j as int].1@ == ids,
                        k <= ids.len(),
                        context_wf(self@),
                        self@.subscriptions == old(self)@.subscriptions,
                        self@.remotes == old(self)@.remotes,
                        ev == views(events@),
                        to_map(self@.listeners) == deliver(m0, ids.take(k as int), ev).0,
                        handed@ == deliver(m0, ids.take(k as int), ev).1,
                    decreases ids.len() - k,
                {
                    let id = self.subscription_map[j].1[k];
                    assert(ids.take(k + 1).drop_last() =~= ids.take(k as int));
                    assert(ids.take(k + 1).last() == id);
                    let ghost lm = self@.listeners;
                    let mut q: usize = 0;
                    let mut found = false;
                    while q < self.listener_map.len() && !found
                        invariant
                            q <= self.listener_map@.len(),
                            lm == self@.listeners,
                            found ==> q < lm.len() && lm[q as int].0 == id,
                            !found ==> forall|t: int| 0 <= t < q ==> (#[trigger] lm[t]).0 != id,
                        decreases self.listener_map@.len() - q + (if found { 0int } else { 1int }),
                    {
                        if self.listener_map[q].0 == id {
                            found = true;
                        } else {
                            q = q + 1;
                        }
                    }
                    if found {
                        proof {
                            lemma_to_map_index(lm, q as int);
                        }
                        let ghost before = self@;
                        let (lid, conn) = self.listener_map.remove(q);
                        let ConnectionInfo { ac, subscriptions, mut pending, ping_time } = conn;
                        let ghost c = conn@;
                        let new_conn = match ac {
                            Some(a) => {
                                handed.push(a);
                                ConnectionInfo { ac: None, subscriptions, pending, ping_time }
                            },
                            None => {
                                let ghost old_pending = views(pending@);
                                let mut copies = duplicate_events(&events);
                                assert(views(copies@) =~= ev);
                                pending.append(&mut copies);
                                assert(views(pending@) =~= old_pending + ev);
                                ConnectionInfo { ac: None, subscriptions, pending, ping_time }
                            },
                        };
                        let ghost new_model = new_conn@;
                        self.listener_map.insert(q, (lid, new_conn));
                        assert(self@.listeners =~= lm.update(q as int, (id, new_model)));
                        assert(self@.subscriptions == before.subscriptions);
                        assert(self@.remotes =~= before.remotes);
                        proof {
                            lemma_to_map_update(lm, q as int, new_model);
                        }
                    } else {
                        proof {
                            lemma_to_map_absent(lm, id);
                        }
                    }
                    k = k + 1;
                }
                assert(ids.take(ids.len() as int) =~= ids);
                return handed;
            }
            j = j + 1;
        }
        proof {
            lemma_to_map_absent(sm, interest@);
        }
        handed
    }
}

/// A listener last heard from at `c.ping_time` is forgotten at `now`; the
/// time passed is taken by unsigned subtraction, which wraps when the clock
/// reads before `c.ping_time`.
pub open spec fn purge_due<A>(c: ConnModel<A>, now: u128) -> bool {
    elapsed(now, c.ping_time) > PURGE_TIMEOUT
}

/// A listener last heard from at `c.ping_time` is told to listen again at
/// `now`, unless it is forgotten.
pub open spec fn ping_due<A>(c: ConnModel<A>, now: u128) -> bool {
    elapsed(now, c.ping_time) > PING_TIMEOUT
}

/// The listeners of `ls` that are kept at `now`, in order: those told to
/// listen again wait on no connection.
pub open spec fn kept_listeners<A>(ls: Seq<(u128, ConnModel<A>)>, now: u128) -> Seq<(u128, ConnModel<A>)>
    decreases ls.len(),
{
    if ls.len() == 0 {
        Seq::empty()
    } else {
        let prev = kept_listeners(ls.drop_last(), now);
        let (id, c) = ls.last();
        if purge_due(c, now) {
            prev
        } else if ping_due(c, now) {
            prev.push(
                (id, ConnModel { ac: None, subscriptions: c.subscriptions, pending: c.pending, ping_time: c.ping_time }),
            )
        } else {
            prev.push((id, c))
        }
    }
}

/// The connections of the listeners of `ls` that are told to listen again at
/// `now`, in order.
pub open spec fn timed_out_handles<A>(ls: Seq<(u128, ConnModel<A>)>, now: u128) -> Seq<A>
    decreases ls.len(),
{
    if ls.len() == 0 {
        Seq::empty()
    } else {
        let prev = timed_out_handles(ls.drop_last(), now);
        let c = ls.last().1;
        if !purge_due(c, now) && ping_due(c, now) && c.ac is Some {
            prev.push(c.ac->0)
        } else {
            prev
        }
    }
}

/// The listeners of `ls` forgotten at `now`, each with what it was
/// interested in.
pub open spec fn purged_pairs<A>(ls: Seq<(u128, ConnModel<A>)>, now: u128) -> Seq<(u128, Set<InterestModel>)>
    decreases ls.len(),
{
    if ls.len() == 0 {
        Seq::empty()
    } else {
        let prev = purged_pairs(ls.drop_last(), now);
        let (id, c) = ls.last();
        if purge_due(c, now) {
            prev.push((id, c.subscriptions))
        } else {
            prev
        }
    }
}

/// The listener `x` is forgotten and was interested in `interest`.
pub open spec fn removed_by(pairs: Seq<(u128, Set<InterestModel>)>, x: u128, interest: InterestModel) -> bool {
    exists|j: int| 0 <= j < pairs.len() && (#[trigger] pairs[j]).0 == x && pairs[j].1.contains(interest)
}

/// The listeners of each interest once the listeners `pairs` are forgotten:
/// a forgotten listener leaves the interests it was last interested in.
pub open spec fn subscriptions_after_purge(
    subs: Seq<(InterestModel, Seq<u128>)>,
    pairs: Seq<(u128, Set<InterestModel>)>,
) -> Seq<(InterestModel, Seq<u128>)> {
    subs.map_values(
        |p: (InterestModel, Seq<u128>)| (p.0, p.1.filter(|x: u128| !removed_by(pairs, x, p.0))),
    )
}

/// The model of a list of forgotten listeners.
pub open spec fn purged_model(purged: Seq<(u128, Vec<Interest>)>) -> Seq<(u128, Set<InterestModel>)> {
    purged.map_values(|p: (u128, Vec<Interest>)| (p.0, views(p.1@).to_set()))
}

/// Whether the listener `x` is among the forgotten ones and was interested in
/// `interest`.
fn purged_from(purged: &Vec<(u128, Vec<Interest>)>, x: u128, interest: &Interest) -> (r: bool)
    ensures
        r == removed_by(purged_model(purged@), x, interest@),
{
    let ghost pm = purged_model(purged@);
    let mut j: usize = 0;
    while j < purged.len()
        invariant
            j <= purged@.len(),
            pm == purged_model(purged@),
            forall|t: int| 0 <= t < j ==> !((#[trigger] pm[t]).0 == x && pm[t].1.contains(interest@)),
        decreases purged@.len() - j,
    {
        if purged[j].0 == x {
            let subs = &purged[j].1;
            let mut k: usize = 0;
            while k < subs.len()
                invariant
                    k <= subs@.len(),
                    j < purged@.len(),
                    subs@ == purged@[j as int].1@,
                    purged@[j as int].0 == x,
                    pm == purged_model(purged@),
                    forall|t: int| 0 <= t < k ==> (#[trigger] subs@[t])@ != interest@,
                decreases subs@.len() - k,
            {
                if subs[k].same(interest) {
                    assert(views(subs@)[k as int] == interest@);
                    assert(pm[j as int].1.contains(interest@));
                    return true;
                }
                k = k + 1;
            }
            assert(!views(subs@).contains(interest@)) by {
                if views(subs@).contains(interest@) {
                    let t = choose|t: int| 0 <= t < views(subs@).len() && views(subs@)[t] == interest@;
                    assert(subs@[t]@ == interest@);
                }
            }
        }
        j = j + 1;
    }
    false
}

impl<A> ConcordContext<A> {
    /// At `time_now`: forgets the listeners not heard from for too long, and
    /// tells those not heard from for a while to listen again by returning
    /// the connections they wait on, which they give up.
    pub fn get_timed_out_listeners_and_purge_at(&mut self, time_now: u128) -> (handed: Vec<A>)
        requires
            old(self).wf(),
        ensures
            final(self).wf(),
            final(self)@.listeners == kept_listeners(old(self)@.listeners, time_now),
            handed@ == timed_out_handles(old(self)@.listeners, time_now),
            final(self)@.subscriptions == subscriptions_after_purge(
                old(self)@.subscriptions,
                purged_pairs(old(self)@.listeners, time_now),
            ),
            final(self)@.remotes == old(self)@.remotes,
    {
        let ghost orig = old(self)@.listeners;
        let mut rest: Vec<(u128, ConnectionInfo<A>)> = Vec::new();
        std::mem::swap(&mut rest, &mut self.listener_map);
        assert(views(rest@) == orig);
        let mut kept: Vec<(u128, ConnectionInfo<A>)> = Vec::new();
        let mut purged: Vec<(u128, Vec<Interest>)> = Vec::new();
        let mut handed: Vec<A> = Vec::new();
        let ghost mut i: int = 0;
        assert(orig.take(0) =~= Seq::<(u128, ConnModel<A>)>::empty());
        while rest.len() > 0
            invariant
                0 <= i <= orig.len(),
                keys_unique(orig),
                views(rest@) == orig.subrange(i, orig.len() as int),
                views(kept@) == kept_listeners(orig.take(i), time_now),
                keys_unique(views(kept@)),
                forall|a: int| 0 <= a < kept@.len() ==> exists|b: int| 0 <= b < i && #[trigger] kept@[a].0 == orig[b].0,
                handed@ == timed_out_handles(orig.take(i), time_now),
                purged_model(purged@) == purged_pairs(orig.take(i), time_now),
            decreases rest@.len(),
        {
            let ghost kv = views(kept@);
            assert(views(rest@).len() == rest@.len());
            assert(i < orig.len());
            let (id, conn) = rest.remove(0);
            assert(orig.take(i + 1).drop_last() =~= orig.take(i));
            assert(orig.take(i + 1).last() == orig[i]);
            assert(orig[i] == (id, conn@));
            assert forall|a: int| 0 <= a < kv.len() implies #[trigger] kv[a].0 != id by {
                let b = choose|b: int| 0 <= b < i && #[trigger] kept@[a].0 == orig[b].0;
                assert(orig[b].0 != orig[i].0);
            }
            let passed = elapsed_millis(time_now, conn.ping_time);
            if passed > PURGE_TIMEOUT {
                let ghost pm = purged_model(purged@);
                let ConnectionInfo { ac: _, subscriptions, pending: _, ping_time: _ } = conn;
                purged.push((id, subscriptions));
                assert(purged_model(purged@) =~= pm.push((id, conn@.subscriptions)));
            } else if passed > PING_TIMEOUT {
                let ConnectionInfo { ac, subscriptions, pending, ping_time } = conn;
                match ac {
                    Some(a) => {
                        handed.push(a);
                    },
                    None => {},
                }
                let new_conn = ConnectionInfo { ac: None, subscriptions, pending, ping_time };
                let ghost nm = new_conn@;
                kept.push((id, new_conn));
                assert(views(kept@) =~= kv.push((id, nm)));
                proof {
                    lemma_to_map_push(kv, id, nm);
                }
            } else {
                let ghost cm = conn@;
                kept.push((id, conn));
                assert(views(kept@) =~= kv.push((id, cm)));
                proof {
                    lemma_to_map_push(kv, id, cm);
                }
            }
            assert forall|a: int| 0 <= a < kept@.len() implies exists|b: int| 0 <= b < i + 1 && #[trigger] kept@[a].0 == orig[b].0 by {
                if a < kv.len() {
                    let b = choose|b: int| 0 <= b < i && #[trigger] kept@[a].0 == orig[b].0;
                    assert(kept@[a].0 == kv[a].0);
                } else {
                    assert(kept@[a].0 == orig[i].0);
                }
            }
            proof {
                i = i + 1;
            }
            assert(views(rest@) =~= orig.subrange(i, orig.len() as int));
        }
        assert(orig.take(i) =~= orig);
        self.listener_map = kept;
        let ghost pairs = purged_model(purged@);
        let ghost sm = old(self)@.subscriptions;
        assert(self@.subscriptions == sm);
        let mut j: usize = 0;
        while j < self.subscription_map.len()
            invariant
                j <= self.subscription_map@.len(),
                self.subscription_map@.len() == sm.len(),
                context_wf(old(self)@),
                pairs == purged_model(purged@),
                self@.listeners == kept_listeners(orig, time_now),
                keys_unique(self@.listeners),
                self@.remotes == old(self)@.remotes,
                sm == old(self)@.subscriptions,
                forall|t: int| 0 <= t < j ==> #[trigger] self@.subscriptions[t] == subscriptions_after_purge(sm, pairs)[t],
                forall|t: int| j <= t < sm.len() ==> #[trigger] self@.subscriptions[t] == sm[t],
                forall|t: int| 0 <= t < j ==> (#[trigger] self@.subscriptions[t]).1.no_duplicates(),
            decreases self.subscription_map@.len() - j,
        {
            let ghost before = self@.subscriptions;
            let (interest, ids) = self.subscription_map.remove(j);
            assert(before[j as int] == sm[j as int]);
            assert((interest@, ids@) == sm[j as int]);
            let ghost pred = |x: u128| !removed_by(pairs, x, interest@);
            let mut new_ids: Vec<u128> = Vec::new();
            let mut k: usize = 0;
            assert(ids@.take(0) =~= Seq::<u128>::empty());
            proof {
                reveal(Seq::filter);
            }
            while k < ids.len()
                invariant
                    k <= ids@.len(),
                    ids@.no_duplicates(),
                    pairs == purged_model(purged@),
                    pred == (|x: u128| !removed_by(pairs, x, interest@)),
                    new_ids@ == ids@.take(k as int).filter(pred),
                    new_ids@.no_duplicates(),
                    forall|a: int| 0 <= a < new_ids@.len() ==> exists|b: int| 0 <= b < k && #[trigger] new_ids@[a] == ids@[b],
                decreases ids@.len() - k,
            {
                let x = ids[k];
                assert(ids@.take(k + 1).drop_last() =~= ids@.take(k as int));
                assert(ids@.take(k + 1).last() == x);
                proof {
                    reveal(Seq::filter);
                }
                let ghost old_new = new_ids@;
                if !purged_from(&purged, x, &interest) {
                    assert forall|a: int| 0 <= a < old_new.len() implies #[trigger] old_new[a] != x by {
                        let b = choose|b: int| 0 <= b < k && #[trigger] new_ids@[a] == ids@[b];
                        assert(ids@[b] != ids@[k as int]);
                    }
                    new_ids.push(x);
                    assert forall|a: int| 0 <= a < new_ids@.len() implies exists|b: int| 0 <= b < k + 1 && #[trigger] new_ids@[a] == ids@[b] by {
                        if a < old_new.len() {
                            let b = choose|b: int| 0 <= b < k && #[trigger] old_new[a] == ids@[b];
                            assert(new_ids@[a] == old_new[a]);
                        } else {
                            assert(new_ids@[a] == ids@[k as int]);
                        }
                    }
                }
                k = k + 1;
            }
            assert(ids@.take(ids@.len() as int) =~= ids@);
            let ghost filtered = new_ids@;
            self.subscription_map.insert(j, (interest, new_ids));
            assert(self@.subscriptions =~= before.update(j as int, (interest@, filtered)));
            assert(subscriptions_after_purge(sm, pairs)[j as int] == (interest@, filtered));
            j = j + 1;
        }
        assert(self@.subscriptions =~= subscriptions_after_purge(sm, pairs));
        assert(context_wf(self@)) by {
            assert forall|a: int, b: int| 0 <= a < b < self@.subscriptions.len() implies #[trigger] self@.subscriptions[a].0
                != #[trigger] self@.subscriptions[b].0 by {
                assert(self@.subscriptions[a].0 == sm[a].0);
                assert(self@.subscriptions[b].0 == sm[b].0);
            }
        }
        handed
    }
}

impl<A> ConcordContext<A> {
    /// Sets what the listener `listener_id` listens to, as heard from now;
    /// see [`ConcordContext::set_listener_interest_at`]. Fails, changing
    /// nothing, when the clock is set before the Unix epoch.
    pub fn set_listener_interest(
        &mut self,
        user_pubkey: [u8; 32],
        listener_id: u128,
        ac: Option<A>,
        interest_list: Vec<Interest>,
    ) -> (res: Result<(Option<A>, Vec<Event>, Vec<Interest>, Vec<Interest>), Error>)
        requires
            old(self).wf(),
        ensures
            final(self).wf(),
            match res {
                Ok(r) => exists|t: u128|
                    interest_set(
                        old(self)@,
                        final(self)@,
                        user_pubkey@,
                        listener_id,
                        ac,
                        views(interest_list@),
                        t,
                        (r.0, views(r.1@), views(r.2@), views(r.3@)),
                    ),
                Err(e) => final(self)@ == old(self)@ && e.inner is SystemTimeError,
            },
    {
        match now_millis() {
            None => Err(Error { inner: ErrorKind::SystemTimeError("clock is set before the Unix epoch".to_owned()) }),
            Some(t) => {
                let ghost list = views(interest_list@);
                let r = self.set_listener_interest_at(user_pubkey, listener_id, ac, interest_list, t);
                assert(interest_set(
                    old(self)@,
                    self@,
                    user_pubkey@,
                    listener_id,
                    ac,
                    list,
                    t,
                    (r.0, views(r.1@), views(r.2@), views(r.3@)),
                ));
                let res: Result<(Option<A>, Vec<Event>, Vec<Interest>, Vec<Interest>), Error> = Ok(r);
                assert(res is Ok);
                assert(res->Ok_0 == r);
                res
            },
        }
    }

    /// Forgets the listeners not heard from for too long and tells those not
    /// heard from for a while to listen again, as of now; see
    /// [`ConcordContext::get_timed_out_listeners_and_purge_at`]. Fails,
    /// changing nothing, when the clock is set before the Unix epoch.
    pub fn get_timed_out_listeners_and_purge(&mut self) -> (res: Result<Vec<A>, Error>)
        requires
            old(self).wf(),
        ensures
            final(self).wf(),
            match res {
                Ok(handed) => exists|t: u128|
                    {
                        &&& final(self)@.listeners == kept_listeners(old(self)@.listeners, t)
                        &&& handed@ == timed_out_handles(old(self)@.listeners, t)
                        &&& final(self)@.subscriptions == subscriptions_after_purge(
                            old(self)@.subscriptions,
                            purged_pairs(old(self)@.listeners, t),
                        )
                        &&& final(self)@.remotes == old(self)@.remotes
                    },
                Err(e) => final(self)@ == old(self)@ && e.inner is SystemTimeError,
            },
    {
        let t = match now_millis() {
            None => {
                return Err(Error { inner: ErrorKind::SystemTimeError("clock is set before the Unix epoch".to_owned()) });
            },
            Some(t) => t,
        };
        let handed = self.get_timed_out_listeners_and_purge_at(t);
        assert(final(self)@.listeners == kept_listeners(old(self)@.listeners, t));
        Ok(handed)
    }
}

/// The line of a remote listen request for one interest.
pub open spec fn remote_line(i: InterestModel) -> Seq<char> {
    "server_pubkey="@ + percent_encode(encode_utf8(base64_text(i.0))) + "&server_id="@ + percent_encode(
        encode_utf8(base64_text(i.1)),
    ) + "&channel_id="@ + decimal(
        match i.2 {
            Some(c) => c as nat,
            None => 0,
        },
    ) + "&seqno="@ + decimal(0)
}

/// The body of a remote listen request: one line per interest, separated by
/// `"\r\n"`.
pub open spec fn remote_post_data_spec(list: Seq<InterestModel>) -> Seq<char>
    decreases list.len(),
{
    if list.len() == 0 {
        Seq::empty()
    } else if list.len() == 1 {
        remote_line(list[0])
    } else {
        remote_post_data_spec(list.drop_last()) + "\r\n"@ + remote_line(list.last())
    }
}

/// The body of the request that listens to a remote server for `interests`.
/// Read back as an interest list, it gives the same interests without their
/// channels.
pub fn remote_post_data(interests: &Vec<Interest>) -> (s: String)
    ensures
        s@ == remote_post_data_spec(views(interests@)),
        spec_interest_list(split_crlf(s@)) == Ok::<Seq<InterestModel>, InterestFailure>(
            without_channels(views(interests@)),
        ),
{
    let ghost list = views(interests@);
    let mut s = String::new();
    let mut i: usize = 0;
    while i < interests.len()
        invariant
            i <= interests@.len(),
            list == views(interests@),
            s@ == remote_post_data_spec(list.take(i as int)),
            (s@.len() > 0) == (i > 0),
            remote_interests_read_back(list.take(i as int)),
        decreases interests@.len() - i,
    {
        let interest = interests[i];
        let pk_text = b64_encode(interest.server_pubkey.as_slice());
        let pk = url_encode(pk_text.as_str());
        let id_text = b64_encode(interest.server_id.as_slice());
        let id = url_encode(id_text.as_str());
        assert(id_text_reads_back(list[i as int].0));
        assert(id_text_reads_back(list[i as int].1));
        assert(remote_interests_read_back(list.take(i + 1))) by {
            assert forall|k: int| 0 <= k < i + 1 implies #[trigger] list.take(i + 1)[k] == list[k] by {}
            assert forall|k: int| 0 <= k < i implies #[trigger] list.take(i as int)[k] == list[k] by {}
        }
        let channel = match interest.channel_id {
            Some(c) => c,
            None => 0,
        };
        let mut line = "server_pubkey=".to_owned();
        line.append(pk.as_str());
        line.append("&server_id=");
        line.append(id.as_str());
        line.append("&channel_id=");
        line.append(u128_to_decimal(channel as u128).as_str());
        line.append("&seqno=");
        line.append(u128_to_decimal(0).as_str());
        assert(line@ == remote_line(list[i as int]));
        assert(list.take(i + 1).drop_last() =~= list.take(i as int));
        proof {
            reveal_strlit("server_pubkey=");
        }
        if s.as_str().unicode_len() > 0 {
            s.append("\r\n");
            s.append(line.as_str());
        } else {
            assert(list.take(i as int).len() == 0);
            s = line;
        }
        i = i + 1;
    }
    assert(list.take(list.len() as int) =~= list);
    proof {
        lemma_remote_post_data_reads_back(list);
    }
    s
}

/// The address a remote server is listened to at, with the listener's
/// number.
pub fn listen_url(onion: &str, listener_id: u128) -> (s: String)
    ensures
        s@ == "http://"@ + onion@ + ".onion/listen?listener_id="@ + decimal(listener_id as nat),
{
    let mut s = "http://".to_owned();
    s.append(onion);
    s.append(".onion/listen?listener_id=");
    s.append(u128_to_decimal(listener_id).as_str());
    s
}

/// Delivering to listeners other than `id` leaves `id` as it was.
proof fn lemma_deliver_other<A>(m: Map<u128, ConnModel<A>>, ids: Seq<u128>, events: Seq<EventModel>, id: u128)
    requires
        !ids.contains(id),
    ensures
        deliver(m, ids, events).0.contains_key(id) == m.contains_key(id),
        m.contains_key(id) ==> deliver(m, ids, events).0[id] == m[id],
    decreases ids.len(),
{
    if ids.len() > 0 {
        assert(!ids.drop_last().contains(id)) by {
            if ids.drop_last().contains(id) {
                let k = choose|k: int| 0 <= k < ids.drop_last().len() && ids.drop_last()[k] == id;
                assert(ids[k] == id);
            }
        }
        assert(ids.last() != id) by {
            assert(ids[ids.len() - 1] == ids.last());
        }
        lemma_deliver_other(m, ids.drop_last(), events, id);
    }
}

/// A listener among `ids`, once, that waits on no connection keeps the
/// events delivered to it, after those already waiting.
proof fn lemma_deliver_waiting<A>(m: Map<u128, ConnModel<A>>, ids: Seq<u128>, events: Seq<EventModel>, id: u128)
    requires
        ids.no_duplicates(),
        ids.contains(id),
        m.contains_key(id),
        m[id].ac is None,
    ensures
        deliver(m, ids, events).0.contains_key(id),
        deliver(m, ids, events).0[id].ac is None,
        deliver(m, ids, events).0[id].pending == m[id].pending + events,
    decreases ids.len(),
{
    let prev = ids.drop_last();
    if ids.last() == id {
        assert(!prev.contains(id)) by {
            if prev.contains(id) {
                let k = choose|k: int| 0 <= k < prev.len() && prev[k] == id;
                assert(ids[k] == ids[ids.len() - 1]);
            }
        }
        lemma_deliver_other(m, prev, events, id);
    } else {
        assert(prev.contains(id)) by {
            let k = choose|k: int| 0 <= k < ids.len() && ids[k] == id;
            assert(k != ids.len() - 1);
            assert(prev[k] == id);
        }
        assert(prev.no_duplicates()) by {
            assert forall|a: int, b: int| 0 <= a < prev.len() && 0 <= b < prev.len() && a != b implies prev[a] != prev[b] by {
                assert(prev[a] == ids[a]);
                assert(prev[b] == ids[b]);
            }
        }
        lemma_deliver_waiting(m, prev, events, id);
    }
}

/// Events for an interest, delivered to a listener of that interest that
/// waits on no connection, are handed to that listener the next time it
/// listens, after the events that were already waiting for it.
pub proof fn lemma_delivered_events_returned<A>(
    m: ContextModel<A>,
    m1: ContextModel<A>,
    m2: ContextModel<A>,
    interest: InterestModel,
    events: Seq<EventModel>,
    id: u128,
    user: Seq<u8>,
    ac: Option<A>,
    list: Seq<InterestModel>,
    t: u128,
    res: (Option<A>, Seq<EventModel>, Seq<InterestModel>, Seq<InterestModel>),
)
    requires
        context_wf(m),
        to_map(m.listeners).contains_key(id),
        to_map(m.listeners)[id].ac is None,
        subscribers(m, interest).contains(id),
        to_map(m1.listeners) == deliver(to_map(m.listeners), subscribers(m, interest), events).0,
        interest_set(m1, m2, user, id, ac, list, t, res),
    ensures
        res.1 == to_map(m.listeners)[id].pending + events,
{
    let subs = to_map(m.subscriptions);
    assert(subs.contains_key(interest));
    lemma_to_map_dom(m.subscriptions, interest);
    let j = choose|j: int| 0 <= j < m.subscriptions.len() && #[trigger] m.subscriptions[j].0 == interest;
    lemma_to_map_index(m.subscriptions, j);
    assert(subscribers(m, interest).no_duplicates());
    lemma_deliver_waiting(to_map(m.listeners), subscribers(m, interest), events, id);
}

/// After listeners are forgotten and told to listen again, none of the
/// listeners kept is due to be forgotten, and none due to be told to listen
/// again waits on a connection.
pub proof fn lemma_purge_leaves_fresh_listeners<A>(ls: Seq<(u128, ConnModel<A>)>, now: u128)
    ensures
        forall|j: int|
            0 <= j < kept_listeners(ls, now).len() ==> !purge_due(#[trigger] kept_listeners(ls, now)[j].1, now) && (
            ping_due(kept_listeners(ls, now)[j].1, now) ==> kept_listeners(ls, now)[j].1.ac is None),
    decreases ls.len(),
{
    if ls.len() > 0 {
        lemma_purge_leaves_fresh_listeners(ls.drop_last(), now);
        let prev = kept_listeners(ls.drop_last(), now);
        let k = kept_listeners(ls, now);
        assert forall|j: int| 0 <= j < k.len() implies !purge_due(#[trigger] k[j].1, now) && (ping_due(k[j].1, now)
            ==> k[j].1.ac is None) by {
            if j < prev.len() {
                assert(k[j] == prev[j]);
            }
        }
    }
}

/// Once a listener subscribes to a list of interests, it is among the
/// listeners of each of them.
pub proof fn lemma_subscribed_to_all(m: Map<InterestModel, Seq<u128>>, id: u128, list: Seq<InterestModel>)
    ensures
        forall|k: int|
            0 <= k < list.len() ==> subscribe_all(m, id, list).contains_key(#[trigger] list[k])
                && subscribe_all(m, id, list)[list[k]].contains(id),
    decreases list.len(),
{
    if list.len() > 0 {
        lemma_subscribed_to_all(m, id, list.drop_last());
        let prev = subscribe_all(m, id, list.drop_last());
        let i = list.last();
        let base = if prev.contains_key(i) {
            prev[i]
        } else {
            Seq::empty()
        };
        assert(add_id(base, id).contains(id)) by {
            if !base.contains(id) {
                assert(base.push(id)[base.len() as int] == id);
            }
        }
        assert forall|k: int| 0 <= k < list.len() implies subscribe_all(m, id, list).contains_key(#[trigger] list[k])
            && subscribe_all(m, id, list)[list[k]].contains(id) by {
            if k < list.len() - 1 {
                assert(list.drop_last()[k] == list[k]);
                if list[k] != i {
                    let ids = prev[list[k]];
                    assert(ids.contains(id));
                } else {
                }
            }
        }
    }
}

/// Subscribing `id` to the interests of `list` leaves every other interest
/// as it was.
pub proof fn lemma_subscribe_all_others(m: Map<InterestModel, Seq<u128>>, id: u128, list: Seq<InterestModel>, k: InterestModel)
    requires
        !list.contains(k),
    ensures
        subscribe_all(m, id, list).contains_key(k) == m.contains_key(k),
        m.contains_key(k) ==> subscribe_all(m, id, list)[k] == m[k],
    decreases list.len(),
{
    if list.len() > 0 {
        assert(!list.drop_last().contains(k)) by {
            if list.drop_last().contains(k) {
                let t = choose|t: int| 0 <= t < list.drop_last().len() && list.drop_last()[t] == k;
                assert(list[t] == k);
            }
        }
        assert(list.last() != k) by {
            assert(list[list.len() - 1] == list.last());
        }
        lemma_subscribe_all_others(m, id, list.drop_last(), k);
    }
}

/// Once a listener sets its interests to `list`, it is listed under an
/// interest exactly when that interest is in `list`: it has left those it
/// dropped and joined those it named.
pub proof fn lemma_listed_exactly_under_list(
    subs: Seq<(InterestModel, Seq<u128>)>,
    id: u128,
    list: Seq<InterestModel>,
    k: InterestModel,
)
    ensures
        subscribe_all(to_map(drop_listener(subs, id)), id, list).contains_key(k) ==> (subscribe_all(
            to_map(drop_listener(subs, id)),
            id,
            list,
        )[k].contains(id) <==> list.contains(k)),
{
    let m = to_map(drop_listener(subs, id));
    lemma_drop_listener(subs, id);
    if list.contains(k) {
        lemma_subscribed_to_all(m, id, list);
        let t = choose|t: int| 0 <= t < list.len() && list[t] == k;
        assert(subscribe_all(m, id, list)[list[t]].contains(id));
    } else {
        lemma_subscribe_all_others(m, id, list, k);
        if m.contains_key(k) {
            assert(to_map(subs).contains_key(k));
            lemma_without_id(to_map(subs)[k], id);
        }
    }
}

impl<A> ConcordContext<A> {
    /// Takes in the interest list that the listener `listener_id` sent,
    /// heard from now for the user `user_pubkey` and waiting on `ac`; see
    /// [`parse_interest_list`] and
    /// [`ConcordContext::set_listener_interest`]. A list that is refused
    /// changes nothing.
    pub fn process_subscriptions(
        &mut self,
        content: &str,
        listener_id: u128,
        user_pubkey: [u8; 32],
        ac: Option<A>,
    ) -> (res: Result<(Option<A>, Vec<Event>, Vec<Interest>, Vec<Interest>), Error>)
        requires
            old(self).wf(),
        ensures
            final(self).wf(),
            match spec_interest_list(split_crlf(content@)) {
                Err(f) => res matches Err(e) && interest_failure_kind(f, e.inner) && final(self)@ == old(self)@,
                Ok(list) => match res {
                    Ok(r) => exists|t: u128|
                        interest_set(
                            old(self)@,
                            final(self)@,
                            user_pubkey@,
                            listener_id,
                            ac,
                            list,
                            t,
                            (r.0, views(r.1@), views(r.2@), views(r.3@)),
                        ),
                    Err(e) => final(self)@ == old(self)@ && e.inner is SystemTimeError,
                },
            },
    {
        let interest_list = parse_interest_list(content)?;
        self.set_listener_interest(user_pubkey, listener_id, ac, interest_list)
    }
}

} // verus!
