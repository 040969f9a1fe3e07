//! The clients of a graphics device: the open files through which processes
//! use it, each known by the id that the kernel gives it.

use crate::text::{
    bounded_of, parse_bounded, second_word, second_word_of, starts_with, str_eq, str_starts_with,
};
use vstd::prelude::*;

verus! {

/// The key of the line that holds the id of a client.
pub const CLIENT_ID_KEY: &'static str = "drm-client-id";

/// The key of the line that holds the time that the render engine has spent
/// on a client, in nanoseconds.
pub const RENDER_ENGINE_KEY: &'static str = "drm-engine-render";

/// The key of the line that holds the time that the video engine has spent on
/// a client, in nanoseconds.
pub const VIDEO_ENGINE_KEY: &'static str = "drm-engine-video";

/// What a line of a client's description says of `key`: nothing where the
/// line does not start with the key; else the number that is the second word
/// of the line, or none where there is no second word or it is no number up
/// to `max`.
pub open spec fn spec_line_value(line: Seq<char>, key: Seq<char>, max: nat) -> Option<Option<nat>> {
    if starts_with(line, key) {
        Some(
            match second_word(line) {
                Some(w) => bounded_of(w, max),
                None => None,
            },
        )
    } else {
        None
    }
}

/// The number that a line of a client's description holds for `key`.
pub fn line_value(line: &str, key: &str, max: u64) -> (r: Option<Option<u64>>)
    ensures
        match r {
            None => spec_line_value(line@, key@, max as nat).is_none(),
            Some(None) => spec_line_value(line@, key@, max as nat) == Some(None::<nat>),
            Some(Some(n)) => spec_line_value(line@, key@, max as nat) == Some(Some(n as nat)),
        },
{
    if !str_starts_with(line, key) {
        return None;
    }
    match second_word_of(line) {
        Some(w) => Some(parse_bounded(w.as_str(), max)),
        None => Some(None),
    }
}

/// Whether a file that a process has open is a node of a managed device: its
/// name is one of `devnames`.
pub fn should_manage(devnames: &Vec<String>, file_name: &str) -> (r: bool)
    ensures
        r == exists|i: int| 0 <= i < devnames@.len() && (#[trigger] devnames@[i])@ == file_name@,
{
    let mut i: usize = 0;
    while i < devnames.len()
        invariant
            i <= devnames.len(),
            forall|k: int| 0 <= k < i ==> (#[trigger] devnames@[k])@ != file_name@,
        decreases devnames.len() - i,
    {
        if str_eq(devnames[i].as_str(), file_name) {
            return true;
        }
        i += 1;
    }
    false
}

/// One client, with what the caller keeps for it.
pub struct DrmClient<R> {
    pub id: u32,
    pub last_seen: u64,
    pub reader: R,
}

/// The clients that were seen, and the count of the rounds of looking.
pub struct ClientManager<R> {
    pub clients: Vec<DrmClient<R>>,
    pub current_tick: u64,
}

/// Whether a client with the id `id` is among `clients`.
pub open spec fn has_client<R>(clients: Seq<DrmClient<R>>, id: u32) -> bool {
    exists|i: int| 0 <= i < clients.len() && clients[i].id == id
}

/// The clients among `clients` that were seen in the round `tick`, in their
/// order.
pub open spec fn seen_in<R>(clients: Seq<DrmClient<R>>, tick: u64) -> Seq<DrmClient<R>>
    decreases clients.len(),
{
    if clients.len() == 0 {
        Seq::empty()
    } else if clients.last().last_seen == tick {
        seen_in(clients.drop_last(), tick).push(clients.last())
    } else {
        seen_in(clients.drop_last(), tick)
    }
}

impl<R> ClientManager<R> {
    /// No id occurs twice.
    pub open spec fn wf(self) -> bool {
        forall|i: int, j: int|
            0 <= i < j < self.clients.len() ==> self.clients[i].id != self.clients[j].id
    }

    /// Whether no id occurs twice.
    pub fn has_distinct_ids(&self) -> (r: bool)
        ensures
            r == self.wf(),
    {
        let n = self.clients.len();
        let mut j: usize = 0;
        while j < n
            invariant
                n == self.clients.len(),
                j <= n,
                forall|a: int, b: int| 0 <= a < b < j ==> self.clients[a].id != self.clients[b].id,
            decreases n - j,
        {
            let mut i: usize = 0;
            while i < j
                invariant
                    n == self.clients.len(),
                    i <= j < n,
                    forall|a: int| 0 <= a < i ==> self.clients[a].id != self.clients[j as int].id,
                decreases j - i,
            {
                if self.clients[i].id == self.clients[j].id {
                    return false;
                }
                i += 1;
            }
            j += 1;
        }
        true
    }

    /// A manager without clients, before the first round.
    pub fn new() -> (r: ClientManager<R>)
        ensures
            r.wf(),
            r.clients@.len() == 0,
            r.current_tick == 0,
    {
        ClientManager { clients: Vec::new(), current_tick: 0 }
    }

    /// Starts a round of looking for clients.
    pub fn begin_update(&mut self)
        requires
            old(self).current_tick < u64::MAX,
        ensures
            final(self).current_tick == old(self).current_tick + 1,
            final(self).clients == old(self).clients,
    {
        self.current_tick += 1;
    }

    /// Notes that the client `id` was seen in this round: a client that is
    /// known is marked, and `reader` is let go; one that is new is added
    /// behind the others, with `reader`. The other clients stay as they are.
    pub fn mark_or_insert_client(&mut self, id: u32, reader: R)
        requires
            old(self).wf(),
        ensures
            final(self).wf(),
            final(self).current_tick == old(self).current_tick,
            has_client(old(self).clients@, id) ==> final(self).clients@.len() == old(
                self,
            ).clients@.len() && forall|i: int|
                0 <= i < old(self).clients@.len() ==> (#[trigger] final(self).clients@[i]).id == old(
                    self,
                ).clients@[i].id && final(self).clients@[i].reader == old(self).clients@[i].reader
                    && final(self).clients@[i].last_seen == (if old(self).clients@[i].id == id {
                    old(self).current_tick
                } else {
                    old(self).clients@[i].last_seen
                }),
            !has_client(old(self).clients@, id) ==> final(self).clients@ == old(self).clients@.push(
                DrmClient { id, last_seen: old(self).current_tick, reader },
            ),
    {
        let mut i: usize = 0;
        while i < self.clients.len()
            invariant
                i <= self.clients.len(),
                *self == *old(self),
                old(self).wf(),
                forall|k: int| 0 <= k < i ==> self.clients@[k].id != id,
            decreases self.clients.len() - i,
        {
            if self.clients[i].id == id {
                let tick = self.current_tick;
                let ghost before = self.clients@;
                self.clients[i].last_seen = tick;
                assert(has_client(before, id));
                assert forall|k: int| 0 <= k < before.len() implies (#[trigger] self.clients@[k]).id
                    == before[k].id && self.clients@[k].reader == before[k].reader
                    && self.clients@[k].last_seen == (if before[k].id == id {
                    tick
                } else {
                    before[k].last_seen
                }) by {
                    if k != i {
                        assert(self.clients@[k] == before[k]);
                    }
                }
                return ;
            }
            i += 1;
        }
        let tick = self.current_tick;
        self.clients.push(DrmClient { id, last_seen: tick, reader });
    }

    /// Ends a round: the clients that were not seen in it are let go, and
    /// the others stay in their order.
    pub fn retain_seen(&mut self)
        requires
            old(self).wf(),
        ensures
            final(self).wf(),
            final(self).current_tick == old(self).current_tick,
            final(self).clients@ == seen_in(old(self).clients@, old(self).current_tick),
    {
        let tick = self.current_tick;
        let mut kept: Vec<DrmClient<R>> = Vec::new();
        let ghost all = self.clients@;
        assert(seen_in(all, tick) + kept@.reverse() =~= seen_in(all, tick));
        while self.clients.len() > 0
            invariant
                self.current_tick == tick,
                seen_in(all, tick) == seen_in(self.clients@, tick) + kept@.reverse(),
            decreases self.clients.len(),
        {
            let ghost before = self.clients@;
            let ghost before_kept = kept@;
            let c = self.clients.pop().unwrap();
            assert(before.drop_last() =~= self.clients@);
            if c.last_seen == tick {
                kept.push(c);
                assert(kept@.reverse() =~= seq![c] + before_kept.reverse());
                assert(seen_in(self.clients@, tick).push(c) + before_kept.reverse() =~= seen_in(
                    self.clients@,
                    tick,
                ) + (seq![c] + before_kept.reverse()));
            }
        }
        let ghost popped = kept@;
        assert(Seq::<DrmClient<R>>::empty() + popped.reverse() =~= popped.reverse());
        let mut out: Vec<DrmClient<R>> = Vec::new();
        while kept.len() > 0
            invariant
                out@ + kept@.reverse() == popped.reverse(),
            decreases kept.len(),
        {
            let ghost before_kept = kept@;
            let ghost before_out = out@;
            let c = kept.pop().unwrap();
            out.push(c);
            assert(before_kept.reverse() =~= seq![c] + kept@.reverse());
            assert(out@ + kept@.reverse() =~= before_out + before_kept.reverse());
        }
        assert(out@ + kept@.reverse() =~= out@);
        self.clients = out;
        proof {
            lemma_seen_from(all, tick);
            lemma_seen_distinct(all, tick);
        }
    }
}

/// A client that was seen is one of the clients.
proof fn lemma_seen_from<R>(all: Seq<DrmClient<R>>, tick: u64)
    ensures
        forall|i: int|
            0 <= i < seen_in(all, tick).len() ==> exists|k: int|
                0 <= k < all.len() && all[k] == #[trigger] seen_in(all, tick)[i],
    decreases all.len(),
{
    if all.len() > 0 {
        let front = all.drop_last();
        lemma_seen_from(front, tick);
        let f = seen_in(front, tick);
        assert forall|i: int| 0 <= i < seen_in(all, tick).len() implies exists|k: int|
            0 <= k < all.len() && all[k] == #[trigger] seen_in(all, tick)[i] by {
            if i < f.len() {
                let k = choose|k: int| 0 <= k < front.len() && front[k] == f[i];
                assert(all[k] == front[k]);
            } else {
                assert(all[all.len() - 1] == seen_in(all, tick)[i]);
            }
        }
    }
}

proof fn lemma_seen_distinct<R>(all: Seq<DrmClient<R>>, tick: u64)
    requires
        forall|i: int, j: int| 0 <= i < j < all.len() ==> all[i].id != all[j].id,
    ensures
        forall|i: int, j: int|
            0 <= i < j < seen_in(all, tick).len() ==> seen_in(all, tick)[i].id != seen_in(
                all,
                tick,
            )[j].id,
    decreases all.len(),
{
    if all.len() > 0 {
        let front = all.drop_last();
        lemma_seen_distinct(front, tick);
        lemma_seen_from(front, tick);
        let f = seen_in(front, tick);
        if all.last().last_seen == tick {
            assert forall|i: int| 0 <= i < f.len() implies f[i].id != all.last().id by {
                let k = choose|k: int| 0 <= k < front.len() && front[k] == f[i];
                assert(all[k] == front[k]);
            }
        }
    }
}

} // verus!
