//! The session registry: a process-wide mapping from guild to the handle of
//! its currently playing track.
//!
//! The registry keeps at most one entry per guild. Recording a playback for a
//! guild that already has one silently replaces the prior handle; nothing else
//! ever removes an entry. Concurrently running command tasks share one
//! registry behind a lock held only for the duration of a single operation,
//! so each operation here is specified as one atomic step on the mapping.

use vstd::prelude::*;

verus! {

use crate::GuildId;
use crate::PlaybackId;

/// The mapping denoted by an entry list; a later entry overrides an earlier
/// one with the same key (the invariant below rules duplicates out anyway).
pub open spec fn as_map(s: Seq<(GuildId, PlaybackId)>) -> Map<GuildId, PlaybackId>
    decreases s.len(),
{
    if s.len() == 0 {
        Map::empty()
    } else {
        as_map(s.drop_last()).insert(s.last().0, s.last().1)
    }
}

/// Some entry of `s` carries the key `k`.
pub open spec fn has_key(s: Seq<(GuildId, PlaybackId)>, k: GuildId) -> bool {
    exists|j: int| 0 <= j < s.len() && (#[trigger] s[j]).0 == k
}

/// No two entries of `s` carry the same key: each guild is listed at most
/// once.
pub open spec fn unique_keys(s: Seq<(GuildId, PlaybackId)>) -> bool {
    forall|i: int, j: int|
        0 <= i < j < s.len() ==> (#[trigger] s[i]).0 != (#[trigger] s[j]).0
}

proof fn lemma_unique_drop_last(s: Seq<(GuildId, PlaybackId)>)
    requires
        unique_keys(s),
        s.len() > 0,
    ensures
        unique_keys(s.drop_last()),
{
    assert forall|i: int, j: int|
        0 <= i < j < s.drop_last().len() implies (#[trigger] s.drop_last()[i]).0 != (
    #[trigger] s.drop_last()[j]).0 by {
        assert(s.drop_last()[i] == s[i]);
        assert(s.drop_last()[j] == s[j]);
    }
}

proof fn lemma_as_map_contains(s: Seq<(GuildId, PlaybackId)>, k: GuildId)
    ensures
        as_map(s).contains_key(k) <==> has_key(s, k),
    decreases s.len(),
{
    if s.len() > 0 {
        lemma_as_map_contains(s.drop_last(), k);
        if s.last().0 == k {
            assert((s[s.len() - 1]).0 == k);
        }
        if has_key(s.drop_last(), k) {
            let j = choose|j: int|
                0 <= j < s.drop_last().len() && (#[trigger] s.drop_last()[j]).0 == k;
            assert(s[j] == s.drop_last()[j]);
        }
        if has_key(s, k) && s.last().0 != k {
            let j = choose|j: int| 0 <= j < s.len() && (#[trigger] s[j]).0 == k;
            assert(s.drop_last()[j] == s[j]);
        }
    }
}

proof fn lemma_as_map_value(s: Seq<(GuildId, PlaybackId)>, j: int)
    requires
        unique_keys(s),
        0 <= j < s.len(),
    ensures
        as_map(s).contains_key(s[j].0),
        as_map(s)[s[j].0] == s[j].1,
    decreases s.len(),
{
    if j < s.len() - 1 {
        lemma_unique_drop_last(s);
        assert(s.drop_last()[j] == s[j]);
        lemma_as_map_value(s.drop_last(), j);
        assert(s[j].0 != s.last().0);
    }
}

proof fn lemma_as_map_remove(s: Seq<(GuildId, PlaybackId)>, j: int)
    requires
        unique_keys(s),
        0 <= j < s.len(),
    ensures
        as_map(s.remove(j)) == as_map(s).remove(s[j].0),
    decreases s.len(),
{
    lemma_unique_drop_last(s);
    if j == s.len() - 1 {
        assert(s.remove(j) =~= s.drop_last());
        lemma_as_map_contains(s.drop_last(), s[j].0);
        if has_key(s.drop_last(), s[j].0) {
            let i = choose|i: int|
                0 <= i < s.drop_last().len() && (#[trigger] s.drop_last()[i]).0 == s[j].0;
            assert(s[i] == s.drop_last()[i]);
            assert(false);
        }
        assert(as_map(s.drop_last()) =~= as_map(s).remove(s[j].0));
    } else {
        assert(s.remove(j).drop_last() =~= s.drop_last().remove(j));
        assert(s.remove(j).last() == s.last());
        assert(s.drop_last()[j] == s[j]);
        lemma_as_map_remove(s.drop_last(), j);
        assert(s[j].0 != s.last().0);
        assert(as_map(s.remove(j)) == as_map(s.drop_last()).remove(s[j].0).insert(
            s.last().0,
            s.last().1,
        ));
        assert(as_map(s.drop_last()).remove(s[j].0).insert(s.last().0, s.last().1)
            =~= as_map(s.drop_last()).insert(s.last().0, s.last().1).remove(s[j].0));
    }
}

proof fn lemma_unique_remove(s: Seq<(GuildId, PlaybackId)>, j: int)
    requires
        unique_keys(s),
        0 <= j < s.len(),
    ensures
        unique_keys(s.remove(j)),
        !has_key(s.remove(j), s[j].0),
{
    let t = s.remove(j);
    assert forall|a: int, b: int|
        0 <= a < b < t.len() implies (#[trigger] t[a]).0 != (#[trigger] t[b]).0 by {
        assert(t[a] == (if a < j { s[a] } else { s[a + 1] }));
        assert(t[b] == (if b < j { s[b] } else { s[b + 1] }));
    }
    if has_key(t, s[j].0) {
        let a = choose|a: int| 0 <= a < t.len() && (#[trigger] t[a]).0 == s[j].0;
        assert(t[a] == (if a < j { s[a] } else { s[a + 1] }));
        assert(false);
    }
}

proof fn lemma_as_map_dom_len(s: Seq<(GuildId, PlaybackId)>)
    requires
        unique_keys(s),
    ensures
        as_map(s).dom().finite(),
        as_map(s).dom().len() == s.len(),
    decreases s.len(),
{
    broadcast use vstd::set::group_set_axioms;

    if s.len() > 0 {
        lemma_unique_drop_last(s);
        lemma_as_map_dom_len(s.drop_last());
        lemma_as_map_contains(s.drop_last(), s.last().0);
        if has_key(s.drop_last(), s.last().0) {
            let i = choose|i: int|
                0 <= i < s.drop_last().len() && (#[trigger] s.drop_last()[i]).0 == s.last().0;
            assert(s[i] == s.drop_last()[i]);
            assert(false);
        }
        assert(as_map(s).dom() =~= as_map(s.drop_last()).dom().insert(s.last().0));
    }
}

/// The registry itself: a plain sequential store; the surrounding process
/// wraps it in a lock and holds that lock only for the duration of a single
/// `get` or `record` call, never across a suspension.
pub struct SessionRegistry {
    entries: Vec<(GuildId, PlaybackId)>,
}

impl View for SessionRegistry {
    type V = Map<GuildId, PlaybackId>;

    closed spec fn view(&self) -> Map<GuildId, PlaybackId> {
        as_map(self.entries@)
    }
}

impl SessionRegistry {
    /// Each guild has at most one entry.
    pub closed spec fn inv(&self) -> bool {
        unique_keys(self.entries@)
    }

    /// An empty registry, as at process start.
    pub fn new() -> (r: SessionRegistry)
        ensures
            r.inv(),
            r@ == Map::<GuildId, PlaybackId>::empty(),
    {
        SessionRegistry { entries: Vec::new() }
    }

    /// The handle of the guild's current track, if one was ever recorded.
    pub fn get(&self, guild: GuildId) -> (r: Option<PlaybackId>)
        requires
            self.inv(),
        ensures
            r == (if self@.contains_key(guild) {
                Some(self@[guild])
            } else {
                None::<PlaybackId>
            }),
    {
        let n = self.entries.len();
        let mut i: usize = 0;
        while i < n
            invariant
                0 <= i <= n,
                n == self.entries@.len(),
                unique_keys(self.entries@),
                forall|j: int| 0 <= j < i ==> (#[trigger] self.entries@[j]).0 != guild,
            decreases n - i,
        {
            let e = self.entries[i];
            if e.0 == guild {
                proof {
                    lemma_as_map_value(self.entries@, i as int);
                }
                return Some(e.1);
            }
            i = i + 1;
        }
        proof {
            lemma_as_map_contains(self.entries@, guild);
            if has_key(self.entries@, guild) {
                let j = choose|j: int|
                    0 <= j < self.entries@.len() && (#[trigger] self.entries@[j]).0 == guild;
                assert(false);
            }
        }
        None
    }

    /// Records the guild's current playback handle: the sole mutation of the
    /// registry. Inserts a fresh entry, or silently replaces the prior handle
    /// when the guild already has one; entries of other guilds are untouched.
    pub fn record(&mut self, guild: GuildId, handle: PlaybackId)
        requires
            old(self).inv(),
        ensures
            final(self).inv(),
            final(self)@ == old(self)@.insert(guild, handle),
    {
        let n = self.entries.len();
        let mut i: usize = 0;
        while i < n
            invariant
                0 <= i <= n,
                n == self.entries@.len(),
                self.entries@ == old(self).entries@,
                unique_keys(self.entries@),
                forall|j: int| 0 <= j < i ==> (#[trigger] self.entries@[j]).0 != guild,
            decreases n - i,
        {
            if self.entries[i].0 == guild {
                let ghost s = self.entries@;
                proof {
                    lemma_as_map_remove(s, i as int);
                    lemma_unique_remove(s, i as int);
                }
                self.entries.remove(i);
                self.entries.push((guild, handle));
                proof {
                    assert(self.entries@.drop_last() =~= s.remove(i as int));
                    assert(as_map(self.entries@) == as_map(s).remove(guild).insert(
                        guild,
                        handle,
                    ));
                    assert(as_map(s).remove(guild).insert(guild, handle) =~= as_map(s).insert(
                        guild,
                        handle,
                    ));
                    let t = self.entries@;
                    assert forall|a: int, b: int|
                        0 <= a < b < t.len() implies (#[trigger] t[a]).0 != (#[trigger] t[b]).0 by {
                        if b < t.len() - 1 {
                            assert(t[a] == s.remove(i as int)[a]);
                            assert(t[b] == s.remove(i as int)[b]);
                        } else {
                            assert(t[a] == s.remove(i as int)[a]);
                        }
                    }
                }
                return;
            }
            i = i + 1;
        }
        let ghost s = self.entries@;
        self.entries.push((guild, handle));
        proof {
            assert(self.entries@.drop_last() =~= s);
            let t = self.entries@;
            assert forall|a: int, b: int|
                0 <= a < b < t.len() implies (#[trigger] t[a]).0 != (#[trigger] t[b]).0 by {
                assert(t[a] == s[a]);
                if b < t.len() - 1 {
                    assert(t[b] == s[b]);
                }
            }
        }
    }

    /// The registry is a finite store: its mapping's key set is finite, so
    /// the counts before and after a recording relate as `lemma_record_size`
    /// states.
    pub proof fn lemma_dom_finite(&self)
        requires
            self.inv(),
        ensures
            self@.dom().finite(),
    {
        lemma_as_map_dom_len(self.entries@);
    }

    /// How many guilds currently have a recorded handle: with the invariant,
    /// each guild in the mapping is counted exactly once.
    pub fn len(&self) -> (r: usize)
        requires
            self.inv(),
        ensures
            r == self@.dom().len(),
    {
        proof {
            lemma_as_map_dom_len(self.entries@);
        }
        self.entries.len()
    }
}

/// After a play command records handle `h` for guild `g`, the registry holds
/// exactly that handle for `g`, and every other guild's entry — present or
/// absent — is exactly as it was.
pub proof fn lemma_record_is_latest(m: Map<GuildId, PlaybackId>, g: GuildId, h: PlaybackId)
    ensures
        m.insert(g, h).contains_key(g),
        m.insert(g, h)[g] == h,
        forall|k: GuildId|
            k != g ==> (#[trigger] m.insert(g, h).contains_key(k) <==> m.contains_key(k)),
        forall|k: GuildId| k != g && m.contains_key(k) ==> #[trigger] m.insert(g, h)[k] == m[k],
{
}

/// Recording a handle grows the registry by exactly one guild when the
/// guild was absent, and not at all when it was present: a successful play
/// adds the invoking guild's entry and no other.
pub proof fn lemma_record_size(m: Map<GuildId, PlaybackId>, g: GuildId, h: PlaybackId)
    requires
        m.dom().finite(),
    ensures
        m.insert(g, h).dom().finite(),
        m.contains_key(g) ==> m.insert(g, h).dom().len() == m.dom().len(),
        !m.contains_key(g) ==> m.insert(g, h).dom().len() == m.dom().len() + 1,
{
    broadcast use vstd::set::group_set_axioms;

    assert(m.insert(g, h).dom() =~= m.dom().insert(g));
}

/// Two play commands racing for one guild: whichever insertion completes
/// last determines the guild's sole handle, and the first write leaves no
/// residue — the registry is exactly what the later write alone would have
/// produced.
pub proof fn lemma_last_writer_wins(
    m: Map<GuildId, PlaybackId>,
    g: GuildId,
    h1: PlaybackId,
    h2: PlaybackId,
)
    ensures
        m.insert(g, h1).insert(g, h2) == m.insert(g, h2),
        m.insert(g, h1).insert(g, h2)[g] == h2,
{
    assert(m.insert(g, h1).insert(g, h2) =~= m.insert(g, h2));
}

} // verus!
