//! The mapping store: the current channel-to-target assignments, at most one
//! per channel id, with last-write-wins replacement.  The store itself is the
//! source of truth for the running process; persisting the table is the
//! configuration adapter's job and never rolls the store back.

use crate::types::{clone_opt_string, clone_string, ChannelMapping, ChannelMappingView,
    MixerChannel};
use vstd::prelude::*;

verus! {

/// Keeps every mapping whose channel differs from `channel_id`.
pub open spec fn keeps_channel(channel_id: usize) -> spec_fn(ChannelMappingView) -> bool {
    |x: ChannelMappingView| x.channel_id != channel_id
}

/// The table after inserting `m`: every earlier mapping for the same channel
/// is removed, and `m` goes to the end.
pub open spec fn table_after_set(
    t: Seq<ChannelMappingView>,
    m: ChannelMappingView,
) -> Seq<ChannelMappingView> {
    t.filter(keeps_channel(m.channel_id)).push(m)
}

/// The table after clearing `channel_id`: every mapping for it is removed.
pub open spec fn table_after_clear(
    t: Seq<ChannelMappingView>,
    channel_id: usize,
) -> Seq<ChannelMappingView> {
    t.filter(keeps_channel(channel_id))
}

/// The first mapping in `t` for `channel_id`, if any.
pub open spec fn spec_lookup(
    t: Seq<ChannelMappingView>,
    channel_id: usize,
) -> Option<ChannelMappingView>
    decreases t.len(),
{
    if t.len() == 0 {
        None
    } else if t[0].channel_id == channel_id {
        Some(t[0])
    } else {
        spec_lookup(t.drop_first(), channel_id)
    }
}

/// The process name the looked-up mapping targets, if any.
pub open spec fn mapped_name(m: Option<ChannelMappingView>) -> Option<Seq<char>> {
    match m {
        Some(mv) => mv.process_name,
        None => None,
    }
}

/// The process id the looked-up mapping targets, if any.
pub open spec fn mapped_pid(m: Option<ChannelMappingView>) -> Option<u32> {
    match m {
        Some(mv) => mv.process_id,
        None => None,
    }
}

/// A well-formed table: every mapping is well formed and no channel id
/// appears twice.
pub open spec fn table_inv(t: Seq<ChannelMappingView>) -> bool {
    &&& forall|i: int| 0 <= i < t.len() ==> (#[trigger] t[i]).wf()
    &&& forall|i: int, j: int|
        0 <= i < j < t.len() ==> #[trigger] t[i].channel_id != #[trigger] t[j].channel_id
}

/// Holds the current channel-to-target assignments.
pub struct MappingStore {
    mappings: Vec<ChannelMapping>,
}

impl View for MappingStore {
    type V = Seq<ChannelMappingView>;

    closed spec fn view(&self) -> Seq<ChannelMappingView> {
        self.mappings.deep_view()
    }
}

impl MappingStore {
    /// Invariant of the store: see [`table_inv`].
    pub open spec fn inv(self) -> bool {
        table_inv(self@)
    }

    /// An empty store.
    pub fn new() -> (r: MappingStore)
        ensures
            r@ == Seq::<ChannelMappingView>::empty(),
            r.inv(),
    {
        let r = MappingStore { mappings: Vec::new() };
        proof {
            assert(r@ =~= Seq::<ChannelMappingView>::empty());
        }
        r
    }

    /// Insert `m`, replacing any existing mapping for the same channel id.
    pub fn set(&mut self, m: ChannelMapping)
        requires
            old(self).inv(),
            m.wf(),
        ensures
            final(self).inv(),
            final(self)@ == table_after_set(old(self)@, m.deep_view()),
    {
        let ghost t = old(self)@;
        let mut kept = self.retain_other_channels(m.channel_id);
        kept.push(m);
        proof {
            assert(kept.deep_view() =~= table_after_set(t, m.deep_view()));
            lemma_filter_keeps_table_inv(t, keeps_channel(m.deep_view().channel_id));
            broadcast use vstd::seq_lib::group_filter_ensures;
        }
        self.mappings = kept;
    }

    /// Remove the mapping for `channel_id`, if any.
    pub fn clear(&mut self, channel_id: usize)
        requires
            old(self).inv(),
        ensures
            final(self).inv(),
            final(self)@ == table_after_clear(old(self)@, channel_id),
    {
        let ghost t = old(self)@;
        let kept = self.retain_other_channels(channel_id);
        proof {
            lemma_filter_keeps_table_inv(t, keeps_channel(channel_id));
        }
        self.mappings = kept;
    }

    /// The mappings whose channel differs from `channel_id`, in storage
    /// order.
    fn retain_other_channels(&self, channel_id: usize) -> (r: Vec<ChannelMapping>)
        ensures
            r.deep_view() == self@.filter(keeps_channel(channel_id)),
    {
        broadcast use Seq::lemma_filter_push;

        let ghost t = self@;
        let ghost pred = keeps_channel(channel_id);
        let mut kept: Vec<ChannelMapping> = Vec::new();
        let mut i: usize = 0;
        proof {
            reveal(Seq::filter);
            assert(t.take(0).filter(pred) =~= Seq::<ChannelMappingView>::empty());
            assert(kept.deep_view() =~= Seq::<ChannelMappingView>::empty());
        }
        while i < self.mappings.len()
            invariant
                i <= self.mappings.len(),
                t == self@,
                pred == keeps_channel(channel_id),
                kept.deep_view() == t.take(i as int).filter(pred),
            decreases self.mappings.len() - i,
        {
            proof {
                assert(t.take(i as int + 1) =~= t.take(i as int).push(t[i as int]));
                t.take(i as int).lemma_filter_push(t[i as int], pred);
            }
            let entry = &self.mappings[i];
            if entry.channel_id != channel_id {
                let ghost before = kept.deep_view();
                kept.push(entry.clone_mapping());
                proof {
                    assert(kept.deep_view() =~= before.push(t[i as int]));
                }
            }
            i += 1;
        }
        proof {
            assert(t.take(t.len() as int) =~= t);
        }
        kept
    }

    /// The whole table, in storage order.
    pub fn get_all(&self) -> (r: &Vec<ChannelMapping>)
        ensures
            r.deep_view() == self@,
    {
        &self.mappings
    }

    /// The mixer as shown to the presentation layer: eight slots, the first
    /// three physical, each carrying its mapping's target if it has one.
    /// Slider positions are not tracked here, so every value reads zero.
    pub fn mixer_channels(&self) -> (r: Vec<MixerChannel>)
        ensures
            r@.len() == 8,
            forall|i: int|
                0 <= i < 8 ==> {
                    let ch = #[trigger] r@[i];
                    &&& ch.id == i + 1
                    &&& ch.value == 0
                    &&& (ch.is_physical <==> i < 3)
                    &&& ch.mapped_app.deep_view() == mapped_name(
                        spec_lookup(self@, (i + 1) as usize),
                    )
                    &&& ch.app_process_id == mapped_pid(spec_lookup(self@, (i + 1) as usize))
                },
    {
        let mut r: Vec<MixerChannel> = Vec::new();
        let mut id: usize = 1;
        while id <= 8
            invariant
                1 <= id <= 9,
                r@.len() == id - 1,
                forall|i: int|
                    0 <= i < id - 1 ==> {
                        let ch = #[trigger] r@[i];
                        &&& ch.id == i + 1
                        &&& ch.value == 0
                        &&& (ch.is_physical <==> i < 3)
                        &&& ch.mapped_app.deep_view() == mapped_name(
                            spec_lookup(self@, (i + 1) as usize),
                        )
                        &&& ch.app_process_id == mapped_pid(spec_lookup(self@, (i + 1) as usize))
                    },
            decreases 9 - id,
        {
            let mut mapped_app: Option<String> = None;
            let mut app_process_id: Option<u32> = None;
            match self.lookup(id) {
                Some(mm) => {
                    mapped_app = clone_opt_string(&mm.process_name);
                    app_process_id = mm.process_id;
                },
                None => {},
            }
            r.push(
                MixerChannel { id, value: 0, is_physical: id <= 3, mapped_app, app_process_id },
            );
            id += 1;
        }
        r
    }

    /// The mapping for `channel_id`, if any.
    pub fn lookup(&self, channel_id: usize) -> (r: Option<&ChannelMapping>)
        ensures
            match r {
                Some(m) => spec_lookup(self@, channel_id) == Some(m.deep_view()),
                None => spec_lookup(self@, channel_id) is None,
            },
    {
        let mut i: usize = 0;
        while i < self.mappings.len()
            invariant
                i <= self.mappings.len(),
                forall|k: int| 0 <= k < i ==> #[trigger] self@[k].channel_id != channel_id,
            decreases self.mappings.len() - i,
        {
            if self.mappings[i].channel_id == channel_id {
                proof {
                    lemma_lookup_first_match(self@, channel_id, i as int);
                }
                return Some(&self.mappings[i]);
            }
            i += 1;
        }
        proof {
            lemma_lookup_no_match(self@, channel_id);
        }
        None
    }
}

impl ChannelMapping {
    /// A field-by-field copy with the same value.
    pub fn clone_mapping(&self) -> (r: ChannelMapping)
        ensures
            r.deep_view() == self.deep_view(),
    {
        ChannelMapping {
            channel_id: self.channel_id,
            is_master: self.is_master,
            process_id: self.process_id,
            process_name: match &self.process_name {
                Some(n) => Some(clone_string(n)),
                None => None,
            },
        }
    }
}

/// `spec_lookup` returns the first match.
proof fn lemma_lookup_first_match(t: Seq<ChannelMappingView>, channel_id: usize, i: int)
    requires
        0 <= i < t.len(),
        t[i].channel_id == channel_id,
        forall|k: int| 0 <= k < i ==> #[trigger] t[k].channel_id != channel_id,
    ensures
        spec_lookup(t, channel_id) == Some(t[i]),
    decreases i,
{
    if i > 0 {
        lemma_lookup_first_match(t.drop_first(), channel_id, i - 1);
    }
}

/// Without a match, `spec_lookup` returns nothing.
proof fn lemma_lookup_no_match(t: Seq<ChannelMappingView>, channel_id: usize)
    requires
        forall|k: int| 0 <= k < t.len() ==> #[trigger] t[k].channel_id != channel_id,
    ensures
        spec_lookup(t, channel_id) is None,
    decreases t.len(),
{
    if t.len() > 0 {
        lemma_lookup_no_match(t.drop_first(), channel_id);
    }
}

/// Every element of a filtered sequence occurs in the original.
proof fn lemma_filter_membership(
    t: Seq<ChannelMappingView>,
    pred: spec_fn(ChannelMappingView) -> bool,
    i: int,
)
    requires
        0 <= i < t.filter(pred).len(),
    ensures
        exists|j: int| 0 <= j < t.len() && t[j] == t.filter(pred)[i],
    decreases t.len(),
{
    reveal(Seq::filter);
    if t.len() > 0 {
        let sub = t.drop_last().filter(pred);
        if i < sub.len() {
            lemma_filter_membership(t.drop_last(), pred, i);
            let j = choose|j: int| 0 <= j < t.drop_last().len() && t.drop_last()[j] == sub[i];
            assert(t[j] == t.filter(pred)[i]);
        } else {
            assert(t[t.len() - 1] == t.filter(pred)[i]);
        }
    }
}

/// Filtering a well-formed table leaves a well-formed table.
proof fn lemma_filter_keeps_table_inv(
    t: Seq<ChannelMappingView>,
    pred: spec_fn(ChannelMappingView) -> bool,
)
    requires
        table_inv(t),
    ensures
        table_inv(t.filter(pred)),
        forall|i: int|
            0 <= i < t.filter(pred).len() ==> pred(#[trigger] t.filter(pred)[i]),
    decreases t.len(),
{
    broadcast use vstd::seq_lib::group_filter_ensures;

    reveal(Seq::filter);
    if t.len() > 0 {
        assert(table_inv(t.drop_last())) by {
            assert(forall|i: int| 0 <= i < t.len() - 1 ==> t.drop_last()[i] == t[i]);
        }
        lemma_filter_keeps_table_inv(t.drop_last(), pred);
        let sub = t.drop_last().filter(pred);
        let last = t[t.len() - 1];
        if pred(last) {
            assert(t.filter(pred) == sub.push(last));
            assert forall|i: int| 0 <= i < sub.len() implies sub[i].channel_id
                != last.channel_id by {
                lemma_filter_membership(t.drop_last(), pred, i);
                let j = choose|j: int|
                    0 <= j < t.drop_last().len() && t.drop_last()[j] == sub[i];
                assert(t[j].channel_id != t[t.len() - 1].channel_id);
            }
        }
    }
}

/// Setting a channel twice keeps only the second mapping: the table is as if
/// only the second `set` had happened, it holds the second mapping as its
/// last entry, and no other entry uses that channel id.
pub proof fn lemma_set_last_write_wins(
    t: Seq<ChannelMappingView>,
    m1: ChannelMappingView,
    m2: ChannelMappingView,
)
    requires
        m1.channel_id == m2.channel_id,
    ensures
        table_after_set(table_after_set(t, m1), m2) == table_after_set(t, m2),
        table_after_set(t, m2).last() == m2,
        forall|i: int|
            0 <= i < table_after_set(t, m2).len() - 1 ==> #[trigger] table_after_set(
                t,
                m2,
            )[i].channel_id != m2.channel_id,
{
    broadcast use vstd::seq_lib::group_filter_ensures;
    broadcast use Seq::lemma_filter_push;

    let pred = keeps_channel(m2.channel_id);
    let once = t.filter(pred);
    assert(once.push(m1).filter(pred) == once.filter(pred));
    lemma_filter_all_kept(once, pred);
    assert(table_after_set(table_after_set(t, m1), m2) =~= table_after_set(t, m2));
}

/// Filtering a sequence whose elements all satisfy the predicate changes
/// nothing.
proof fn lemma_filter_all_kept(
    t: Seq<ChannelMappingView>,
    pred: spec_fn(ChannelMappingView) -> bool,
)
    requires
        forall|i: int| 0 <= i < t.len() ==> pred(#[trigger] t[i]),
    ensures
        t.filter(pred) == t,
    decreases t.len(),
{
    reveal(Seq::filter);
    if t.len() > 0 {
        assert(forall|i: int| 0 <= i < t.len() - 1 ==> t.drop_last()[i] == t[i]);
        lemma_filter_all_kept(t.drop_last(), pred);
        assert(t.filter(pred) =~= t);
    }
}

} // verus!
