//! Choices of the image modifiers that do not depend on their pixel work:
//! which frames the frame modifier offers, and which it picks.
use vstd::prelude::*;

use crate::data::FrameImage;
use crate::table::str_eq;
use vstd::string::StrSliceExecFns;

verus! {

/// What the background modifier puts behind the image.
#[derive(Debug, Clone, Copy, PartialEq, Eq, Structural)]
pub enum BackgroundType {
    Image,
    Solid,
}

/// The id under which the frame modifier stores, for each template, the id
/// of the frame it last used.
pub open spec fn frame_modifier_id() -> Seq<char> {
    "modifier-frame"@
}

/// The ids of the frames, in order.
pub open spec fn frame_ids(frames: Seq<FrameImage>) -> Seq<Seq<char>> {
    frames.map_values(|f: FrameImage| f.spec_id())
}

/// The position of the first frame with the id `id`, if any.
pub open spec fn first_with_id(frames: Seq<FrameImage>, id: Seq<char>) -> Option<int> {
    if exists|k: int| 0 <= k < frames.len() && #[trigger] frames[k].spec_id() == id {
        Some(choose|k: int|
            0 <= k < frames.len() && #[trigger] frames[k].spec_id() == id && forall|j: int|
                0 <= j < k ==> #[trigger] frames[j].spec_id() != id)
    } else {
        None
    }
}

/// Finds the frame a workspace used last, by its id.
pub fn find_frame(frames: &Vec<FrameImage>, id: &str) -> (r: Option<usize>)
    ensures
        match r {
            Some(k) => first_with_id(frames@, id@) == Some(k as int),
            None => first_with_id(frames@, id@) is None,
        },
{
    let mut i: usize = 0;
    while i < frames.len()
        invariant
            i <= frames@.len(),
            forall|j: int| 0 <= j < i ==> #[trigger] frames@[j].spec_id() != id@,
        decreases frames@.len() - i,
    {
        if str_eq(frames[i].id(), id) {
            proof {
                let k = choose|k: int|
                    0 <= k < frames@.len() && #[trigger] frames@[k].spec_id() == id@ && forall|j: int|
                        0 <= j < k ==> #[trigger] frames@[j].spec_id() != id@;
                assert(frames@[i as int].spec_id() == id@);
                if k < i {
                    assert(frames@[k].spec_id() != id@);
                } else if k > i {
                    assert(frames@[i as int].spec_id() != id@);
                }
            }
            return Some(i);
        }
        i = i + 1;
    }
    None
}

/// The categories of the frames, each once, in the order they first occur.
pub open spec fn categories_of(frames: Seq<FrameImage>) -> Seq<Seq<char>>
    decreases frames.len(),
{
    if frames.len() == 0 {
        Seq::empty()
    } else {
        let prev = categories_of(frames.drop_last());
        let c = frames.last().spec_category();
        if prev.contains(c) {
            prev
        } else {
            prev.push(c)
        }
    }
}


/// The categories offered are those of the frames, each exactly once: no
/// two are equal, every frame's category is among them, and each of them is
/// some frame's category.
pub proof fn lemma_categories_distinct_and_complete(frames: Seq<FrameImage>)
    ensures
        forall|i: int, j: int|
            0 <= i < j < categories_of(frames).len() ==> #[trigger] categories_of(frames)[i]
                != #[trigger] categories_of(frames)[j],
        forall|k: int| 0 <= k < frames.len() ==> categories_of(frames).contains(#[trigger] frames[k].spec_category()),
        forall|i: int|
            0 <= i < categories_of(frames).len() ==> exists|k: int|
                0 <= k < frames.len() && #[trigger] frames[k].spec_category() == #[trigger] categories_of(frames)[i],
    decreases frames.len(),
{
    if frames.len() > 0 {
        let init = frames.drop_last();
        lemma_categories_distinct_and_complete(init);
        let prev = categories_of(init);
        let c = frames.last().spec_category();
        let r = categories_of(frames);
        assert(r == if prev.contains(c) { prev } else { prev.push(c) });
        assert forall|k: int| 0 <= k < frames.len() implies r.contains(#[trigger] frames[k].spec_category()) by {
            if k < frames.len() - 1 {
                assert(init[k] == frames[k]);
                assert(prev.contains(init[k].spec_category()));
                if !prev.contains(c) {
                    let w = choose|w: int| 0 <= w < prev.len() && prev[w] == init[k].spec_category();
                    assert(r[w] == prev[w]);
                }
            } else {
                if !prev.contains(c) {
                    assert(r[prev.len() as int] == c);
                }
            }
        }
        assert forall|i: int| #![trigger r[i]] 0 <= i < r.len() implies exists|k: int|
            0 <= k < frames.len() && #[trigger] frames[k].spec_category() == r[i] by {
            if i < prev.len() {
                assert(r[i] == prev[i]);
                let k = choose|k: int| 0 <= k < init.len() && #[trigger] init[k].spec_category() == prev[i];
                assert(init[k] == frames[k]);
            } else {
                assert(frames[frames.len() - 1] == frames.last());
            }
        }
        assert forall|i: int, j: int| 0 <= i < j < r.len() implies #[trigger] r[i] != #[trigger] r[j] by {
            if j < prev.len() {
                assert(r[i] == prev[i] && r[j] == prev[j]);
            } else {
                assert(r[i] == prev[i]);
                assert(r[j] == c);
                assert(!prev.contains(c));
            }
        }
    }
}

/// The categories the frame selection offers as filters.
pub fn frame_categories(frames: &Vec<FrameImage>) -> (r: Vec<String>)
    ensures
        r@.map_values(|s: String| s@) == categories_of(frames@),
{
    let mut out: Vec<String> = Vec::new();
    let mut i: usize = 0;
    while i < frames.len()
        invariant
            i <= frames@.len(),
            out@.map_values(|s: String| s@) == categories_of(frames@.take(i as int)),
        decreases frames@.len() - i,
    {
        assert(frames@.take(i + 1).drop_last() =~= frames@.take(i as int));
        let c = frames[i].category();
        let ghost seen = out@.map_values(|s: String| s@);
        let mut present = false;
        let mut j: usize = 0;
        while j < out.len()
            invariant
                j <= out@.len(),
                seen == out@.map_values(|s: String| s@),
                present <==> exists|k: int| 0 <= k < j && #[trigger] seen[k] == c@,
            decreases out@.len() - j,
        {
            assert(seen[j as int] == out@[j as int]@);
            if str_eq(out[j].as_str(), c) {
                present = true;
            }
            j = j + 1;
        }
        proof {
            if present {
                let k = choose|k: int| 0 <= k < out@.len() && #[trigger] seen[k] == c@;
                assert(seen.contains(c@));
            } else {
                assert(!seen.contains(c@));
            }
        }
        if !present {
            out.push(c.to_string());
            assert(out@.map_values(|s: String| s@) =~= seen.push(c@));
        }
        i = i + 1;
    }
    assert(frames@.take(frames@.len() as int) =~= frames@);
    out
}

/// Whether the frame selection shows a frame under the category filter
/// `filter`: every frame when the filter is empty, else those of that
/// category.
pub open spec fn shown(filter: Seq<char>, f: FrameImage) -> bool {
    filter.len() == 0 || f.spec_category() == filter
}

/// The positions of the frames the selection shows, in order.
pub open spec fn shown_positions(frames: Seq<FrameImage>, filter: Seq<char>) -> Seq<int>
    decreases frames.len(),
{
    if frames.len() == 0 {
        Seq::empty()
    } else {
        let prev = shown_positions(frames.drop_last(), filter);
        if shown(filter, frames.last()) {
            prev.push(frames.len() - 1)
        } else {
            prev
        }
    }
}

/// The positions of the frames the selection shows under `filter`.
pub fn shown_frames(frames: &Vec<FrameImage>, filter: &str) -> (r: Vec<usize>)
    ensures
        r@.map_values(|k: usize| k as int) == shown_positions(frames@, filter@),
{
    let mut out: Vec<usize> = Vec::new();
    let everything = filter.unicode_len() == 0;
    let mut i: usize = 0;
    while i < frames.len()
        invariant
            i <= frames@.len(),
            everything == (filter@.len() == 0),
            out@.map_values(|k: usize| k as int) == shown_positions(frames@.take(i as int), filter@),
        decreases frames@.len() - i,
    {
        assert(frames@.take(i + 1).drop_last() =~= frames@.take(i as int));
        let ghost before = out@;
        if everything || str_eq(filter, frames[i].category()) {
            out.push(i);
            assert(out@.map_values(|k: usize| k as int) =~= before.map_values(|k: usize| k as int).push(i as int));
        }
        i = i + 1;
    }
    assert(frames@.take(frames@.len() as int) =~= frames@);
    out
}


/// The modifiers of a workspace, in the order they apply, with the one
/// whose controls are shown.
pub struct ModifierList<M> {
    items: Vec<M>,
    selected: usize,
}

impl<M> ModifierList<M> {
    pub closed spec fn spec_items(&self) -> Seq<M> {
        self.items@
    }

    pub closed spec fn spec_selected(&self) -> usize {
        self.selected
    }

    /// No modifier, the first position selected.
    pub fn new() -> (r: Self)
        ensures
            r.spec_items().len() == 0,
            r.spec_selected() == 0,
    {
        ModifierList { items: Vec::new(), selected: 0 }
    }

    /// The modifiers, in order.
    pub fn items(&self) -> (r: &Vec<M>)
        ensures
            r@ == self.spec_items(),
    {
        &self.items
    }

    /// The modifiers, to be changed in place.
    pub fn items_mut(&mut self) -> (r: &mut Vec<M>)
        ensures
            r@ == old(self).spec_items(),
            final(self).spec_items() == final(r)@,
            final(self).spec_selected() == old(self).spec_selected(),
    {
        &mut self.items
    }

    /// The selected position.
    pub fn selected(&self) -> (r: usize)
        ensures
            r == self.spec_selected(),
    {
        self.selected
    }

    /// Appends a modifier and selects it; returns its position.
    pub fn add(&mut self, modifier: M) -> (index: usize)
        requires
            old(self).spec_items().len() < usize::MAX,
        ensures
            index == old(self).spec_items().len(),
            final(self).spec_items() == old(self).spec_items().push(modifier),
            final(self).spec_selected() == index,
    {
        let index = self.items.len();
        self.items.push(modifier);
        self.selected = index;
        index
    }

    /// Removes the modifier at `index`, if there is one; returns whether it
    /// did, which calls for rendering again. The selection stays.
    pub fn remove(&mut self, index: usize) -> (removed: bool)
        ensures
            removed == (index < old(self).spec_items().len()),
            removed ==> final(self).spec_items() == old(self).spec_items().remove(index as int),
            !removed ==> final(self).spec_items() == old(self).spec_items(),
            final(self).spec_selected() == old(self).spec_selected(),
    {
        if index < self.items.len() {
            self.items.remove(index);
            true
        } else {
            false
        }
    }

    /// Selects the modifier at `index`.
    pub fn select(&mut self, index: usize)
        ensures
            final(self).spec_selected() == index,
            final(self).spec_items() == old(self).spec_items(),
    {
        self.selected = index;
    }
}

} // verus!
