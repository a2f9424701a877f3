//! Overlays: visual decorations anchored to byte ranges of a buffer.

use crate::paint_order::{
    is_stable_sort_of, lemma_filter_idempotent, lemma_filter_keeps_order,
    lemma_insert_is_stable_sort, sorted_by_priority,
};
use crate::text::str_eq;
use ratatui::style::{Color, Style};
use std::ops::Range;
use vstd::prelude::*;

verus! {

/// How an overlay looks on screen.
#[derive(Debug, PartialEq)]
#[allow(inconsistent_fields)]
pub enum OverlayFace {
    /// A line under the text.
    Underline { color: Color, style: UnderlineStyle },
    /// A tint behind the text.
    Background { color: Color },
    /// A tint of the text itself.
    Foreground { color: Color },
    /// Several attributes at once.
    Style { style: Style },
}

impl Clone for OverlayFace {
    fn clone(&self) -> (face: Self)
        ensures
            face == *self,
    {
        match self {
            OverlayFace::Underline { color, style } => OverlayFace::Underline {
                color: *color,
                style: *style,
            },
            OverlayFace::Background { color } => OverlayFace::Background { color: *color },
            OverlayFace::Foreground { color } => OverlayFace::Foreground { color: *color },
            OverlayFace::Style { style } => OverlayFace::Style { style: *style },
        }
    }
}

/// The shape of an underline.
#[derive(Debug, Clone, Copy, PartialEq, Eq)]
pub enum UnderlineStyle {
    Straight,
    /// Squiggly, as used for diagnostics.
    Wavy,
    Dotted,
    Dashed,
}

/// Paint order: overlays with a higher priority are drawn over lower ones.
pub type Priority = i32;

/// One decoration: a half-open byte range `[start, end)` and how to draw it.
///
/// A range with `start > end` is a mistake of whoever built the overlay; it is
/// neither rejected nor repaired. See [`Overlay::well_formed`].
#[derive(Debug)]
pub struct Overlay {
    /// Byte range of the buffer that the overlay covers.
    pub range: Range<usize>,
    pub face: OverlayFace,
    pub priority: Priority,
    /// Name under which the overlay can be found and removed. Several
    /// overlays may share one.
    pub id: Option<String>,
    /// Tooltip text.
    pub message: Option<String>,
}

impl Clone for Overlay {
    fn clone(&self) -> (o: Self)
        ensures
            o == *self,
    {
        Overlay {
            range: self.range.start..self.range.end,
            face: self.face.clone(),
            priority: self.priority,
            id: self.id.clone(),
            message: self.message.clone(),
        }
    }
}

impl Overlay {
    /// The range is a proper interval, possibly empty.
    pub open spec fn well_formed(&self) -> bool {
        self.range.start <= self.range.end
    }

    /// `position` lies in `[start, end)`.
    pub open spec fn spec_contains(&self, position: usize) -> bool {
        self.range.start <= position < self.range.end
    }

    /// The overlay's range and `range` share at least one byte; or one of the
    /// two is empty and lies strictly inside the other, which is not empty.
    pub open spec fn spec_overlaps(&self, range: Range<usize>) -> bool {
        self.range.start < range.end && range.start < self.range.end
    }

    /// The overlay carries exactly the identifier `id`.
    pub open spec fn has_id(&self, id: Seq<char>) -> bool {
        self.id matches Some(s) && s@ == id
    }

    /// An overlay with priority 0, no identifier and no message.
    pub fn new(range: Range<usize>, face: OverlayFace) -> (o: Self)
        ensures
            o == (Overlay { range, face, priority: 0, id: None, message: None }),
    {
        Self { range, face, priority: 0, id: None, message: None }
    }

    /// An overlay with the given priority, no identifier and no message.
    pub fn with_priority(range: Range<usize>, face: OverlayFace, priority: Priority) -> (o: Self)
        ensures
            o == (Overlay { range, face, priority, id: None, message: None }),
    {
        Self { range, face, priority, id: None, message: None }
    }

    /// An overlay with priority 0 that can later be found under `id`.
    pub fn with_id(range: Range<usize>, face: OverlayFace, id: String) -> (o: Self)
        ensures
            o == (Overlay { range, face, priority: 0, id: Some(id), message: None }),
    {
        Self { range, face, priority: 0, id: Some(id), message: None }
    }

    /// The same overlay with `message` as its tooltip.
    pub fn with_message(self, message: String) -> (o: Self)
        ensures
            o == (Overlay { message: Some(message), ..self }),
    {
        let mut o = self;
        o.message = Some(message);
        o
    }

    /// The same overlay with its priority replaced.
    pub fn with_priority_value(self, priority: Priority) -> (o: Self)
        ensures
            o == (Overlay { priority, ..self }),
    {
        let mut o = self;
        o.priority = priority;
        o
    }

    /// Whether `position` is covered. The end offset itself is not.
    #[verifier::when_used_as_spec(spec_contains)]
    pub fn contains(&self, position: usize) -> (r: bool)
        ensures
            r == self.spec_contains(position),
    {
        self.range.contains(&position)
    }

    /// Whether the overlay and `range` overlap. Ranges that only touch do not.
    #[verifier::when_used_as_spec(spec_overlaps_ref)]
    pub fn overlaps(&self, range: &Range<usize>) -> (r: bool)
        ensures
            r == self.spec_overlaps(*range),
    {
        self.range.start < range.end && range.start < self.range.end
    }

    /// [`Overlay::spec_overlaps`] for a borrowed range.
    pub open spec fn spec_overlaps_ref(&self, range: &Range<usize>) -> bool {
        self.spec_overlaps(*range)
    }

    /// Whether the overlay carries exactly the identifier `id`. An overlay
    /// without identifier matches none.
    pub fn is_named(&self, id: &str) -> (r: bool)
        ensures
            r == self.has_id(id@),
    {
        match &self.id {
            Some(s) => str_eq(s.as_str(), id),
            None => false,
        }
    }
}

/// The overlays that cover `position`.
pub open spec fn covering(position: usize) -> spec_fn(Overlay) -> bool {
    |o: Overlay| o.spec_contains(position)
}

/// The overlays that overlap `range`.
pub open spec fn overlapping(range: Range<usize>) -> spec_fn(Overlay) -> bool {
    |o: Overlay| o.spec_overlaps(range)
}

/// The overlays that do not overlap `range`.
pub open spec fn clear_of(range: Range<usize>) -> spec_fn(Overlay) -> bool {
    |o: Overlay| !o.spec_overlaps(range)
}

/// The overlays that do not carry the identifier `id`.
pub open spec fn not_named(id: Seq<char>) -> spec_fn(Overlay) -> bool {
    |o: Overlay| !o.has_id(id)
}

/// `i` is the first index in `s` of an overlay with the identifier `id`.
pub open spec fn is_first_named(s: Seq<Overlay>, id: Seq<char>, i: int) -> bool {
    &&& 0 <= i < s.len()
    &&& s[i].has_id(id)
    &&& forall|j: int| 0 <= j < i ==> !s[j].has_id(id)
}

/// No overlay in `s` carries the identifier `id`.
pub open spec fn none_named(s: Seq<Overlay>, id: Seq<char>) -> bool {
    forall|i: int| 0 <= i < s.len() ==> !(#[trigger] s[i]).has_id(id)
}

/// What a sequence of borrowed overlays refers to.
pub open spec fn referents(v: Seq<&Overlay>) -> Seq<Overlay> {
    v.map_values(|o: &Overlay| *o)
}

/// Presets for the usual kinds of decoration. Diagnostics sit above ambient
/// highlighting, and a graver diagnostic sits above a lighter one.
impl Overlay {
    /// An error: wavy red underline, priority 10.
    pub fn error(range: Range<usize>, message: Option<String>) -> (o: Self)
        ensures
            o == (Overlay {
                range,
                face: OverlayFace::Underline { color: Color::Red, style: UnderlineStyle::Wavy },
                priority: 10,
                id: None,
                message,
            }),
    {
        let mut overlay = Self::with_priority(
            range,
            OverlayFace::Underline { color: Color::Red, style: UnderlineStyle::Wavy },
            10,
        );
        overlay.message = message;
        overlay
    }

    /// A warning: wavy yellow underline, priority 5.
    pub fn warning(range: Range<usize>, message: Option<String>) -> (o: Self)
        ensures
            o == (Overlay {
                range,
                face: OverlayFace::Underline { color: Color::Yellow, style: UnderlineStyle::Wavy },
                priority: 5,
                id: None,
                message,
            }),
    {
        let mut overlay = Self::with_priority(
            range,
            OverlayFace::Underline { color: Color::Yellow, style: UnderlineStyle::Wavy },
            5,
        );
        overlay.message = message;
        overlay
    }

    /// A note: wavy blue underline, priority 3.
    pub fn info(range: Range<usize>, message: Option<String>) -> (o: Self)
        ensures
            o == (Overlay {
                range,
                face: OverlayFace::Underline { color: Color::Blue, style: UnderlineStyle::Wavy },
                priority: 3,
                id: None,
                message,
            }),
    {
        let mut overlay = Self::with_priority(
            range,
            OverlayFace::Underline { color: Color::Blue, style: UnderlineStyle::Wavy },
            3,
        );
        overlay.message = message;
        overlay
    }

    /// A hint: dotted gray underline, priority 1.
    pub fn hint(range: Range<usize>, message: Option<String>) -> (o: Self)
        ensures
            o == (Overlay {
                range,
                face: OverlayFace::Underline { color: Color::Gray, style: UnderlineStyle::Dotted },
                priority: 1,
                id: None,
                message,
            }),
    {
        let mut overlay = Self::with_priority(
            range,
            OverlayFace::Underline { color: Color::Gray, style: UnderlineStyle::Dotted },
            1,
        );
        overlay.message = message;
        overlay
    }

    /// The selection: a dark blue background, priority -10, under everything.
    pub fn selection(range: Range<usize>) -> (o: Self)
        ensures
            o == (Overlay {
                range,
                face: OverlayFace::Background { color: Color::Rgb(38, 79, 120) },
                priority: -10i32,
                id: None,
                message: None,
            }),
    {
        Self::with_priority(range, OverlayFace::Background { color: Color::Rgb(38, 79, 120) }, -10)
    }

    /// A search match: an olive background, priority -5.
    pub fn search_match(range: Range<usize>) -> (o: Self)
        ensures
            o == (Overlay {
                range,
                face: OverlayFace::Background { color: Color::Rgb(72, 72, 0) },
                priority: -5i32,
                id: None,
                message: None,
            }),
    {
        Self::with_priority(range, OverlayFace::Background { color: Color::Rgb(72, 72, 0) }, -5)
    }
}

/// The overlays of one buffer, kept in paint order: priorities never
/// decrease along the store, whatever is done to it.
///
/// The store never drops or moves an overlay on its own: whoever added one
/// removes it again when what it stood for is gone.
#[derive(Debug)]
pub struct OverlayManager {
    overlays: Vec<Overlay>,
}

impl View for OverlayManager {
    type V = Seq<Overlay>;

    /// The overlays in store order, lowest priority first.
    closed spec fn view(&self) -> Seq<Overlay> {
        self.overlays@
    }
}

/// An overlay of the store, borrowed for changes in place. Everything can be
/// changed but the priority, which decides where the overlay stands in the
/// store.
pub struct OverlayMut<'a> {
    pub range: &'a mut Range<usize>,
    pub face: &'a mut OverlayFace,
    /// The overlay's priority, to read.
    pub priority: &'a Priority,
    pub id: &'a mut Option<String>,
    pub message: &'a mut Option<String>,
}

impl<'a> OverlayMut<'a> {
    /// The overlay as it is now.
    pub open spec fn overlay(&self) -> Overlay {
        Overlay {
            range: *self.range,
            face: *self.face,
            priority: *self.priority,
            id: *self.id,
            message: *self.message,
        }
    }
}

/// Borrows the overlay at index `i` for changes in place.
fn borrow_at(overlays: &mut Vec<Overlay>, i: usize) -> (found: OverlayMut<'_>)
    requires
        i < old(overlays)@.len(),
    ensures
        found.overlay() == old(overlays)@[i as int],
        final(overlays)@ == old(overlays)@.update(
            i as int,
            Overlay {
                range: *final(found.range),
                face: *final(found.face),
                priority: *found.priority,
                id: *final(found.id),
                message: *final(found.message),
            },
        ),
        sorted_by_priority(old(overlays)@) ==> sorted_by_priority(final(overlays)@),
    no_unwind
{
    let overlay = &mut overlays[i];
    OverlayMut {
        range: &mut overlay.range,
        face: &mut overlay.face,
        priority: &overlay.priority,
        id: &mut overlay.id,
        message: &mut overlay.message,
    }
}

impl OverlayManager {
    /// What holds of every store: it is sorted by ascending priority.
    #[verifier::type_invariant]
    spec fn in_paint_order(self) -> bool {
        sorted_by_priority(self.overlays@)
    }

    /// An empty store.
    pub fn new() -> (m: Self)
        ensures
            m@ == Seq::<Overlay>::empty(),
    {
        Self { overlays: Vec::new() }
    }

    /// Adds `overlay` and sorts the store by ascending priority. The sort is
    /// stable: among overlays of one priority the order they had is kept, and
    /// `overlay` comes after those that were already there.
    pub fn add(&mut self, overlay: Overlay)
        ensures
            is_stable_sort_of(final(self)@, old(self)@.push(overlay)),
            sorted_by_priority(final(self)@),
    {
        proof {
            use_type_invariant(&*self);
        }
        let mut overlays: Vec<Overlay> = Vec::new();
        std::mem::swap(&mut self.overlays, &mut overlays);
        // The store is in order, so sorting it with `overlay` at its end
        // comes to putting `overlay` behind the last overlay whose priority
        // is not higher.
        let mut k: usize = overlays.len();
        while k > 0 && overlays[k - 1].priority > overlay.priority
            invariant
                0 <= k <= overlays@.len(),
                forall|i: int| k <= i < overlays@.len() ==> overlays@[i].priority > overlay.priority,
            decreases k,
        {
            k -= 1;
        }
        proof {
            assert forall|i: int| 0 <= i < k implies overlays@[i].priority
                <= overlay.priority by {
                assert(overlays@[i].priority <= overlays@[k - 1].priority);
            }
            lemma_insert_is_stable_sort(overlays@, overlay, k as int);
        }
        overlays.insert(k, overlay);
        self.overlays = overlays;
    }

    /// Removes every overlay that carries the identifier `id`; the others
    /// stay as they are, in their order. Without a match nothing changes.
    pub fn remove_by_id(&mut self, id: &str)
        ensures
            final(self)@ == old(self)@.filter(not_named(id@)),
            sorted_by_priority(final(self)@),
    {
        proof {
            use_type_invariant(&*self);
        }
        let mut taken: Vec<Overlay> = Vec::new();
        std::mem::swap(&mut self.overlays, &mut taken);
        let ghost all = taken@;
        let mut kept: Vec<Overlay> = Vec::new();
        for o in it: taken
            invariant
                it.seq() == all,
                kept@ == all.take(it.index() as int).filter(not_named(id@)),
        {
            proof {
                assert(all.take(it.index() + 1) =~= all.take(it.index() as int).push(o));
                Seq::lemma_filter_push(all.take(it.index() as int), o, not_named(id@));
            }
            if !o.is_named(id) {
                kept.push(o);
            }
        }
        proof {
            assert(all.take(all.len() as int) =~= all);
            lemma_filter_keeps_order(all, not_named(id@));
        }
        self.overlays = kept;
    }

    /// Removes every overlay that overlaps `range`; the others stay as they
    /// are, in their order. Without a match nothing changes.
    pub fn remove_in_range(&mut self, range: &Range<usize>)
        ensures
            final(self)@ == old(self)@.filter(clear_of(*range)),
            sorted_by_priority(final(self)@),
    {
        proof {
            use_type_invariant(&*self);
        }
        let mut taken: Vec<Overlay> = Vec::new();
        std::mem::swap(&mut self.overlays, &mut taken);
        let ghost all = taken@;
        let mut kept: Vec<Overlay> = Vec::new();
        for o in it: taken
            invariant
                it.seq() == all,
                kept@ == all.take(it.index() as int).filter(clear_of(*range)),
        {
            proof {
                assert(all.take(it.index() + 1) =~= all.take(it.index() as int).push(o));
                Seq::lemma_filter_push(all.take(it.index() as int), o, clear_of(*range));
            }
            if !o.overlaps(range) {
                kept.push(o);
            }
        }
        proof {
            assert(all.take(all.len() as int) =~= all);
            lemma_filter_keeps_order(all, clear_of(*range));
        }
        self.overlays = kept;
    }

    /// Removes every overlay.
    pub fn clear(&mut self)
        ensures
            final(self)@ == Seq::<Overlay>::empty(),
            final(self).spec_len() == 0,
            final(self).spec_is_empty(),
    {
        self.overlays = Vec::new();
    }

    /// The overlays that cover `position`, in store order, which is by
    /// ascending priority.
    pub fn at_position(&self, position: usize) -> (found: Vec<&Overlay>)
        ensures
            referents(found@) == self@.filter(covering(position)),
            sorted_by_priority(referents(found@)),
    {
        let mut found: Vec<&Overlay> = Vec::new();
        let n = self.overlays.len();
        let ghost all = self.overlays@;
        let mut i: usize = 0;
        while i < n
            invariant
                0 <= i <= n,
                n == all.len(),
                all == self.overlays@,
                referents(found@) == all.take(i as int).filter(covering(position)),
            decreases n - i,
        {
            let o = &self.overlays[i];
            proof {
                assert(all.take(i + 1) =~= all.take(i as int).push(*o));
                Seq::lemma_filter_push(all.take(i as int), *o, covering(position));
                assert(referents(found@.push(o)) =~= referents(found@).push(*o));
            }
            if o.contains(position) {
                found.push(o);
            }
            i += 1;
        }
        proof {
            assert(all.take(n as int) =~= all);
            use_type_invariant(self);
            lemma_filter_keeps_order(all, covering(position));
        }
        found
    }

    /// The overlays that overlap `range`, in store order, which is by
    /// ascending priority.
    pub fn in_range(&self, range: &Range<usize>) -> (found: Vec<&Overlay>)
        ensures
            referents(found@) == self@.filter(overlapping(*range)),
            sorted_by_priority(referents(found@)),
    {
        let mut found: Vec<&Overlay> = Vec::new();
        let n = self.overlays.len();
        let ghost all = self.overlays@;
        let mut i: usize = 0;
        while i < n
            invariant
                0 <= i <= n,
                n == all.len(),
                all == self.overlays@,
                referents(found@) == all.take(i as int).filter(overlapping(*range)),
            decreases n - i,
        {
            let o = &self.overlays[i];
            proof {
                assert(all.take(i + 1) =~= all.take(i as int).push(*o));
                Seq::lemma_filter_push(all.take(i as int), *o, overlapping(*range));
                assert(referents(found@.push(o)) =~= referents(found@).push(*o));
            }
            if o.overlaps(range) {
                found.push(o);
            }
            i += 1;
        }
        proof {
            assert(all.take(n as int) =~= all);
            use_type_invariant(self);
            lemma_filter_keeps_order(all, overlapping(*range));
        }
        found
    }

    /// The index of the first overlay in store order that carries the
    /// identifier `id`.
    fn position_of(&self, id: &str) -> (found: Option<usize>)
        ensures
            match found {
                Some(i) => is_first_named(self@, id@, i as int),
                None => none_named(self@, id@),
            },
    {
        let n = self.overlays.len();
        let mut i: usize = 0;
        while i < n
            invariant
                0 <= i <= n,
                n == self.overlays@.len(),
                forall|j: int| 0 <= j < i ==> !(#[trigger] self.overlays@[j]).has_id(id@),
            decreases n - i,
        {
            if self.overlays[i].is_named(id) {
                return Some(i);
            }
            i += 1;
        }
        None
    }

    /// The first overlay in store order that carries the identifier `id`.
    pub fn get_by_id(&self, id: &str) -> (found: Option<&Overlay>)
        ensures
            match found {
                Some(o) => exists|i: int| is_first_named(self@, id@, i) && *o == self@[i],
                None => none_named(self@, id@),
            },
    {
        match self.position_of(id) {
            Some(i) => Some(&self.overlays[i]),
            None => None,
        }
    }

    /// The first overlay in store order that carries the identifier `id`, for
    /// changing it in place: the store is the old one with that overlay
    /// replaced by what the caller leaves in it. The priority cannot be
    /// changed this way, so the store keeps its order and its length.
    pub fn get_by_id_mut(&mut self, id: &str) -> (found: Option<OverlayMut<'_>>)
        ensures
            match found {
                Some(o) => exists|i: int|
                    {
                        &&& is_first_named(old(self)@, id@, i)
                        &&& o.overlay() == old(self)@[i]
                        &&& final(self)@ == old(self)@.update(
                            i,
                            Overlay {
                                range: *final(o.range),
                                face: *final(o.face),
                                priority: *o.priority,
                                id: *final(o.id),
                                message: *final(o.message),
                            },
                        )
                    },
                None => final(self)@ == old(self)@ && none_named(old(self)@, id@),
            },
            sorted_by_priority(final(self)@),
    {
        proof {
            use_type_invariant(&*self);
        }
        match self.position_of(id) {
            Some(i) => Some(borrow_at(&mut self.overlays, i)),
            None => None,
        }
    }

    /// The number of overlays, as a specification.
    pub open spec fn spec_len(&self) -> usize {
        self@.len() as usize
    }

    /// Whether the store holds nothing, as a specification.
    pub open spec fn spec_is_empty(&self) -> bool {
        self@.len() == 0
    }

    /// The number of overlays.
    #[verifier::when_used_as_spec(spec_len)]
    pub fn len(&self) -> (n: usize)
        ensures
            n == self@.len(),
    {
        self.overlays.len()
    }

    /// Whether the store holds nothing.
    #[verifier::when_used_as_spec(spec_is_empty)]
    pub fn is_empty(&self) -> (b: bool)
        ensures
            b == (self@.len() == 0),
    {
        self.overlays.is_empty()
    }

    /// Every overlay in store order, which is by ascending priority, for
    /// painting the whole buffer.
    pub fn all(&self) -> (s: &[Overlay])
        ensures
            s@ == self@,
            sorted_by_priority(s@),
    {
        proof {
            use_type_invariant(self);
        }
        self.overlays.as_slice()
    }
}

impl Clone for OverlayManager {
    fn clone(&self) -> (m: Self)
        ensures
            m@ == self@,
    {
        proof {
            use_type_invariant(self);
        }
        let overlays = self.overlays.clone();
        proof {
            assert(overlays@ =~= self.overlays@);
        }
        Self { overlays }
    }
}

impl Default for OverlayManager {
    fn default() -> (m: Self)
        ensures
            m@ == Seq::<Overlay>::empty(),
    {
        Self::new()
    }
}

/// An overlay whose range is empty covers no position, and neither does one
/// whose range ends before it starts.
pub proof fn lemma_empty_covers_nothing(o: Overlay, position: usize)
    requires
        o.range.end <= o.range.start,
    ensures
        !o.spec_contains(position),
{
}

/// An overlay and a range, neither empty, overlap exactly if some position
/// lies in both.
pub proof fn lemma_overlap_is_a_shared_position(o: Overlay, range: Range<usize>)
    requires
        o.well_formed(),
        o.range.start != o.range.end,
        range.start < range.end,
    ensures
        o.spec_overlaps(range) <==> exists|p: usize|
            #[trigger] o.spec_contains(p) && range.start <= p < range.end,
{
    if o.spec_overlaps(range) {
        let p = if o.range.start <= range.start {
            range.start
        } else {
            o.range.start
        };
        assert(o.spec_contains(p) && range.start <= p < range.end);
    }
}

/// Ranges that only touch, the one ending where the other starts, do not
/// overlap.
pub proof fn lemma_touching_ranges_do_not_overlap(o: Overlay, range: Range<usize>)
    requires
        range.start == o.range.end || range.end == o.range.start,
    ensures
        !o.spec_overlaps(range),
{
}

/// The overlays that cover a position are those that overlap the one byte at
/// that position.
pub proof fn lemma_covering_is_overlapping_one_byte(s: Seq<Overlay>, position: usize)
    requires
        position < usize::MAX,
    ensures
        s.filter(covering(position)) == s.filter(
            overlapping(position..(position + 1) as usize),
        ),
{
    assert(covering(position) =~= overlapping(position..(position + 1) as usize));
}

/// Once the overlays named `id` are removed, looking for `id` finds nothing.
pub proof fn lemma_removed_id_is_gone(s: Seq<Overlay>, id: Seq<char>)
    ensures
        none_named(s.filter(not_named(id)), id),
        forall|i: int| !is_first_named(s.filter(not_named(id)), id, i),
{
    let after = s.filter(not_named(id));
    assert forall|i: int| 0 <= i < after.len() implies !(#[trigger] after[i]).has_id(id) by {
        Seq::lemma_filter_pred(s, not_named(id), i);
    }
}

/// Removing by identifier a second time changes nothing.
pub proof fn lemma_remove_by_id_twice(s: Seq<Overlay>, id: Seq<char>)
    ensures
        s.filter(not_named(id)).filter(not_named(id)) == s.filter(not_named(id)),
{
    lemma_filter_idempotent(s, not_named(id));
}

/// Removing by range a second time changes nothing.
pub proof fn lemma_remove_in_range_twice(s: Seq<Overlay>, range: Range<usize>)
    ensures
        s.filter(clear_of(range)).filter(clear_of(range)) == s.filter(clear_of(range)),
{
    lemma_filter_idempotent(s, clear_of(range));
}

} // verus!
