//! The state that owns the current filter and applies the user's edits to it.

use vstd::prelude::*;
use crate::error::Error;
use crate::filter::{random_tweak, FilterView, ProbabilisticFilter, WireFilter};
use crate::item::{decode_item, item_bytes, vec_view};

verus! {

/// The number of items that the filter after a reset is made for.
pub const DEFAULT_ITEM_COUNT: usize = 10_000;

/// The bytes of the filter after a reset: what its item count takes at one
/// false positive in a hundred.
pub const DEFAULT_BITMAP_BYTES: usize = 11_982;

/// The number of items that the filter around one added item is made for.
pub const ITEM_FILTER_ITEM_COUNT: usize = 1024;

/// The bytes of the filter around one added item: what its item count takes
/// at one false positive in a hundred.
pub const ITEM_FILTER_BITMAP_BYTES: usize = 1227;

/// What a filter state is: the current filter, and whether an item was added
/// since the last reset.
pub struct FilterStateView {
    pub filter: FilterView,
    pub dirty: bool,
}

impl FilterStateView {
    /// The state after a reset that draws the nonce `tweak`.
    pub open spec fn initial(tweak: u32) -> FilterStateView {
        FilterStateView {
            filter: FilterView::empty(
                DEFAULT_BITMAP_BYTES as nat,
                DEFAULT_ITEM_COUNT as nat,
                tweak,
            ),
            dirty: false,
        }
    }

    /// The state after `item` was added with the nonce `tweak`: a new filter
    /// that holds this item and no other.
    pub open spec fn with_item(item: Seq<u8>, tweak: u32) -> FilterStateView {
        FilterStateView {
            filter: FilterView::empty(
                ITEM_FILTER_BITMAP_BYTES as nat,
                ITEM_FILTER_ITEM_COUNT as nat,
                tweak,
            ).inserted(item),
            dirty: true,
        }
    }

    /// The state after the user asked to add `raw`: the one around the decoded
    /// item, or the same state where the text cannot be decoded.
    pub open spec fn added(self, raw: Seq<char>, address_payload: Option<Seq<u8>>, tweak: u32) -> FilterStateView {
        match item_bytes(raw, address_payload) {
            Some(item) => FilterStateView::with_item(item, tweak),
            None => self,
        }
    }
}

/// The current filter and its edits.
pub struct FilterState {
    filter: ProbabilisticFilter,
    dirty: bool,
}

impl View for FilterState {
    type V = FilterStateView;

    closed spec fn view(&self) -> FilterStateView {
        FilterStateView { filter: self.filter@, dirty: self.dirty }
    }
}

impl FilterState {
    /// The state is valid when its filter is.
    pub open spec fn wf(&self) -> bool {
        self@.filter.wf()
    }

    /// The state before any edit, with the nonce given.
    pub fn with_tweak(tweak: u32) -> (s: FilterState)
        ensures
            s.wf(),
            s@ == FilterStateView::initial(tweak),
    {
        FilterState {
            filter: ProbabilisticFilter::fresh(DEFAULT_BITMAP_BYTES, DEFAULT_ITEM_COUNT, tweak),
            dirty: false,
        }
    }

    /// The state before any edit, with a nonce drawn at random.
    pub fn new() -> (s: FilterState)
        ensures
            s.wf(),
            s@ == FilterStateView::initial(s@.filter.tweak),
    {
        FilterState::with_tweak(random_tweak())
    }

    /// The current filter.
    pub fn filter(&self) -> (f: &ProbabilisticFilter)
        ensures
            f@ == self@.filter,
    {
        &self.filter
    }

    /// Whether an item was added since the last reset.
    pub fn is_dirty(&self) -> (d: bool)
        ensures
            d == self@.dirty,
    {
        self.dirty
    }

    /// Replaces the filter by one that holds the decoded item alone, under the
    /// nonce given. Where the text cannot be decoded the state stays as it is
    /// and the error is `DecodeError`.
    pub fn add_item_with_tweak(
        &mut self,
        raw: &str,
        address_payload: Option<Vec<u8>>,
        tweak: u32,
    ) -> (r: Result<(), Error>)
        requires
            old(self).wf(),
            raw@.len() <= u32::MAX,
            address_payload matches Some(payload) ==> payload@.len() <= u32::MAX,
        ensures
            final(self).wf(),
            final(self)@ == old(self)@.added(raw@, vec_view(address_payload), tweak),
            r is Ok <==> item_bytes(raw@, vec_view(address_payload)) is Some,
            r matches Err(e) ==> e == Error::DecodeError,
    {
        match decode_item(raw, address_payload) {
            Ok(item) => {
                let mut filter = ProbabilisticFilter::fresh(
                    ITEM_FILTER_BITMAP_BYTES,
                    ITEM_FILTER_ITEM_COUNT,
                    tweak,
                );
                filter.insert(item.as_slice());
                self.filter = filter;
                self.dirty = true;
                Ok(())
            },
            Err(e) => Err(e),
        }
    }

    /// As [`FilterState::add_item_with_tweak`], with a nonce drawn at random.
    pub fn add_item(&mut self, raw: &str, address_payload: Option<Vec<u8>>) -> (r: Result<(), Error>)
        requires
            old(self).wf(),
            raw@.len() <= u32::MAX,
            address_payload matches Some(payload) ==> payload@.len() <= u32::MAX,
        ensures
            final(self).wf(),
            exists|tweak: u32|
                final(self)@ == #[trigger] old(self)@.added(raw@, vec_view(address_payload), tweak),
            r is Ok <==> item_bytes(raw@, vec_view(address_payload)) is Some,
            r matches Err(e) ==> e == Error::DecodeError,
    {
        let tweak = random_tweak();
        self.add_item_with_tweak(raw, address_payload, tweak)
    }

    /// Replaces the filter by an empty one of the default size, under the nonce
    /// given, and forgets that items were added.
    pub fn reset_with_tweak(&mut self, tweak: u32)
        ensures
            final(self).wf(),
            final(self)@ == FilterStateView::initial(tweak),
    {
        self.filter = ProbabilisticFilter::fresh(DEFAULT_BITMAP_BYTES, DEFAULT_ITEM_COUNT, tweak);
        self.dirty = false;
    }

    /// As [`FilterState::reset_with_tweak`], with a nonce drawn at random.
    pub fn reset(&mut self)
        ensures
            final(self).wf(),
            final(self)@ == FilterStateView::initial(final(self)@.filter.tweak),
    {
        self.reset_with_tweak(random_tweak());
    }

    /// A copy of the current filter's wire form, which later edits do not reach.
    pub fn snapshot(&self) -> (w: WireFilter)
        ensures
            w@ == self@.filter.wire(),
    {
        self.filter.to_wire_form()
    }
}

} // verus!
