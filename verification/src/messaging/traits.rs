//! What the messaging adapters share.
use vstd::prelude::*;

verus! {

/// A message from platform history used for backfilling channel context.
pub struct HistoryMessage {
    pub author: String,
    pub content: String,
    pub is_bot: bool,
}

/// What a [`HistoryMessage`] says.
pub struct HistoryView {
    pub author: Seq<char>,
    pub content: Seq<char>,
    pub is_bot: bool,
}

impl View for HistoryMessage {
    type V = HistoryView;

    open spec fn view(&self) -> HistoryView {
        HistoryView { author: self.author@, content: self.content@, is_bot: self.is_bot }
    }
}

/// What a list of history messages says.
pub open spec fn history_views(v: Seq<HistoryMessage>) -> Seq<HistoryView> {
    Seq::new(v.len(), |i: int| v[i]@)
}

} // verus!
