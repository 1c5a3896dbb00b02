//! A growing sequence of items with a writing end.

use vstd::prelude::*;

verus! {

/// What a stream holds: the items written so far, and whether more may follow.
#[verifier::ext_equal]
pub struct StreamView<T> {
    pub items: Seq<T>,
    pub open: bool,
}

/// A sequence of items that is written item by item and closed at the end.
#[derive(Debug, PartialEq, Eq)]
pub struct Stream<T> {
    items: Vec<T>,
    open: bool,
}

impl<T> View for Stream<T> {
    type V = StreamView<T>;

    closed spec fn view(&self) -> StreamView<T> {
        StreamView { items: self.items@, open: self.open }
    }
}

impl<T> Stream<T> {
    /// A stream that starts with `items` and can still be written to.
    pub fn new_open(items: Vec<T>) -> (stream: Stream<T>)
        ensures
            stream@ == (StreamView { items: items@, open: true }),
    {
        Stream { items, open: true }
    }

    /// Appends an item.
    pub fn push(&mut self, item: T)
        requires
            old(self)@.open,
        ensures
            final(self)@ == (StreamView { items: old(self)@.items.push(item), open: true }),
    {
        self.items.push(item);
    }

    /// Closes the stream, after a last item if one is given.
    pub fn close(&mut self, last: Option<T>)
        requires
            old(self)@.open,
        ensures
            final(self)@ == (StreamView {
                items: match last {
                    Some(item) => old(self)@.items.push(item),
                    None => old(self)@.items,
                },
                open: false,
            }),
    {
        if let Some(item) = last {
            self.items.push(item);
        }
        self.open = false;
    }

    /// Whether the stream can still be written to.
    pub fn is_open(&self) -> (open: bool)
        ensures
            open == self@.open,
    {
        self.open
    }

    /// The items written so far.
    pub fn items(&self) -> (items: &[T])
        ensures
            items@ == self@.items,
    {
        self.items.as_slice()
    }
}

} // verus!
