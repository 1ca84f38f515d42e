use vstd::prelude::*;

verus! {

/// What a selector menu's handling of one input asks of its caller.
#[derive(Debug, Copy, Clone, PartialEq, Eq, Structural)]
pub enum SelectorMenuTickResult {
    /// Nothing further needs to happen.
    Normal,
    /// The user selected the hovered item with the EXE key.
    Selected,
    /// The user dismissed the menu with the LIST key.
    Cancelled,
}

/// An item of a selector menu, which may carry a value to hand back when it is chosen.
///
/// `has_inner` says whether the item carries such a value.
pub trait SelectorMenuItem {
    type Inner;

    spec fn has_inner(&self) -> bool;

    spec fn inner_value(&self) -> Self::Inner;

    fn inner(&self) -> (r: &Self::Inner)
        requires
            self.has_inner(),
        ensures
            *r == self.inner_value(),
    ;

    fn into_inner(self) -> (r: Self::Inner)
        requires
            self.has_inner(),
        ensures
            r == self.inner_value(),
    ;
}

/// A menu of items, one of which is hovered for selection.
///
/// `item_list` and `hovered` are the menu's items and the index of the hovered one.
pub trait SelectorMenu where Self: Sized {
    type Item: SelectorMenuItem;

    spec fn item_list(&self) -> Seq<Self::Item>;

    spec fn hovered(&self) -> int;

    fn selected_index(&self) -> (r: usize)
        ensures
            r == self.hovered(),
    ;

    fn items(&self) -> (r: &Vec<Self::Item>)
        ensures
            r@ == self.item_list(),
    ;

    fn into_items(self) -> (r: Vec<Self::Item>)
        ensures
            r@ == self.item_list(),
    ;

    /// The item hovered for selection.
    fn selected(&self) -> (r: &Self::Item)
        requires
            0 <= self.hovered() < self.item_list().len(),
        ensures
            *r == self.item_list()[self.hovered()],
    {
        let i = self.selected_index();
        let items = self.items();
        &items[i]
    }

    /// Consumes the menu and gives back the item hovered for selection.
    fn into_selected(self) -> (r: Self::Item)
        requires
            0 <= self.hovered() < self.item_list().len(),
        ensures
            r == self.item_list()[self.hovered()],
    {
        let index = self.selected_index();
        let mut items = self.into_items();
        items.remove(index)
    }
}

} // verus!
