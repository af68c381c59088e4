//! A titled list of options with one selected.

use vstd::prelude::*;

verus! {

/// Something a menu can list.
pub trait MenuItem {
    /// The text the menu shows for the item.
    fn format(&self) -> String;
}

/// A titled list of options; `selected` is the highlighted one.
#[derive(Debug)]
pub struct Menu<T> {
    pub title: String,
    pub options: Vec<T>,
    pub selected: usize,
}

pub struct MenuView<V> {
    pub title: Seq<char>,
    pub options: Seq<V>,
    pub selected: usize,
}

impl<T: View> View for Menu<T> {
    type V = MenuView<T::V>;

    open spec fn view(&self) -> MenuView<T::V> {
        MenuView {
            title: self.title@,
            options: self.options@.map_values(|o: T| o@),
            selected: self.selected,
        }
    }
}

impl<T: View> Menu<T> {
    /// An empty menu with no title.
    pub fn default() -> (r: Menu<T>)
        ensures
            r@.title == Seq::<char>::empty(),
            r@.options == Seq::<T::V>::empty(),
            r@.selected == 0,
    {
        let r = Menu { title: String::new(), options: Vec::new(), selected: 0 };
        assert(r@.options =~= Seq::<T::V>::empty());
        r
    }
}

} // verus!
