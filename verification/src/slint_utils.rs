//! A list of elements that a window shows, read back by index.
use vstd::prelude::*;

verus! {

/// The elements shown in a list of a window. The list is held by value,
/// so that what a read gives back is stated exactly; windows that share one
/// list hold it behind an `Rc<RefCell<_>>` of their own.
pub struct ClonableModel<T> {
    elements: Vec<T>,
}

impl<T> View for ClonableModel<T> {
    type V = Seq<T>;

    closed spec fn view(&self) -> Seq<T> {
        self.elements@
    }
}

impl<T: Clone> ClonableModel<T> {
    /// A list showing `elements`.
    pub fn new(elements: Vec<T>) -> (r: Self)
        ensures
            r@ == elements@,
    {
        ClonableModel { elements }
    }

    /// Shows `new_elements` in place of the elements shown.
    pub fn set_model(&mut self, new_elements: Vec<T>)
        ensures
            final(self)@ == new_elements@,
    {
        self.elements = new_elements;
    }

    /// A copy of the element at `index` (a row number of the window's
    /// list), which must be a row of the list.
    pub fn get_from_idx(&self, index: i32) -> (r: T)
        requires
            0 <= index < self@.len(),
        ensures
            cloned(self@[index as int], r),
    {
        self.elements[index as usize].clone()
    }
}

/// The row (as a window's list numbers them) of the first item for which
/// `predicate` holds; none when no item matches or the first match's row
/// does not fit in an `i32`.
pub fn find_index<T, F: Fn(&T) -> bool>(items: &Vec<T>, predicate: F) -> (r: Option<i32>)
    requires
        forall|i: int| 0 <= i < items@.len() ==> #[trigger] predicate.requires((&items@[i],)),
    ensures
        r matches Some(k) ==> 0 <= k < items@.len() && predicate.ensures((&items@[k as int],), true)
            && forall|j: int| 0 <= j < k ==> #[trigger] predicate.ensures((&items@[j],), false),
        r is None ==> forall|j: int| 0 <= j < items@.len() && j <= i32::MAX ==> #[trigger] predicate.ensures((&items@[j],), false),
{
    let mut i: usize = 0;
    while i < items.len()
        invariant
            i <= items@.len(),
            forall|k: int| 0 <= k < items@.len() ==> #[trigger] predicate.requires((&items@[k],)),
            forall|j: int| 0 <= j < i ==> #[trigger] predicate.ensures((&items@[j],), false),
        decreases items.len() - i,
    {
        let found = predicate(&items[i]);
        if found {
            if i <= 2147483647 {
                return Some(i as i32);
            }
            return None;
        }
        i = i + 1;
    }
    None
}

} // verus!
