use vstd::prelude::*;

verus! {

/// A sequence of elements of which one is selected. A selector stands for
/// its selected element: dereferencing it reads or writes that element in
/// place.
pub struct Selector<T> {
    elements: Vec<T>,
    current: usize,
}

/// What a [`Selector`] holds: its elements, and the index of the selected
/// one.
pub struct SelectorView<T> {
    pub elements: Seq<T>,
    pub current: int,
}

impl<T> SelectorView<T> {
    /// The index of the selected element is one of the elements' indices.
    pub open spec fn valid(self) -> bool {
        0 <= self.current < self.elements.len()
    }

    /// The selected element.
    pub open spec fn selected(self) -> T {
        self.elements[self.current]
    }

    /// The same elements with the one at `index` selected.
    pub open spec fn select(self, index: int) -> SelectorView<T> {
        SelectorView { elements: self.elements, current: index }
    }

    /// The selector once `value` has been written through it: `value` stands
    /// where the selected element stood.
    pub open spec fn write(self, value: T) -> SelectorView<T> {
        SelectorView { elements: self.elements.update(self.current, value), current: self.current }
    }
}

impl<T> View for Selector<T> {
    type V = SelectorView<T>;

    closed spec fn view(&self) -> SelectorView<T> {
        SelectorView { elements: self.elements@, current: self.current as int }
    }
}

impl<T> Selector<T> {
    /// Every selector selects one of its elements, so that reading and
    /// writing through it never fails.
    #[verifier::type_invariant]
    spec fn in_range(&self) -> bool {
        self.current < self.elements.len()
    }

    /// A selector over `elements` with the element at `current` selected.
    pub fn new(elements: Vec<T>, current: usize) -> (selector: Selector<T>)
        requires
            current < elements@.len(),
        ensures
            selector@ == (SelectorView { elements: elements@, current: current as int }),
            selector@.valid(),
    {
        Selector { elements, current }
    }

    /// The index of the selected element.
    pub fn current(&self) -> (index: usize)
        ensures
            index == self@.current,
            self@.valid(),
    {
        proof {
            use_type_invariant(self);
        }
        self.current
    }

    /// All the elements, in their order.
    pub fn elements(&self) -> (elements: &Vec<T>)
        ensures
            elements@ == self@.elements,
    {
        &self.elements
    }

    /// Gives up the selector for its elements.
    pub fn into_elements(self) -> (elements: Vec<T>)
        ensures
            elements@ == self@.elements,
    {
        self.elements
    }

    /// Selects the element at `index`.
    pub fn select(&mut self, index: usize)
        requires
            index < old(self)@.elements.len(),
        ensures
            final(self)@ == old(self)@.select(index as int),
            final(self)@.valid(),
    {
        self.current = index;
    }
}

impl<T> std::ops::Deref for Selector<T> {
    type Target = T;

    /// The selected element.
    fn deref(&self) -> (element: &T)
        ensures
            self@.valid(),
            *element == self@.selected(),
    {
        proof {
            use_type_invariant(self);
        }
        &self.elements[self.current]
    }
}

impl<T> std::ops::DerefMut for Selector<T> {
    /// The selected element, to be written in place: what the caller leaves
    /// in it is what the selector holds at that index afterwards.
    fn deref_mut(&mut self) -> (element: &mut T)
        ensures
            old(self)@.valid(),
            *element == old(self)@.selected(),
            final(self)@ == old(self)@.write(*final(element)),
    {
        proof {
            use_type_invariant(&*self);
        }
        &mut self.elements[self.current]
    }
}

/// What is written through a selector is what is read afterwards, through it
/// or through any selector over the same elements, and no other element
/// changes.
pub proof fn lemma_write_is_visible<T>(selector: SelectorView<T>, value: T, index: int)
    requires
        selector.valid(),
        0 <= index < selector.elements.len(),
    ensures
        selector.write(value).valid(),
        selector.write(value).selected() == value,
        selector.write(value).elements.len() == selector.elements.len(),
        index == selector.current ==> selector.write(value).select(index).selected() == value,
        index != selector.current ==> selector.write(value).select(index).selected()
            == selector.elements[index],
{
}

} // verus!
