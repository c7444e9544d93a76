use vstd::prelude::*;

verus! {

/// One item of a character class: a single code point, an ascending
/// range of code points, or a named class such as `w` or `d`.
#[derive(Debug)]
pub enum ClassItem {
    Char(char),
    Range(char, char),
    Named(String),
}

impl ClassItem {
    /// True when a range is ascending; always true for the other items.
    pub open spec fn wf(self) -> bool {
        match self {
            ClassItem::Range(lo, hi) => lo <= hi,
            _ => true,
        }
    }
}

impl Clone for ClassItem {
    fn clone(&self) -> (r: Self)
        ensures
            r == *self,
    {
        match self {
            ClassItem::Char(c) => ClassItem::Char(*c),
            ClassItem::Range(lo, hi) => ClassItem::Range(*lo, *hi),
            ClassItem::Named(name) => ClassItem::Named(name.clone()),
        }
    }
}

/// A set of code points, ranges and named classes, possibly negated.
#[derive(Debug)]
pub struct CharClass {
    pub negated: bool,
    pub items: Vec<ClassItem>,
}

impl CharClass {
    /// True when every range in the class is ascending.
    pub open spec fn wf(self) -> bool {
        forall|i: int| 0 <= i < self.items@.len() ==> (#[trigger] self.items@[i]).wf()
    }

    /// True when the class is negated, as in `![w]`.
    pub fn is_negated(&self) -> (r: bool)
        ensures
            r == self.negated,
    {
        self.negated
    }

    /// The same class with the negation flag flipped.
    pub fn negate(self) -> (r: Self)
        ensures
            r.negated == !self.negated,
            r.items == self.items,
    {
        CharClass { negated: !self.negated, items: self.items }
    }

    /// Appends all items of `other` to this class; the negation flag of
    /// this class is kept.
    pub fn add_all(&mut self, other: CharClass)
        ensures
            final (self).negated == old(self).negated,
            final (self).items@ == old(self).items@ + other.items@,
    {
        let mut other = other;
        self.items.append(&mut other.items);
    }
}

impl Default for CharClass {
    /// The empty, non-negated class.
    fn default() -> (r: Self)
        ensures
            r.negated == false,
            r.items@ == Seq::<ClassItem>::empty(),
    {
        CharClass { negated: false, items: Vec::new() }
    }
}

} // verus!
