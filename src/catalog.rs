use vstd::prelude::*;

verus! {

/// A named list of choices with one current selection.
pub struct ChooserTable<T> {
    names: Vec<String>,
    choices: Vec<T>,
    current: usize,
}

impl<T: Copy> ChooserTable<T> {
    pub closed spec fn names_spec(&self) -> Seq<String> {
        self.names@
    }

    pub closed spec fn choices_spec(&self) -> Seq<T> {
        self.choices@
    }

    pub closed spec fn current_spec(&self) -> nat {
        self.current as nat
    }

    pub open spec fn wf(&self) -> bool {
        &&& self.names_spec().len() == self.choices_spec().len()
        &&& self.current_spec() < self.choices_spec().len()
    }

    /// The entry under the current selection.
    pub open spec fn current_choice_spec(&self) -> T {
        self.choices_spec()[self.current_spec() as int]
    }

    /// A table of the given entries, with the first one selected.
    pub fn new(names: Vec<String>, choices: Vec<T>) -> (r: ChooserTable<T>)
        requires
            names@.len() == choices@.len(),
            choices@.len() > 0,
        ensures
            r.wf(),
            r.names_spec() == names@,
            r.choices_spec() == choices@,
            r.current_spec() == 0,
    {
        ChooserTable { names, choices, current: 0 }
    }

    pub fn len(&self) -> (r: usize)
        ensures
            r == self.choices_spec().len(),
    {
        self.choices.len()
    }

    pub fn name(&self, i: usize) -> (r: &String)
        requires
            self.wf(),
            i < self.choices_spec().len(),
        ensures
            *r == self.names_spec()[i as int],
    {
        &self.names[i]
    }

    pub fn choice_index(&self) -> (r: usize)
        ensures
            r == self.current_spec(),
    {
        self.current
    }

    pub fn current_choice(&self) -> (r: T)
        requires
            self.wf(),
        ensures
            r == self.current_choice_spec(),
    {
        self.choices[self.current]
    }

    /// Selects entry `index`; an index past the end leaves the selection
    /// as it was.
    pub fn select(&mut self, index: usize)
        requires
            old(self).wf(),
        ensures
            final(self).wf(),
            final(self).names_spec() == old(self).names_spec(),
            final(self).choices_spec() == old(self).choices_spec(),
            final(self).current_spec() == if index < old(self).choices_spec().len() {
                index as nat
            } else {
                old(self).current_spec()
            },
    {
        if index < self.choices.len() {
            self.current = index;
        }
    }
}

} // verus!
