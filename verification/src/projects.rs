//! The list of project names the application tracks time against. The list
//! itself is plain data; reading it from disk and writing it back is the
//! surrounding application's concern.

use vstd::prelude::*;

use crate::text::str_eq;

verus! {

/// The project names, in the order they were added.
#[derive(Debug)]
pub struct Projects(pub Vec<String>);

impl View for Projects {
    type V = Seq<String>;

    /// The list is modelled as the sequence of its names.
    open spec fn view(&self) -> Seq<String> {
        self.0@
    }
}

/// Keeping a name means it differs from the one being removed.
pub open spec fn keeps(project: Seq<char>) -> spec_fn(String) -> bool {
    |p: String| p@ != project
}

impl Projects {
    /// An empty project list.
    pub fn new() -> (r: Self)
        ensures
            r@ == Seq::<String>::empty(),
    {
        Projects(Vec::new())
    }

    /// A project list holding exactly the given names.
    pub fn from_vec(names: Vec<String>) -> (r: Self)
        ensures
            r@ == names@,
    {
        Projects(names)
    }

    /// How many projects there are.
    pub fn len(&self) -> (r: usize)
        ensures
            r == self@.len(),
    {
        self.0.len()
    }

    /// Whether no project exists yet.
    pub fn is_empty(&self) -> (r: bool)
        ensures
            r == (self@.len() == 0),
    {
        self.len() == 0
    }

    /// The name at `idx`, or `None` past the end.
    pub fn get(&self, idx: usize) -> (r: Option<&String>)
        ensures
            match r {
                Some(name) => idx < self@.len() && *name == self@[idx as int],
                None => idx >= self@.len(),
            },
    {
        if idx < self.0.len() {
            Some(&self.0[idx])
        } else {
            None
        }
    }

    /// The names, in order, for a caller that walks them.
    pub fn iter(&self) -> (r: &Vec<String>)
        ensures
            r@ == self@,
    {
        &self.0
    }

    /// Add a project at the end of the list. Duplicates are kept: the list
    /// is what the user entered.
    pub fn add(&mut self, project: String)
        ensures
            final(self)@ == old(self)@.push(project),
    {
        self.0.push(project);
    }

    /// Remove every project of the given name, keeping the others in order.
    pub fn remove(&mut self, project: &str)
        ensures
            final(self)@ == old(self)@.filter(keeps(project@)),
    {
        let ghost pred = keeps(project@);
        let mut out: Vec<String> = Vec::new();
        let n = self.0.len();
        let mut i: usize = 0;
        proof {
            assert(old(self)@.subrange(0, 0).filter(pred) =~= Seq::<String>::empty());
        }
        while i < n
            invariant
                pred == keeps(project@),
                i <= n,
                n == self.0@.len(),
                self.0@ == old(self)@,
                out@ == old(self)@.subrange(0, i as int).filter(pred),
            decreases n - i,
        {
            let ghost done = old(self)@.subrange(0, i as int);
            let ghost elem = self.0@[i as int];
            if !str_eq(self.0[i].as_str(), project) {
                proof {
                    assert(pred(elem));
                }
                out.push(self.0[i].clone());
                proof {
                    assert(out@ == done.filter(pred).push(elem));
                }
            } else {
                proof {
                    assert(!pred(elem));
                }
            }
            proof {
                done.lemma_filter_push(elem, pred);
                assert(old(self)@.subrange(0, i + 1 as int) =~= done.push(elem));
                assert(out@ == done.push(elem).filter(pred));
            }
            i = i + 1;
        }
        proof {
            assert(old(self)@.subrange(0, n as int) =~= old(self)@);
        }
        self.0 = out;
    }
}

} // verus!
