use vstd::prelude::*;
use crate::object::Object;
use crate::semantics::{env_assign, env_of, find, lemma_find_view, value_of};

verus! {

/// The index of the latest binding of `name`, searching from the top of the stack.
pub open spec fn latest_binding<'a>(s: Seq<(String, Object<'a>)>, name: Seq<char>) -> Option<int>
    decreases s.len(),
{
    if s.len() == 0 {
        None
    } else if s.last().0@ == name {
        Some(s.len() - 1)
    } else {
        latest_binding(s.drop_last(), name)
    }
}

proof fn lemma_latest_binding_bounds<'a>(s: Seq<(String, Object<'a>)>, name: Seq<char>)
    ensures
        latest_binding(s, name) matches Some(i) ==> 0 <= i < s.len() && s[i].0@ == name,
    decreases s.len(),
{
    if s.len() > 0 && s.last().0@ != name {
        lemma_latest_binding_bounds(s.drop_last(), name);
    }
}

/// A stack of name/value bindings, in order of insertion. A scope is the
/// stack's length when it was entered; leaving it truncates back to that length.
#[derive(Clone, Debug)]
pub struct Environment<'a> {
    bindings: Vec<(String, Object<'a>)>,
}

impl<'a> View for Environment<'a> {
    type V = Seq<(String, Object<'a>)>;

    closed spec fn view(&self) -> Seq<(String, Object<'a>)> {
        self.bindings@
    }
}

impl<'a> Environment<'a> {
    pub fn new() -> (r: Environment<'a>)
        ensures
            r@ == Seq::<(String, Object<'a>)>::empty(),
    {
        Environment { bindings: Vec::new() }
    }

    pub fn size(&self) -> (r: usize)
        ensures
            r == self@.len(),
    {
        self.bindings.len()
    }

    /// Drops every binding above the first `size`.
    pub fn truncate(&mut self, size: usize)
        ensures
            size <= old(self)@.len() ==> env_of(final(self)@) == env_of(old(self)@).subrange(0, size as int),
            size <= old(self)@.len() ==> final(self)@ == old(self)@.subrange(0, size as int),
            size > old(self)@.len() ==> final(self)@ == old(self)@,
    {
        self.bindings.truncate(size);
        assert(size <= old(self)@.len() ==> env_of(self@) =~= env_of(old(self)@).subrange(0, size as int));
    }

    /// Pushes a new binding of `identifier` on top of the stack, shadowing any
    /// other binding of the same name until the scope is left.
    pub fn bind(&mut self, identifier: &String, object: Object<'a>)
        ensures
            final(self)@ == old(self)@.push((final(self)@.last().0, object)),
            final(self)@.last().0@ == identifier@,
            env_of(final(self)@) == env_of(old(self)@).push((identifier@, value_of(object))),
    {
        self.bindings.push((identifier.clone(), object));
        assert(env_of(self@) =~= env_of(old(self)@).push((identifier@, value_of(object))));
    }

    /// Overwrites the latest binding of `identifier`, or pushes a new one
    /// where there is none.
    pub fn set(&mut self, identifier: &String, object: Object<'a>)
        ensures
            match latest_binding(old(self)@, identifier@) {
                Some(i) => final(self)@.len() == old(self)@.len() && final(self)@[i].0@ == identifier@
                    && final(self)@ == old(self)@.update(i, (final(self)@[i].0, object)),
                None => final(self)@.len() == old(self)@.len() + 1
                    && final(self)@.drop_last() == old(self)@
                    && final(self)@.last().0@ == identifier@
                    && final(self)@.last().1 == object,
            },
            env_of(final(self)@) == env_assign(env_of(old(self)@), identifier@, value_of(object)),
    {
        proof {
            lemma_find_view(self@, identifier@);
        }
        match self.position(identifier) {
            Some(i) => {
                proof {
                    lemma_latest_binding_bounds(self@, identifier@);
                }
                let name = self.bindings[i].0.clone();
                self.bindings.set(i, (name, object));
                assert(env_of(self@) =~= env_of(old(self)@).update(i as int, (identifier@, value_of(object))));
            },
            None => {
                self.bindings.push((identifier.clone(), object));
                assert(self.bindings@.drop_last() =~= old(self)@);
                assert(env_of(self@) =~= env_of(old(self)@).push((identifier@, value_of(object))));
            },
        }
    }

    /// The index of the latest binding of `identifier`.
    fn position(&self, identifier: &String) -> (r: Option<usize>)
        ensures
            r matches Some(i) ==> latest_binding(self@, identifier@) == Some(i as int),
            r is None ==> latest_binding(self@, identifier@) is None,
    {
        let mut i: usize = self.bindings.len();
        assert(self.bindings@.subrange(0, i as int) =~= self.bindings@);
        while i > 0
            invariant
                i <= self.bindings@.len(),
                latest_binding(self.bindings@, identifier@)
                    == latest_binding(self.bindings@.subrange(0, i as int), identifier@),
            decreases i,
        {
            let ghost prefix = self.bindings@.subrange(0, i as int);
            assert(prefix.drop_last() =~= self.bindings@.subrange(0, i - 1));
            if self.bindings[i - 1].0.eq(identifier) {
                return Some(i - 1);
            }
            i = i - 1;
        }
        None
    }

    /// The value of the latest binding of `identifier`.
    pub fn get(&self, identifier: &String) -> (r: Option<&Object<'a>>)
        ensures
            match latest_binding(self@, identifier@) {
                Some(i) => r == Some(&self@[i].1),
                None => r is None,
            },
            match find(env_of(self@), identifier@) {
                Some(i) => r is Some && value_of(*r->0) == env_of(self@)[i].1,
                None => r is None,
            },
    {
        proof {
            lemma_find_view(self@, identifier@);
        }
        match self.position(identifier) {
            Some(i) => {
                proof {
                    lemma_latest_binding_bounds(self@, identifier@);
                }
                Some(&self.bindings[i].1)
            },
            None => None,
        }
    }
}

} // verus!
