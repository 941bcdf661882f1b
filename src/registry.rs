//! The table from service name to handler, fixed when it is built.
use vstd::prelude::*;

verus! {

/// A service name registered more than once.
#[derive(Clone, Debug)]
pub enum RegistryError {
    DuplicateService(String),
}

/// Registered services, in registration order, with their handlers.
pub struct Registry<H> {
    entries: Vec<(String, H)>,
}

pub open spec fn entries_view<H>(s: Seq<(String, H)>) -> Seq<(Seq<char>, H)> {
    s.map_values(|e: (String, H)| (e.0@, e.1))
}

pub open spec fn names_unique<H>(s: Seq<(Seq<char>, H)>) -> bool {
    forall|i: int, j: int| 0 <= i < j < s.len() ==> #[trigger] s[i].0 != #[trigger] s[j].0
}

pub open spec fn has_service<H>(s: Seq<(Seq<char>, H)>, name: Seq<char>) -> bool {
    exists|i: int| 0 <= i < s.len() && #[trigger] s[i].0 == name
}

/// Where `name` is registered, if it is.
pub open spec fn service_index<H>(s: Seq<(Seq<char>, H)>, name: Seq<char>) -> int {
    choose|i: int| 0 <= i < s.len() && #[trigger] s[i].0 == name
}

impl<H> View for Registry<H> {
    type V = Seq<(Seq<char>, H)>;

    closed spec fn view(&self) -> Seq<(Seq<char>, H)> {
        entries_view(self.entries@)
    }
}

impl<H> Registry<H> {
    pub open spec fn wf(&self) -> bool {
        names_unique(self@)
    }

    /// Builds the registry; a name given twice is refused.
    pub fn new(entries: Vec<(String, H)>) -> (r: Result<Registry<H>, RegistryError>)
        ensures
            r is Ok <==> names_unique(entries_view(entries@)),
            r matches Ok(reg) ==> reg@ == entries_view(entries@) && reg.wf(),
            r matches Err(RegistryError::DuplicateService(name)) ==> exists|i: int, j: int|
                0 <= i < j < entries@.len() && entries@[i].0@ == name@ && entries@[j].0@
                    == name@,
    {
        let ghost v = entries_view(entries@);
        let mut i: usize = 0;
        while i < entries.len()
            invariant
                i <= entries@.len(),
                v == entries_view(entries@),
                forall|a: int, b: int| 0 <= a < b < i ==> #[trigger] v[a].0 != #[trigger] v[b].0,
            decreases entries@.len() - i,
        {
            let mut j: usize = 0;
            while j < i
                invariant
                    j <= i < entries@.len(),
                    v == entries_view(entries@),
                    forall|a: int| 0 <= a < j ==> #[trigger] v[a].0 != v[i as int].0,
                decreases i - j,
            {
                if entries[j].0 == entries[i].0 {
                    assert(v[j as int].0 == v[i as int].0);
                    return Err(RegistryError::DuplicateService(entries[i].0.clone()));
                }
                j = j + 1;
            }
            i = i + 1;
        }
        Ok(Registry { entries })
    }

    pub fn len(&self) -> (r: usize)
        ensures
            r == self@.len(),
    {
        self.entries.len()
    }

    /// The position of a registered name.
    fn position(&self, name: &String) -> (r: Option<usize>)
        requires
            self.wf(),
        ensures
            r is None <==> !has_service(self@, name@),
            r matches Some(i) ==> i == service_index(self@, name@) && i < self@.len(),
    {
        let mut i: usize = 0;
        while i < self.entries.len()
            invariant
                i <= self@.len(),
                self.wf(),
                forall|a: int| 0 <= a < i ==> #[trigger] self@[a].0 != name@,
            decreases self@.len() - i,
        {
            if self.entries[i].0 == *name {
                proof {
                    let k = service_index(self@, name@);
                    assert(self@[i as int].0 == name@);
                    assert(has_service(self@, name@));
                    if k != i {
                        if k < i {
                            assert(self@[k].0 != self@[i as int].0);
                        } else {
                            assert(self@[i as int].0 != self@[k].0);
                        }
                    }
                }
                return Some(i);
            }
            i = i + 1;
        }
        None
    }

    /// Takes out the entry registered under `name`, with its position, so
    /// that its handler can be called; `put_entry` puts it back.
    pub(crate) fn take_entry(&mut self, name: &String) -> (r: Option<(usize, String, H)>)
        requires
            old(self).wf(),
        ensures
            r is None <==> !has_service(old(self)@, name@),
            r is None ==> final(self)@ == old(self)@ && final(self).wf(),
            r matches Some((i, n, h)) ==> {
                &&& i == service_index(old(self)@, name@)
                &&& i < old(self)@.len()
                &&& n@ == old(self)@[i as int].0
                &&& h == old(self)@[i as int].1
                &&& final(self)@ == old(self)@.remove(i as int)
            },
    {
        match self.position(name) {
            None => None,
            Some(i) => {
                let (n, h) = self.entries.remove(i);
                proof {
                    assert(self@ =~= old(self)@.remove(i as int));
                }
                Some((i, n, h))
            },
        }
    }

    /// Puts an entry back at the position it was taken from.
    pub(crate) fn put_entry(&mut self, i: usize, name: String, h: H)
        requires
            i <= old(self)@.len(),
        ensures
            final(self)@ == old(self)@.insert(i as int, (name@, h)),
    {
        self.entries.insert(i, (name, h));
        proof {
            assert(self@ =~= old(self)@.insert(i as int, (name@, h)));
        }
    }

    /// The handler registered under `name`.
    pub fn lookup(&self, name: &String) -> (r: Option<&H>)
        requires
            self.wf(),
        ensures
            r is None <==> !has_service(self@, name@),
            r matches Some(h) ==> *h == self@[service_index(self@, name@)].1,
    {
        match self.position(name) {
            Some(i) => Some(&self.entries[i].1),
            None => None,
        }
    }
}

} // verus!
