//! The material registry: the one owner of a scene's materials.
//!
//! Materials are kept in the order in which they came, each under a name
//! that no other has. An object refers to its material by a handle, the
//! material's place in the registry.

use vstd::prelude::*;
use crate::material::{MaterialView, RenderMaterial};

verus! {

/// No two materials have the same name.
pub open spec fn names_distinct(s: Seq<MaterialView>) -> bool {
    forall|i: int, j: int| 0 <= i < j < s.len() ==> s[i].name != s[j].name
}

/// The place of the material called `name`, the first if there are several.
pub open spec fn find_name(s: Seq<MaterialView>, name: Seq<char>) -> Option<int>
    decreases s.len(),
{
    if s.len() == 0 {
        None
    } else {
        match find_name(s.drop_last(), name) {
            Some(i) => Some(i),
            None => if s.last().name == name {
                Some(s.len() - 1)
            } else {
                None
            },
        }
    }
}

/// The materials after `m` came in: in the place of the one that had its
/// name, or at the end if none had.
pub open spec fn inserted(s: Seq<MaterialView>, m: MaterialView) -> Seq<MaterialView> {
    match find_name(s, m.name) {
        Some(i) => s.update(i, m),
        None => s.push(m),
    }
}

/// The registry that results from inserting `mats` one after the other.
pub open spec fn registry_of(mats: Seq<MaterialView>) -> Seq<MaterialView>
    decreases mats.len(),
{
    if mats.len() == 0 {
        Seq::empty()
    } else {
        inserted(registry_of(mats.drop_last()), mats.last())
    }
}

/// `find_name` gives the first place that holds the name, and `None` only
/// where no place does.
pub proof fn lemma_find_name(s: Seq<MaterialView>, name: Seq<char>)
    ensures
        match find_name(s, name) {
            Some(i) => 0 <= i < s.len() && s[i].name == name && forall|j: int|
                0 <= j < i ==> s[j].name != name,
            None => forall|j: int| 0 <= j < s.len() ==> s[j].name != name,
        },
    decreases s.len(),
{
    if s.len() > 0 {
        let front = s.drop_last();
        lemma_find_name(front, name);
        assert(forall|j: int| 0 <= j < front.len() ==> front[j] == s[j]);
    }
}

/// A place that holds the name, with no earlier one that does, is what
/// `find_name` gives.
pub proof fn lemma_find_name_is(s: Seq<MaterialView>, name: Seq<char>, i: int)
    requires
        0 <= i < s.len(),
        s[i].name == name,
        forall|j: int| 0 <= j < i ==> s[j].name != name,
    ensures
        find_name(s, name) == Some(i),
{
    lemma_find_name(s, name);
}

/// Inserting keeps the names distinct.
pub proof fn lemma_inserted_distinct(s: Seq<MaterialView>, m: MaterialView)
    requires
        names_distinct(s),
    ensures
        names_distinct(inserted(s, m)),
{
    lemma_find_name(s, m.name);
}

/// The names of a registry built by inserting are distinct.
pub proof fn lemma_registry_distinct(mats: Seq<MaterialView>)
    ensures
        names_distinct(registry_of(mats)),
    decreases mats.len(),
{
    if mats.len() > 0 {
        lemma_registry_distinct(mats.drop_last());
        lemma_inserted_distinct(registry_of(mats.drop_last()), mats.last());
    }
}

/// Materials whose names are distinct make a registry that holds them as
/// they came.
pub proof fn lemma_registry_of_distinct(mats: Seq<MaterialView>)
    requires
        names_distinct(mats),
    ensures
        registry_of(mats) == mats,
    decreases mats.len(),
{
    if mats.len() > 0 {
        let front = mats.drop_last();
        lemma_registry_of_distinct(front);
        lemma_find_name(front, mats.last().name);
        assert(front.push(mats.last()) =~= mats);
    } else {
        assert(mats =~= Seq::empty());
    }
}

/// The materials of a scene, each under its own name.
#[derive(Debug)]
pub struct MaterialRegistry {
    items: Vec<RenderMaterial>,
}

impl View for MaterialRegistry {
    type V = Seq<MaterialView>;

    closed spec fn view(&self) -> Seq<MaterialView> {
        Seq::new(self.items@.len(), |i: int| self.items@[i]@)
    }
}

impl Clone for MaterialRegistry {
    fn clone(&self) -> (r: MaterialRegistry)
        ensures
            r@ == self@,
    {
        let mut items: Vec<RenderMaterial> = Vec::new();
        let mut i: usize = 0;
        while i < self.items.len()
            invariant
                i <= self.items@.len(),
                items@.len() == i,
                forall|j: int| 0 <= j < i ==> items@[j]@ == self.items@[j]@,
            decreases self.items@.len() - i,
        {
            items.push(self.items[i].clone());
            i = i + 1;
        }
        let r = MaterialRegistry { items };
        assert(r@ =~= self@);
        r
    }
}

impl MaterialRegistry {
    /// The registry is well formed: no name occurs twice.
    pub open spec fn wf(&self) -> bool {
        names_distinct(self@)
    }

    /// An empty registry.
    pub fn new() -> (r: MaterialRegistry)
        ensures
            r@ == Seq::<MaterialView>::empty(),
            r.wf(),
    {
        assert(Seq::new(0, |i: int| Seq::<RenderMaterial>::empty()[i]@) =~= Seq::<
            MaterialView,
        >::empty());
        MaterialRegistry { items: Vec::new() }
    }

    /// Tells whether the registry is well formed.
    pub fn is_wf(&self) -> (r: bool)
        ensures
            r == self.wf(),
    {
        let mut j: usize = 0;
        while j < self.items.len()
            invariant
                j <= self.items@.len(),
                forall|a: int, b: int| 0 <= a < b < j ==> self@[a].name != self@[b].name,
            decreases self.items@.len() - j,
        {
            let mut i: usize = 0;
            while i < j
                invariant
                    i <= j < self.items@.len(),
                    forall|a: int| 0 <= a < i ==> self@[a].name != self@[j as int].name,
                decreases j - i,
            {
                let name: String = self.items[j].get_name().to_owned();
                if self.items[i].is_named(&name) {
                    assert(self@[i as int].name == self@[j as int].name);
                    return false;
                }
                i = i + 1;
            }
            j = j + 1;
        }
        true
    }

    pub fn len(&self) -> (n: usize)
        ensures
            n == self@.len(),
    {
        self.items.len()
    }

    /// The material behind a handle.
    pub fn get(&self, handle: usize) -> (m: &RenderMaterial)
        requires
            handle < self@.len(),
        ensures
            m@ == self@[handle as int],
    {
        &self.items[handle]
    }

    /// The handle of the material called `name`.
    pub fn find(&self, name: &String) -> (r: Option<usize>)
        ensures
            match r {
                Some(h) => find_name(self@, name@) == Some(h as int),
                None => find_name(self@, name@).is_none(),
            },
    {
        let mut i: usize = 0;
        while i < self.items.len()
            invariant
                i <= self.items@.len(),
                forall|j: int| 0 <= j < i ==> self@[j].name != name@,
            decreases self.items@.len() - i,
        {
            if self.items[i].is_named(name) {
                proof {
                    lemma_find_name_is(self@, name@, i as int);
                }
                return Some(i);
            }
            i = i + 1;
        }
        proof {
            lemma_find_name(self@, name@);
        }
        None
    }

    /// Puts a material into the registry and returns its handle. A material
    /// of the same name is replaced and its handle stays; a new name goes
    /// to the end.
    pub fn insert(&mut self, material: RenderMaterial) -> (handle: usize)
        ensures
            final(self)@ == inserted(old(self)@, material@),
            handle < final(self)@.len(),
            final(self)@[handle as int] == material@,
            match find_name(old(self)@, material@.name) {
                Some(i) => handle == i,
                None => handle == old(self)@.len(),
            },
            old(self).wf() ==> final(self).wf(),
    {
        proof {
            lemma_find_name(self@, material@.name);
            if self.wf() {
                lemma_inserted_distinct(self@, material@);
            }
        }
        let name: String = material.get_name().to_owned();
        let ghost before = self@;
        match self.find(&name) {
            Some(h) => {
                let ghost after = self.items@.update(h as int, material);
                assert(Seq::new(after.len(), |i: int| after[i]@) =~= inserted(before, material@));
                self.items.set(h, material);
                h
            },
            None => {
                let h: usize = self.items.len();
                let ghost after = self.items@.push(material);
                assert(Seq::new(after.len(), |i: int| after[i]@) =~= inserted(before, material@));
                self.items.push(material);
                h
            },
        }
    }
}

} // verus!
