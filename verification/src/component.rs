//! Components: named capabilities that can be attached to a person.
//!
//! A [`ComponentContainer`] stores at most one component per identifier and
//! behaves, as far as its contracts are concerned, like a finite map from
//! identifiers to boxed components.
use vstd::prelude::*;

verus! {

/// A capability that can be attached to a person.
///
/// Every component names itself through [`Component::identifier`]; the
/// container files it under that name.
pub trait Component {
    /// Returns the unique identifier of this component type.
    fn identifier(&self) -> &str;
}

/// The map that parallel runs of identifiers and components stand for: each
/// identifier to the component beside it.
pub open spec fn map_of<C: ?Sized>(keys: Seq<Seq<char>>, comps: Seq<Box<C>>) -> Map<
    Seq<char>,
    Box<C>,
>
    decreases keys.len(),
{
    if keys.len() == 0 {
        Map::empty()
    } else {
        map_of(keys.drop_last(), comps.take(keys.len() - 1)).insert(
            keys.last(),
            comps[keys.len() - 1],
        )
    }
}

/// No identifier occurs twice.
pub open spec fn distinct(keys: Seq<Seq<char>>) -> bool {
    forall|i: int, j: int|
        0 <= i < keys.len() && 0 <= j < keys.len() && i != j ==> #[trigger] keys[i]
            != #[trigger] keys[j]
}

/// The map of distinct identifiers: its domain is the set of the identifiers,
/// each maps to the component beside it, and it has one key per identifier.
pub proof fn lemma_map_of<C: ?Sized>(keys: Seq<Seq<char>>, comps: Seq<Box<C>>)
    requires
        distinct(keys),
        keys.len() == comps.len(),
    ensures
        map_of(keys, comps).dom().finite(),
        map_of(keys, comps).dom().len() == keys.len(),
        forall|k: Seq<char>|
            #[trigger] map_of(keys, comps).contains_key(k) <==> exists|i: int|
                0 <= i < keys.len() && keys[i] == k,
        forall|i: int| 0 <= i < keys.len() ==> #[trigger] map_of(keys, comps)[keys[i]] == comps[i],
    decreases keys.len(),
{
    if keys.len() > 0 {
        let n = keys.len() - 1;
        let pk = keys.drop_last();
        let pc = comps.take(n);
        assert forall|i: int, j: int|
            0 <= i < pk.len() && 0 <= j < pk.len() && i != j implies #[trigger] pk[i]
            != #[trigger] pk[j] by {
            assert(pk[i] == keys[i]);
            assert(pk[j] == keys[j]);
        }
        lemma_map_of(pk, pc);
        assert(!map_of(pk, pc).contains_key(keys[n])) by {
            if map_of(pk, pc).contains_key(keys[n]) {
                let i = choose|i: int| 0 <= i < pk.len() && pk[i] == keys[n];
                assert(keys[i] == keys[n]);
            }
        }
        assert forall|k: Seq<char>|
            #[trigger] map_of(keys, comps).contains_key(k) <==> exists|i: int|
                0 <= i < keys.len() && keys[i] == k by {
            if map_of(keys, comps).contains_key(k) && k != keys[n] {
                let i = choose|i: int| 0 <= i < pk.len() && pk[i] == k;
                assert(keys[i] == k);
            }
            if exists|i: int| 0 <= i < keys.len() && keys[i] == k {
                let i = choose|i: int| 0 <= i < keys.len() && keys[i] == k;
                if i < n {
                    assert(pk[i] == keys[i]);
                }
            }
        }
        assert forall|i: int| 0 <= i < keys.len() implies #[trigger] map_of(keys, comps)[keys[i]]
            == comps[i] by {
            if i < n {
                assert(pk[i] == keys[i]);
                assert(pc[i] == comps[i]);
                assert(keys[i] != keys[n]);
            }
        }
    }
}

/// Replacing the component beside a distinct identifier replaces that
/// identifier's entry in the map and nothing else.
pub broadcast proof fn lemma_map_of_update<C: ?Sized>(
    keys: Seq<Seq<char>>,
    comps: Seq<Box<C>>,
    i: int,
    b: Box<C>,
)
    requires
        distinct(keys),
        keys.len() == comps.len(),
        0 <= i < keys.len(),
    ensures
        #[trigger] map_of(keys, comps.update(i, b)) == map_of(keys, comps).insert(keys[i], b),
{
    let c2 = comps.update(i, b);
    lemma_map_of(keys, comps);
    lemma_map_of(keys, c2);
    assert forall|k: Seq<char>| #[trigger] map_of(keys, c2).contains_key(k) implies map_of(keys, c2)[k]
        == map_of(keys, comps).insert(keys[i], b)[k] by {
        let j = choose|j: int| 0 <= j < keys.len() && keys[j] == k;
        assert(map_of(keys, c2)[keys[j]] == c2[j]);
        assert(map_of(keys, comps)[keys[j]] == comps[j]);
    }
    assert(map_of(keys, c2) =~= map_of(keys, comps).insert(keys[i], b));
}

/// Storage for the components of one person, at most one per identifier.
pub struct ComponentContainer<C: Component + ?Sized = dyn Component> {
    keys: Vec<String>,
    comps: Vec<Box<C>>,
}

impl<C: Component + ?Sized> View for ComponentContainer<C> {
    type V = Map<Seq<char>, Box<C>>;

    closed spec fn view(&self) -> Map<Seq<char>, Box<C>> {
        map_of(self.key_seq(), self.comps@)
    }
}

impl<C: Component + ?Sized> ComponentContainer<C> {
    /// The stored identifiers, in storage order.
    closed spec fn key_seq(&self) -> Seq<Seq<char>> {
        self.keys@.map_values(|k: String| k@)
    }

    #[verifier::type_invariant]
    spec fn well_formed(self) -> bool {
        &&& self.keys@.len() == self.comps@.len()
        &&& distinct(self.key_seq())
    }

    /// Position of `key` among the identifiers, if it is there.
    fn position(&self, key: &String) -> (pos: Option<usize>)
        ensures
            match pos {
                Some(i) => i < self.keys@.len() && self.key_seq()[i as int] == key@,
                None => forall|i: int|
                    0 <= i < self.keys@.len() ==> #[trigger] self.key_seq()[i] != key@,
            },
    {
        let n = self.keys.len();
        let mut i: usize = 0;
        while i < n
            invariant
                n == self.keys@.len(),
                i <= n,
                forall|j: int| 0 <= j < i ==> #[trigger] self.key_seq()[j] != key@,
            decreases n - i,
        {
            if self.keys[i] == *key {
                return Some(i);
            }
            i = i + 1;
        }
        None
    }

    /// Moves the stored identifiers and components out, leaving `self` empty.
    fn take_parts(&mut self) -> (parts: (Vec<String>, Vec<Box<C>>))
        ensures
            parts.0@ == old(self).keys@,
            parts.1@ == old(self).comps@,
            final(self)@ == Map::<Seq<char>, Box<C>>::empty(),
    {
        let mut taken = ComponentContainer::new();
        std::mem::swap(self, &mut taken);
        let ComponentContainer { keys, comps } = taken;
        (keys, comps)
    }

    /// Creates an empty container.
    pub fn new() -> (c: Self)
        ensures
            c@ == Map::<Seq<char>, Box<C>>::empty(),
    {
        ComponentContainer { keys: Vec::new(), comps: Vec::new() }
    }

    /// Files `component` under the identifier it reports, replacing and handing
    /// back any component stored under that identifier before. When the
    /// component reports one identifier consistently, that is the identifier a
    /// caller reads from it.
    pub fn add_component(&mut self, component: Box<C>) -> (previous: Option<Box<C>>)
        ensures
            exists|id: &str|
                {
                    &&& call_ensures(C::identifier, (&*component,), id)
                    &&& final(self)@ == old(self)@.insert(id@, component)
                    &&& previous == (if old(self)@.contains_key(id@) {
                        Some(old(self)@[id@])
                    } else {
                        None
                    })
                },
            (forall|a: &str, b: &str|
                #![trigger call_ensures(C::identifier, (&*component,), a), call_ensures(C::identifier, (&*component,), b)]
                call_ensures(C::identifier, (&*component,), a) && call_ensures(
                    C::identifier,
                    (&*component,),
                    b,
                ) ==> a@ == b@) ==> forall|id: &str|
                #[trigger] call_ensures(C::identifier, (&*component,), id) ==> {
                    &&& final(self)@ == old(self)@.insert(id@, component)
                    &&& previous == (if old(self)@.contains_key(id@) {
                        Some(old(self)@[id@])
                    } else {
                        None
                    })
                },
    {
        let reported = component.identifier();
        let id = String::from_str(reported);
        let previous = self.insert_component(id, component);
        proof {
            assert(call_ensures(C::identifier, (&*component,), reported));
        }
        previous
    }

    /// Files `component` under `identifier`, replacing and handing back any
    /// component stored under `identifier` before.
    pub fn insert_component(&mut self, identifier: String, component: Box<C>) -> (previous: Option<Box<C>>)
        ensures
            final(self)@ == old(self)@.insert(identifier@, component),
            previous == (if old(self)@.contains_key(identifier@) {
                Some(old(self)@[identifier@])
            } else {
                None
            }),
    {
        proof {
            use_type_invariant(&*self);
            lemma_map_of(self.key_seq(), self.comps@);
        }
        let ghost key = identifier@;
        let id = identifier;
        let ghost ks = self.key_seq();
        let ghost cs = self.comps@;
        match self.position(&id) {
            Some(i) => {
                let (keys, mut comps) = self.take_parts();
                let old_component = comps.remove(i);
                comps.insert(i, component);
                proof {
                    assert(comps@ =~= cs.update(i as int, component));
                }
                *self = ComponentContainer { keys, comps };
                proof {
                    assert(self.key_seq() == ks);
                    lemma_map_of(ks, self.comps@);
                    assert forall|k2: Seq<char>| #[trigger] self@.contains_key(k2) implies self@[k2]
                        == old(self)@.insert(key, component)[k2] by {
                        let j = choose|j: int| 0 <= j < ks.len() && ks[j] == k2;
                        assert(self@[ks[j]] == self.comps@[j]);
                        assert(old(self)@[ks[j]] == cs[j]);
                    }
                    assert(self@ =~= old(self)@.insert(key, component));
                }
                Some(old_component)
            },
            None => {
                let (mut keys, mut comps) = self.take_parts();
                keys.push(id);
                comps.push(component);
                let ghost new_ks = keys@.map_values(|k: String| k@);
                proof {
                    assert(new_ks =~= ks.push(key));
                    assert(new_ks.drop_last() =~= ks);
                    assert(comps@.take(ks.len() as int) =~= cs);
                    assert(distinct(new_ks)) by {
                        assert forall|a: int, b: int|
                            0 <= a < new_ks.len() && 0 <= b < new_ks.len() && a != b implies #[trigger] new_ks[a]
                            != #[trigger] new_ks[b] by {
                            if a < ks.len() && b < ks.len() {
                                assert(new_ks[a] == ks[a]);
                                assert(new_ks[b] == ks[b]);
                            }
                        }
                    }
                }
                *self = ComponentContainer { keys, comps };
                proof {
                    assert(self.key_seq() == new_ks);
                    assert(!old(self)@.contains_key(key));
                }
                None
            },
        }
    }

    /// Returns the component filed under `identifier`, if any.
    pub fn get_component(&self, identifier: &str) -> (found: Option<&C>)
        ensures
            found is Some <==> self@.contains_key(identifier@),
            found matches Some(c) ==> c == &*self@[identifier@],
    {
        proof {
            use_type_invariant(self);
            lemma_map_of(self.key_seq(), self.comps@);
        }
        let key = String::from_str(identifier);
        match self.position(&key) {
            Some(i) => Some(&*self.comps[i]),
            None => None,
        }
    }

    /// Returns the component filed under `identifier` for modification, if any.
    pub fn get_component_mut(&mut self, identifier: &str) -> (found: Option<&mut C>)
        ensures
            found is Some <==> old(self)@.contains_key(identifier@),
            found is None ==> final(self)@ == old(self)@,
            found matches Some(c) ==> {
                &&& &*c == &*old(self)@[identifier@]
                &&& final(self)@.dom() == old(self)@.dom()
                &&& &*final(self)@[identifier@] == &*final(c)
                &&& forall|k: Seq<char>|
                    k != identifier@ && #[trigger] old(self)@.contains_key(k) ==> final(self)@[k]
                        == old(self)@[k]
            },
    {
        proof {
            use_type_invariant(&*self);
            lemma_map_of(self.key_seq(), self.comps@);
        }
        broadcast use lemma_map_of_update;
        let key = String::from_str(identifier);
        match self.position(&key) {
            Some(i) => Some(&mut *self.comps[i]),
            None => None,
        }
    }

    /// Removes and returns the component filed under `identifier`, if any.
    pub fn remove_component(&mut self, identifier: &str) -> (removed: Option<Box<C>>)
        ensures
            final(self)@ == old(self)@.remove(identifier@),
            removed == (if old(self)@.contains_key(identifier@) {
                Some(old(self)@[identifier@])
            } else {
                None
            }),
    {
        proof {
            use_type_invariant(&*self);
            lemma_map_of(self.key_seq(), self.comps@);
        }
        let key = String::from_str(identifier);
        let ghost ks = self.key_seq();
        let ghost cs = self.comps@;
        match self.position(&key) {
            Some(i) => {
                let (mut keys, mut comps) = self.take_parts();
                let _k = keys.remove(i);
                let component = comps.remove(i);
                let ghost new_ks = keys@.map_values(|k: String| k@);
                proof {
                    assert(new_ks =~= ks.remove(i as int));
                    assert(distinct(new_ks)) by {
                        assert forall|a: int, b: int|
                            0 <= a < new_ks.len() && 0 <= b < new_ks.len() && a != b implies #[trigger] new_ks[a]
                            != #[trigger] new_ks[b] by {
                            let a2 = if a < i { a } else { a + 1 };
                            let b2 = if b < i { b } else { b + 1 };
                            assert(new_ks[a] == ks[a2]);
                            assert(new_ks[b] == ks[b2]);
                        }
                    }
                }
                *self = ComponentContainer { keys, comps };
                proof {
                    assert(self.key_seq() == new_ks);
                    lemma_map_of(new_ks, self.comps@);
                    assert forall|k2: Seq<char>| #[trigger] self@.contains_key(k2)
                        <==> old(self)@.remove(identifier@).contains_key(k2) by {
                        if self@.contains_key(k2) {
                            let j = choose|j: int| 0 <= j < new_ks.len() && new_ks[j] == k2;
                            let j2 = if j < i { j } else { j + 1 };
                            assert(ks[j2] == k2);
                        }
                        if old(self)@.contains_key(k2) && k2 != identifier@ {
                            let j = choose|j: int| 0 <= j < ks.len() && ks[j] == k2;
                            let j2 = if j < i { j } else { j - 1 };
                            assert(new_ks[j2] == k2);
                        }
                    }
                    assert forall|k2: Seq<char>| #[trigger] self@.contains_key(k2) implies self@[k2]
                        == old(self)@.remove(identifier@)[k2] by {
                        let j = choose|j: int| 0 <= j < new_ks.len() && new_ks[j] == k2;
                        let j2 = if j < i { j } else { j + 1 };
                        assert(self@[new_ks[j]] == self.comps@[j]);
                        assert(old(self)@[ks[j2]] == cs[j2]);
                    }
                    assert(self@ =~= old(self)@.remove(identifier@));
                }
                Some(component)
            },
            None => {
                proof {
                    assert(old(self)@.remove(identifier@) =~= old(self)@);
                }
                None
            },
        }
    }

    /// Whether a component is filed under `identifier`.
    pub fn has_component(&self, identifier: &str) -> (present: bool)
        ensures
            present == self@.contains_key(identifier@),
    {
        proof {
            use_type_invariant(self);
            lemma_map_of(self.key_seq(), self.comps@);
        }
        let key = String::from_str(identifier);
        self.position(&key).is_some()
    }

    /// Number of components stored.
    pub fn count(&self) -> (n: usize)
        ensures
            n == self@.len(),
    {
        proof {
            use_type_invariant(self);
            lemma_map_of(self.key_seq(), self.comps@);
        }
        self.keys.len()
    }

    /// The identifiers of the stored components, each once.
    pub fn identifiers(&self) -> (ids: Vec<&str>)
        ensures
            ids@.len() == self@.len(),
            forall|i: int, j: int|
                0 <= i < ids@.len() && 0 <= j < ids@.len() && i != j ==> #[trigger] ids@[i]@
                    != #[trigger] ids@[j]@,
            forall|k: Seq<char>|
                self@.contains_key(k) <==> exists|i: int|
                    0 <= i < ids@.len() && #[trigger] ids@[i]@ == k,
    {
        proof {
            use_type_invariant(self);
            lemma_map_of(self.key_seq(), self.comps@);
        }
        let n = self.keys.len();
        let mut ids: Vec<&str> = Vec::new();
        let mut i: usize = 0;
        while i < n
            invariant
                n == self.keys@.len(),
                i <= n,
                ids@.len() == i,
                forall|j: int| 0 <= j < i ==> #[trigger] ids@[j]@ == self.key_seq()[j],
            decreases n - i,
        {
            ids.push(self.keys[i].as_str());
            i = i + 1;
        }
        proof {
            let ks = self.key_seq();
            assert forall|a: int, b: int|
                0 <= a < ids@.len() && 0 <= b < ids@.len() && a != b implies #[trigger] ids@[a]@
                != #[trigger] ids@[b]@ by {
                assert(ids@[a]@ == ks[a]);
                assert(ids@[b]@ == ks[b]);
            }
            assert forall|k: Seq<char>|
                self@.contains_key(k) <==> exists|i: int|
                    0 <= i < ids@.len() && #[trigger] ids@[i]@ == k by {
                if self@.contains_key(k) {
                    let j = choose|j: int| 0 <= j < ks.len() && ks[j] == k;
                    assert(ids@[j]@ == k);
                }
                if exists|i: int| 0 <= i < ids@.len() && #[trigger] ids@[i]@ == k {
                    let j = choose|j: int| 0 <= j < ids@.len() && #[trigger] ids@[j]@ == k;
                    assert(ks[j] == k);
                }
            }
        }
        ids
    }

    /// Removes every component.
    pub fn clear(&mut self)
        ensures
            final(self)@ == Map::<Seq<char>, Box<C>>::empty(),
    {
        *self = ComponentContainer::new();
    }
}

/// Filing a component under an identifier: the container then has it, hands
/// it back for that identifier, and counts one more component exactly when
/// the identifier was new.
pub proof fn law_insert_then_get<C: Component + ?Sized>(
    before: Map<Seq<char>, Box<C>>,
    id: Seq<char>,
    component: Box<C>,
)
    requires
        before.dom().finite(),
    ensures
        ({
            let after = before.insert(id, component);
            &&& after.contains_key(id)
            &&& after[id] == component
            &&& after.len() == if before.contains_key(id) {
                before.len()
            } else {
                before.len() + 1
            }
        }),
{
    if before.contains_key(id) {
        assert(before.insert(id, component).dom() =~= before.dom());
    }
}

/// Removing an identifier leaves no component under it and every other
/// component where it was.
pub proof fn law_remove_then_absent<C: Component + ?Sized>(
    before: Map<Seq<char>, Box<C>>,
    identifier: Seq<char>,
    other: Seq<char>,
)
    requires
        other != identifier,
    ensures
        !before.remove(identifier).contains_key(identifier),
        before.remove(identifier).contains_key(other) == before.contains_key(other),
        before.contains_key(other) ==> before.remove(identifier)[other] == before[other],
{
}

/// Filing a component under a new identifier and removing it again gives back
/// the container as it was.
pub proof fn law_insert_remove_round_trip<C: Component + ?Sized>(
    before: Map<Seq<char>, Box<C>>,
    id: Seq<char>,
    component: Box<C>,
)
    requires
        !before.contains_key(id),
    ensures
        before.insert(id, component).remove(id) == before,
{
    assert(before.insert(id, component).remove(id) =~= before);
}

impl<C: Component + ?Sized> Default for ComponentContainer<C> {
    fn default() -> (c: Self)
        ensures
            c@ == Map::<Seq<char>, Box<C>>::empty(),
    {
        ComponentContainer::new()
    }
}

impl<C: Component + Clone> Clone for ComponentContainer<C> {
    /// A container with the same identifiers, each filed with a clone of the
    /// component stored under it here.
    fn clone(&self) -> (copy: Self)
        ensures
            copy@.dom() == self@.dom(),
            forall|k: Seq<char>| #[trigger] self@.contains_key(k) ==> cloned(*self@[k], *copy@[k]),
    {
        proof {
            use_type_invariant(self);
        }
        let n = self.keys.len();
        let mut keys: Vec<String> = Vec::new();
        let mut comps: Vec<Box<C>> = Vec::new();
        let mut i: usize = 0;
        while i < n
            invariant
                n == self.keys@.len(),
                n == self.comps@.len(),
                i <= n,
                keys@.len() == i,
                comps@.len() == i,
                forall|j: int| 0 <= j < i ==> #[trigger] keys@[j]@ == self.keys@[j]@,
                forall|j: int| 0 <= j < i ==> cloned(*self.comps@[j], *#[trigger] comps@[j]),
            decreases n - i,
        {
            keys.push(self.keys[i].clone());
            comps.push(self.comps[i].clone());
            i = i + 1;
        }
        let ghost ks = keys@.map_values(|k: String| k@);
        proof {
            assert(ks =~= self.key_seq());
        }
        let copy = ComponentContainer { keys, comps };
        proof {
            lemma_map_of(ks, copy.comps@);
            lemma_map_of(ks, self.comps@);
            assert(copy@.dom() =~= self@.dom());
            assert forall|k: Seq<char>| #[trigger] self@.contains_key(k) implies cloned(*self@[k], *copy@[k]) by {
                let j = choose|j: int| 0 <= j < ks.len() && ks[j] == k;
                assert(self@[ks[j]] == self.comps@[j]);
                assert(copy@[ks[j]] == copy.comps@[j]);
            }
        }
        copy
    }
}

} // verus!
