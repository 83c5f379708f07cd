//! The namespace of a module under evaluation, and `load_symbols`, the
//! built-in that binds names into it from outside the script's own
//! assignments.
//!
//! Values are opaque here: a binding holds the handle under which the
//! evaluator keeps the value, and this module never looks behind it.
//!
//! A name that is bound twice keeps the later value, whether the earlier
//! binding came from an assignment or from `load_symbols`.

use crate::text::same_text;
use starlark::collections::SmallMap;
use vstd::prelude::*;

verus! {

/// `starlark::collections::SmallMap`, a map that hands its entries out in a
/// fixed order.  Opaque here.
#[verifier::external_type_specification]
#[verifier::external_body]
#[verifier::reject_recursive_types(K)]
#[verifier::reject_recursive_types(V)]
pub struct ExSmallMap<K, V>(SmallMap<K, V>);

/// The entries of a symbol map, each name with its handle, in the order in
/// which the map hands them out.
pub uninterp spec fn symbol_entries(symbols: SmallMap<String, u64>) -> Seq<(Seq<char>, u64)>;

/// The view of a run of entries.
pub open spec fn entries_view(entries: Seq<(String, u64)>) -> Seq<(Seq<char>, u64)> {
    entries.map_values(|entry: (String, u64)| (entry.0@, entry.1))
}

/// Walks a `starlark::collections::SmallMap` with `into_iter` and collects
/// what it yields.
///
/// Trusted: the entries come out as [`symbol_entries`] names them.
#[verifier::external_body]
fn into_entries(symbols: SmallMap<String, u64>) -> (entries: Vec<(String, u64)>)
    ensures
        entries_view(entries@) == symbol_entries(symbols),
{
    symbols.into_iter().collect()
}

/// The bindings that result from binding `entries` into `bindings`, first to
/// last.
pub open spec fn bind_each(bindings: Map<Seq<char>, u64>, entries: Seq<(Seq<char>, u64)>) -> Map<
    Seq<char>,
    u64,
>
    decreases entries.len(),
{
    if entries.len() == 0 {
        bindings
    } else {
        bind_each(bindings, entries.drop_last()).insert(entries.last().0, entries.last().1)
    }
}

/// Binding no entries changes nothing.
pub proof fn lemma_no_entries_bind_nothing(bindings: Map<Seq<char>, u64>)
    ensures
        bind_each(bindings, Seq::empty()) == bindings,
{
}

/// Binding a run of entries of which none is named `name` leaves `name` as
/// it was.
pub proof fn lemma_unnamed_untouched(
    bindings: Map<Seq<char>, u64>,
    entries: Seq<(Seq<char>, u64)>,
    name: Seq<char>,
)
    requires
        forall|j: int| 0 <= j < entries.len() ==> (#[trigger] entries[j]).0 != name,
    ensures
        bind_each(bindings, entries).contains_key(name) == bindings.contains_key(name),
        bindings.contains_key(name) ==> bind_each(bindings, entries)[name] == bindings[name],
    decreases entries.len(),
{
    if entries.len() > 0 {
        let rest = entries.drop_last();
        assert forall|j: int| 0 <= j < rest.len() implies (#[trigger] rest[j]).0 != name by {
            assert(rest[j] == entries[j]);
        }
        lemma_unnamed_untouched(bindings, rest, name);
        assert(entries.last() == entries[entries.len() - 1]);
    }
}

/// The last entry of a name decides the value that the name is bound to.
pub proof fn lemma_last_entry_wins(
    bindings: Map<Seq<char>, u64>,
    entries: Seq<(Seq<char>, u64)>,
    i: int,
)
    requires
        0 <= i < entries.len(),
        forall|j: int| i < j < entries.len() ==> (#[trigger] entries[j]).0 != entries[i].0,
    ensures
        bind_each(bindings, entries).contains_key(entries[i].0),
        bind_each(bindings, entries)[entries[i].0] == entries[i].1,
    decreases entries.len(),
{
    let rest = entries.drop_last();
    if i < entries.len() - 1 {
        assert forall|j: int| i < j < rest.len() implies (#[trigger] rest[j]).0 != rest[i].0 by {
            assert(rest[j] == entries[j]);
        }
        lemma_last_entry_wins(bindings, rest, i);
        assert(entries.last() == entries[entries.len() - 1]);
    }
}

/// Replacing the value of the last entry of a name binds the name anew and
/// changes nothing else.
pub proof fn lemma_rebind_last_entry(
    bindings: Map<Seq<char>, u64>,
    entries: Seq<(Seq<char>, u64)>,
    i: int,
    value: u64,
)
    requires
        0 <= i < entries.len(),
        forall|j: int| i < j < entries.len() ==> (#[trigger] entries[j]).0 != entries[i].0,
    ensures
        bind_each(bindings, entries.update(i, (entries[i].0, value))) == bind_each(
            bindings,
            entries,
        ).insert(entries[i].0, value),
    decreases entries.len(),
{
    let name = entries[i].0;
    let updated = entries.update(i, (name, value));
    let rest = entries.drop_last();
    if i == entries.len() - 1 {
        assert(updated.drop_last() =~= rest);
        assert(bind_each(bindings, updated) =~= bind_each(bindings, entries).insert(name, value));
    } else {
        assert forall|j: int| i < j < rest.len() implies (#[trigger] rest[j]).0 != rest[i].0 by {
            assert(rest[j] == entries[j]);
        }
        lemma_rebind_last_entry(bindings, rest, i, value);
        assert(updated.drop_last() =~= rest.update(i, (name, value)));
        assert(updated.last() == entries.last());
        assert(entries.last() == entries[entries.len() - 1]);
        assert(bind_each(bindings, updated) =~= bind_each(bindings, entries).insert(name, value));
    }
}

/// Binding one more entry after a run is binding the longer run.
pub proof fn lemma_bind_one_more(
    bindings: Map<Seq<char>, u64>,
    entries: Seq<(Seq<char>, u64)>,
    name: Seq<char>,
    value: u64,
)
    ensures
        bind_each(bindings, entries.push((name, value))) == bind_each(bindings, entries).insert(
            name,
            value,
        ),
{
    assert(entries.push((name, value)).drop_last() =~= entries);
}

/// A name could not be bound because its module had finished evaluating.
#[derive(Debug, Clone, PartialEq, Eq)]
pub struct BindingError {
    /// The name that was to be bound.
    pub name: String,
}

/// The names bound in one module, each with the handle of its value.
///
/// The namespace is mutable while its module is being evaluated and is
/// closed for good by [`ModuleNamespace::finish`].
pub struct ModuleNamespace {
    slots: Vec<(String, u64)>,
    mutable: bool,
}

impl ModuleNamespace {
    /// The bindings, as a map from name to handle.
    pub closed spec fn bindings(&self) -> Map<Seq<char>, u64> {
        bind_each(Map::empty(), entries_view(self.slots@))
    }

    /// Whether the module is still being evaluated.
    pub closed spec fn is_mutable(&self) -> bool {
        self.mutable
    }

    /// The namespace of a module whose evaluation begins: mutable, and
    /// without bindings.
    pub fn new() -> (module: Self)
        ensures
            module.is_mutable(),
            module.bindings() == Map::<Seq<char>, u64>::empty(),
    {
        ModuleNamespace { slots: Vec::new(), mutable: true }
    }

    /// Whether the module is still being evaluated.
    pub fn mutable(&self) -> (b: bool)
        ensures
            b == self.is_mutable(),
    {
        self.mutable
    }

    /// Ends the module's evaluation.  The bindings stay and can no longer
    /// change.
    pub fn finish(&mut self)
        ensures
            !final(self).is_mutable(),
            final(self).bindings() == old(self).bindings(),
    {
        self.mutable = false;
    }

    /// The position of the last slot named `name`, if there is one.
    fn find(&self, name: &str) -> (found: Option<usize>)
        ensures
            match found {
                Some(i) => {
                    &&& i < self.slots@.len()
                    &&& self.slots@[i as int].0@ == name@
                    &&& forall|j: int|
                        i < j < self.slots@.len() ==> (#[trigger] self.slots@[j]).0@ != name@
                },
                None => forall|j: int|
                    0 <= j < self.slots@.len() ==> (#[trigger] self.slots@[j]).0@ != name@,
            },
    {
        let mut i: usize = self.slots.len();
        while i > 0
            invariant
                i <= self.slots@.len(),
                forall|j: int|
                    i <= j < self.slots@.len() ==> (#[trigger] self.slots@[j]).0@ != name@,
            decreases i,
        {
            i -= 1;
            if same_text(self.slots[i].0.as_str(), name) {
                return Some(i);
            }
        }
        None
    }

    /// The handle that `name` is bound to, if it is bound.
    pub fn get(&self, name: &str) -> (handle: Option<u64>)
        ensures
            handle == if self.bindings().contains_key(name@) {
                Some(self.bindings()[name@])
            } else {
                None
            },
    {
        let ghost entries = entries_view(self.slots@);
        match self.find(name) {
            Some(i) => {
                proof {
                    assert forall|j: int| i < j < entries.len() implies (#[trigger] entries[j]).0
                        != entries[i as int].0 by {
                        assert(entries[j].0 == self.slots@[j].0@);
                    }
                    lemma_last_entry_wins(Map::empty(), entries, i as int);
                }
                Some(self.slots[i].1)
            },
            None => {
                proof {
                    assert forall|j: int| 0 <= j < entries.len() implies (#[trigger] entries[j]).0
                        != name@ by {
                        assert(entries[j].0 == self.slots@[j].0@);
                    }
                    lemma_unnamed_untouched(Map::empty(), entries, name@);
                }
                None
            },
        }
    }

    /// The bindings as a run of entries, for whoever takes the module over
    /// once it has been evaluated: binding them in turn into an empty
    /// namespace gives the bindings of this one.
    pub fn entries(&self) -> (entries: Vec<(String, u64)>)
        ensures
            bind_each(Map::empty(), entries_view(entries@)) == self.bindings(),
    {
        let mut entries: Vec<(String, u64)> = Vec::new();
        let mut i: usize = 0;
        while i < self.slots.len()
            invariant
                i <= self.slots@.len(),
                entries_view(entries@) == entries_view(self.slots@).take(i as int),
            decreases self.slots@.len() - i,
        {
            let name = self.slots[i].0.clone();
            let handle: u64 = self.slots[i].1;
            proof {
                let all = entries_view(self.slots@);
                assert(name@ == all[i as int].0 && handle == all[i as int].1);
                assert(all.take(i + 1) =~= all.take(i as int).push(all[i as int]));
                assert(entries_view(entries@.push((name, handle))) =~= entries_view(
                    entries@,
                ).push((name@, handle)));
            }
            entries.push((name, handle));
            i += 1;
        }
        assert(entries_view(self.slots@).take(i as int) =~= entries_view(self.slots@));
        entries
    }

    /// Binds `name` to `value`.  A name that is already bound is bound anew.
    ///
    /// Fails, and changes nothing, when the module has finished evaluating.
    pub fn bind(&mut self, name: &str, value: u64) -> (r: Result<(), BindingError>)
        ensures
            final(self).is_mutable() == old(self).is_mutable(),
            old(self).is_mutable() ==> r is Ok && final(self).bindings() == old(
                self,
            ).bindings().insert(name@, value),
            !old(self).is_mutable() ==> final(self).bindings() == old(self).bindings() && (
            r matches Err(e) && e.name@ == name@),
    {
        if !self.mutable {
            return Err(BindingError { name: name.to_owned() });
        }
        let ghost before = entries_view(self.slots@);
        match self.find(name) {
            Some(i) => {
                self.slots[i].1 = value;
                proof {
                    assert forall|j: int| i < j < before.len() implies (#[trigger] before[j]).0
                        != before[i as int].0 by {
                        assert(before[j].0 == old(self).slots@[j].0@);
                    }
                    lemma_rebind_last_entry(Map::empty(), before, i as int, value);
                    assert(entries_view(self.slots@) =~= before.update(i as int, (name@, value)));
                }
            },
            None => {
                self.slots.push((name.to_owned(), value));
                proof {
                    lemma_bind_one_more(Map::empty(), before, name@, value);
                    assert(entries_view(self.slots@) =~= before.push((name@, value)));
                }
            },
        }
        Ok(())
    }
}

/// What [`bind_all`] and [`load_symbols`] owe: the state of the module after
/// the call and the result, for the module before the call and the entries.
pub open spec fn loaded(
    before: ModuleNamespace,
    entries: Seq<(Seq<char>, u64)>,
    after: ModuleNamespace,
    r: Result<(), BindingError>,
) -> bool {
    &&& after.is_mutable() == before.is_mutable()
    &&& if before.is_mutable() {
        &&& r is Ok
        &&& after.bindings() == bind_each(before.bindings(), entries)
    } else {
        &&& after.bindings() == before.bindings()
        &&& if entries.len() == 0 {
            r is Ok
        } else {
            r matches Err(e) && e.name@ == entries[0].0
        }
    }
}

/// Binds each entry into `module`, first to last.
///
/// In a module that has finished evaluating the first entry fails the call
/// and nothing is bound; without entries there is nothing to fail.
pub fn bind_all(entries: Vec<(String, u64)>, module: &mut ModuleNamespace) -> (r: Result<
    (),
    BindingError,
>)
    ensures
        loaded(*old(module), entries_view(entries@), *final(module), r),
{
    let ghost all = entries_view(entries@);
    let mut i: usize = 0;
    while i < entries.len()
        invariant
            i <= entries@.len(),
            all == entries_view(entries@),
            module.is_mutable() == old(module).is_mutable(),
            old(module).is_mutable() ==> module.bindings() == bind_each(
                old(module).bindings(),
                all.take(i as int),
            ),
            !old(module).is_mutable() ==> i == 0 && module.bindings() == old(module).bindings(),
        decreases entries@.len() - i,
    {
        match module.bind(entries[i].0.as_str(), entries[i].1) {
            Err(e) => {
                return Err(e);
            },
            Ok(()) => {},
        }
        proof {
            assert(all.take(i + 1) =~= all.take(i as int).push(all[i as int]));
            lemma_bind_one_more(
                old(module).bindings(),
                all.take(i as int),
                all[i as int].0,
                all[i as int].1,
            );
        }
        i += 1;
    }
    assert(all.take(i as int) =~= all);
    Ok(())
}

/// Binds the symbols of `symbols` into the module that is being evaluated,
/// in the order in which the map hands them out.
///
/// The symbols are meant for the modules that load this one later; a
/// module should not read them in the pass that binds them, nor bind a name
/// that it also assigns.  Where it does, the later binding wins.
pub fn load_symbols(symbols: SmallMap<String, u64>, module: &mut ModuleNamespace) -> (r: Result<
    (),
    BindingError,
>)
    ensures
        loaded(*old(module), symbol_entries(symbols), *final(module), r),
{
    bind_all(into_entries(symbols), module)
}

} // verus!
