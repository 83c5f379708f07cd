//! The registry of built-in functions.
//!
//! Each subsystem of the host contributes a group of named functions.  The
//! registry lays the groups out in one flat namespace, built once when the
//! process starts and only read afterwards.  A name may be defined once: a
//! second definition fails the construction at once and is never dropped in
//! silence.
//!
//! A function is identified by its position in the flat namespace; the host
//! keeps the implementations in the same order.  Names are found by a linear
//! scan, which suits a namespace that is built once and holds a few hundred
//! names.

use crate::text::same_text;
use vstd::prelude::*;

verus! {

/// The characters of each string of a run.
pub open spec fn texts(strings: Seq<String>) -> Seq<Seq<char>> {
    strings.map_values(|s: String| s@)
}

/// Whether the name in slot `j` of `names` is already taken, by a registered
/// name or by an earlier slot of `names`.
pub open spec fn collides_at(registered: Seq<Seq<char>>, names: Seq<Seq<char>>, j: int) -> bool {
    registered.contains(names[j]) || names.take(j).contains(names[j])
}

/// Whether `names` can be registered after `registered`.
pub open spec fn collision_free(registered: Seq<Seq<char>>, names: Seq<Seq<char>>) -> bool {
    forall|j: int| 0 <= j < names.len() ==> !collides_at(registered, names, j)
}

/// Whether slot `j` is the first of `names` whose name is already taken.
pub open spec fn is_first_collision(
    registered: Seq<Seq<char>>,
    names: Seq<Seq<char>>,
    j: int,
) -> bool {
    &&& 0 <= j < names.len()
    &&& collides_at(registered, names, j)
    &&& forall|k: int| 0 <= k < j ==> !collides_at(registered, names, k)
}

/// The functions that one subsystem contributes.
#[derive(Debug, Clone, PartialEq, Eq)]
pub struct BuiltinGroup {
    /// The subsystem, for error messages.
    pub name: String,
    /// The names of the functions, in the order of their implementations.
    pub functions: Vec<String>,
}

impl BuiltinGroup {
    /// The names of the group's functions.
    pub open spec fn names(&self) -> Seq<Seq<char>> {
        texts(self.functions@)
    }
}

/// A function name was defined twice.
#[derive(Debug, Clone, PartialEq, Eq)]
pub struct NameCollision {
    /// The name that was already taken.
    pub name: String,
    /// The group that tried to define it again.
    pub group: String,
}

/// The position of `name` among the first `limit` strings of `names`.
fn position(names: &Vec<String>, limit: usize, name: &str) -> (found: Option<usize>)
    requires
        limit <= names@.len(),
    ensures
        match found {
            Some(i) => i < limit && names@[i as int]@ == name@,
            None => forall|k: int| 0 <= k < limit ==> (#[trigger] names@[k])@ != name@,
        },
{
    let mut i: usize = 0;
    while i < limit
        invariant
            i <= limit <= names@.len(),
            forall|k: int| 0 <= k < i ==> (#[trigger] names@[k])@ != name@,
        decreases limit - i,
    {
        if same_text(names[i].as_str(), name) {
            return Some(i);
        }
        i += 1;
    }
    None
}

/// Names that are pairwise distinct stay so when a collision-free run is
/// registered after them.
pub proof fn lemma_registration_keeps_names_distinct(
    registered: Seq<Seq<char>>,
    names: Seq<Seq<char>>,
)
    requires
        registered.no_duplicates(),
        collision_free(registered, names),
    ensures
        (registered + names).no_duplicates(),
{
    let all = registered + names;
    assert forall|i: int, j: int| 0 <= i < j < all.len() implies all[i] != all[j] by {
        if j >= registered.len() {
            let b = j - registered.len();
            assert(!collides_at(registered, names, b));
            if i < registered.len() {
                assert(registered[i] == all[i]);
            } else {
                let a = i - registered.len();
                assert(names.take(b)[a] == all[i]);
            }
        }
    }
}

/// A run with a name that is already registered, or with one name in two
/// slots, is not collision-free.
pub proof fn lemma_taken_name_collides(
    registered: Seq<Seq<char>>,
    names: Seq<Seq<char>>,
    name: Seq<char>,
)
    requires
        names.contains(name),
        registered.contains(name),
    ensures
        !collision_free(registered, names),
{
    let j = choose|j: int| 0 <= j < names.len() && names[j] == name;
    assert(collides_at(registered, names, j));
}

/// The names of each group of a run.
pub open spec fn group_names(groups: Seq<&BuiltinGroup>) -> Seq<Seq<Seq<char>>> {
    groups.map_values(|group: &BuiltinGroup| group.names())
}

/// The labels of the groups of a run.
pub open spec fn group_labels(groups: Seq<&BuiltinGroup>) -> Seq<Seq<char>> {
    groups.map_values(|group: &BuiltinGroup| group.name@)
}

/// The namespace after the first `g` of `groups` were registered after
/// `registered`.
pub open spec fn laid_out(
    registered: Seq<Seq<char>>,
    groups: Seq<Seq<Seq<char>>>,
    g: int,
) -> Seq<Seq<char>>
    decreases g,
{
    if g <= 0 {
        registered
    } else {
        laid_out(registered, groups, g - 1) + groups[g - 1]
    }
}

/// Whether group `g` can be registered once the groups before it are.
pub open spec fn fits(registered: Seq<Seq<char>>, groups: Seq<Seq<Seq<char>>>, g: int) -> bool {
    collision_free(laid_out(registered, groups, g), groups[g])
}

/// Whether every group can be registered in turn.
pub open spec fn all_fit(registered: Seq<Seq<char>>, groups: Seq<Seq<Seq<char>>>) -> bool {
    forall|g: int| 0 <= g < groups.len() ==> fits(registered, groups, g)
}

/// Whether registering the groups in turn first fails at slot `j` of group
/// `g`.
pub open spec fn fails_at(
    registered: Seq<Seq<char>>,
    groups: Seq<Seq<Seq<char>>>,
    g: int,
    j: int,
) -> bool {
    &&& 0 <= g < groups.len()
    &&& forall|h: int| 0 <= h < g ==> fits(registered, groups, h)
    &&& is_first_collision(laid_out(registered, groups, g), groups[g], j)
}

/// What registering `groups` in turn owes: the namespace `after` and the
/// result, for the namespace `before`.  The groups are registered up to the
/// first that does not fit, which is reported with its first taken name.
pub open spec fn registered_in_turn(
    before: Seq<Seq<char>>,
    groups: Seq<Seq<Seq<char>>>,
    labels: Seq<Seq<char>>,
    after: Seq<Seq<char>>,
    r: Result<(), NameCollision>,
) -> bool {
    match r {
        Ok(()) => all_fit(before, groups) && after == laid_out(before, groups, groups.len() as int),
        Err(e) => exists|g: int, j: int|
            {
                &&& #[trigger] fails_at(before, groups, g, j)
                &&& after == laid_out(before, groups, g)
                &&& e.name@ == groups[g][j]
                &&& e.group@ == labels[g]
            },
    }
}

/// The names of every group before group `g` are in the namespace that
/// group `g` is registered into.
pub proof fn lemma_laid_out_holds_earlier_groups(
    registered: Seq<Seq<char>>,
    groups: Seq<Seq<Seq<char>>>,
    h: int,
    g: int,
    name: Seq<char>,
)
    requires
        0 <= h < g <= groups.len(),
        groups[h].contains(name),
    ensures
        laid_out(registered, groups, g).contains(name),
    decreases g,
{
    let before = laid_out(registered, groups, g - 1);
    if h == g - 1 {
        let j = choose|j: int| 0 <= j < groups[h].len() && groups[h][j] == name;
        assert((before + groups[h])[before.len() + j] == name);
    } else {
        lemma_laid_out_holds_earlier_groups(registered, groups, h, g - 1, name);
        let i = choose|i: int| 0 <= i < before.len() && before[i] == name;
        assert((before + groups[g - 1])[i] == name);
    }
}

/// Two groups that define the same name cannot both be registered: the
/// construction of a registry from them fails.
pub proof fn lemma_shared_name_fails(
    registered: Seq<Seq<char>>,
    groups: Seq<Seq<Seq<char>>>,
    a: int,
    b: int,
    name: Seq<char>,
)
    requires
        0 <= a < b < groups.len(),
        groups[a].contains(name),
        groups[b].contains(name),
    ensures
        !all_fit(registered, groups),
{
    lemma_laid_out_holds_earlier_groups(registered, groups, a, b, name);
    lemma_taken_name_collides(laid_out(registered, groups, b), groups[b], name);
    assert(!fits(registered, groups, b));
}

/// The names of a registry that was built from groups which all fit are
/// pairwise distinct.
pub proof fn lemma_fitting_groups_stay_distinct(
    registered: Seq<Seq<char>>,
    groups: Seq<Seq<Seq<char>>>,
    g: int,
)
    requires
        registered.no_duplicates(),
        0 <= g <= groups.len(),
        forall|h: int| 0 <= h < g ==> fits(registered, groups, h),
    ensures
        laid_out(registered, groups, g).no_duplicates(),
    decreases g,
{
    if g > 0 {
        lemma_fitting_groups_stay_distinct(registered, groups, g - 1);
        assert(fits(registered, groups, g - 1));
        lemma_registration_keeps_names_distinct(
            laid_out(registered, groups, g - 1),
            groups[g - 1],
        );
    }
}

/// Collects the groups of built-in functions into one flat namespace.
pub struct GlobalsBuilder {
    names: Vec<String>,
}

impl GlobalsBuilder {
    #[verifier::type_invariant]
    spec fn names_are_distinct(&self) -> bool {
        texts(self.names@).no_duplicates()
    }

    /// The registered names, in the order of registration.
    pub closed spec fn names(&self) -> Seq<Seq<char>> {
        texts(self.names@)
    }

    /// A builder without names.
    pub fn new() -> (builder: Self)
        ensures
            builder.names() == Seq::<Seq<char>>::empty(),
    {
        let builder = GlobalsBuilder { names: Vec::new() };
        assert(builder.names() =~= Seq::<Seq<char>>::empty());
        builder
    }

    /// Registers the functions of `group` after those already registered and
    /// returns the position of the group's first function.
    ///
    /// Fails, and registers nothing, when a name of the group is already
    /// taken, by an earlier group or earlier in this one; the error carries
    /// the first such name.
    pub fn register(&mut self, group: &BuiltinGroup) -> (r: Result<usize, NameCollision>)
        ensures
            old(self).names().no_duplicates(),
            final(self).names().no_duplicates(),
            match r {
                Ok(offset) => {
                    &&& collision_free(old(self).names(), group.names())
                    &&& offset == old(self).names().len()
                    &&& final(self).names() == old(self).names() + group.names()
                },
                Err(e) => {
                    &&& final(self).names() == old(self).names()
                    &&& e.group@ == group.name@
                    &&& exists|j: int|
                        is_first_collision(old(self).names(), group.names(), j) && e.name@
                            == group.names()[j]
                },
            },
    {
        proof {
            use_type_invariant(&*self);
        }
        let ghost registered = self.names();
        let ghost incoming = group.names();
        let n: usize = group.functions.len();
        let mut j: usize = 0;
        while j < n
            invariant
                j <= n,
                n == group.functions@.len(),
                incoming == group.names(),
                registered == self.names(),
                registered.no_duplicates(),
                *self == *old(self),
                forall|k: int| 0 <= k < j ==> !collides_at(registered, incoming, k),
            decreases n - j,
        {
            let name = group.functions[j].as_str();
            let taken = match position(&self.names, self.names.len(), name) {
                Some(i) => {
                    assert(registered[i as int] == incoming[j as int]);
                    true
                },
                None => {
                    assert forall|k: int| 0 <= k < registered.len() implies registered[k]
                        != incoming[j as int] by {
                        assert(registered[k] == self.names@[k]@);
                    }
                    match position(&group.functions, j, name) {
                        Some(i) => {
                            assert(incoming.take(j as int)[i as int] == incoming[j as int]);
                            true
                        },
                        None => {
                            assert forall|k: int| 0 <= k < j implies incoming.take(j as int)[k]
                                != incoming[j as int] by {
                                assert(incoming.take(j as int)[k] == group.functions@[k]@);
                            }
                            false
                        },
                    }
                },
            };
            if taken {
                assert(is_first_collision(registered, incoming, j as int));
                return Err(NameCollision { name: name.to_owned(), group: group.name.clone() });
            }
            j += 1;
        }
        proof {
            lemma_registration_keeps_names_distinct(registered, incoming);
        }
        // The names are moved out to grow in a local vector and handed back
        // once the whole group is in, so that the builder never holds a
        // group in part.
        let mut names: Vec<String> = Vec::new();
        std::mem::swap(&mut self.names, &mut names);
        let offset: usize = names.len();
        let mut j: usize = 0;
        while j < n
            invariant
                j <= n,
                n == group.functions@.len(),
                incoming == group.names(),
                texts(names@) == registered + incoming.take(j as int),
            decreases n - j,
        {
            let name = group.functions[j].clone();
            proof {
                assert(name@ == incoming[j as int]);
                assert(incoming.take(j + 1) =~= incoming.take(j as int).push(name@));
                assert(texts(names@.push(name)) =~= texts(names@).push(name@));
            }
            names.push(name);
            j += 1;
        }
        assert(incoming.take(n as int) =~= incoming);
        std::mem::swap(&mut self.names, &mut names);
        Ok(offset)
    }

    /// Registers `groups` in turn and stops at the first that does not fit.
    pub fn register_all(&mut self, groups: &[&BuiltinGroup]) -> (r: Result<(), NameCollision>)
        ensures
            registered_in_turn(
                old(self).names(),
                group_names(groups@),
                group_labels(groups@),
                final(self).names(),
                r,
            ),
    {
        let ghost before = self.names();
        let ghost all = group_names(groups@);
        let mut g: usize = 0;
        while g < groups.len()
            invariant
                g <= groups@.len(),
                before == old(self).names(),
                all == group_names(groups@),
                self.names() == laid_out(before, all, g as int),
                forall|h: int| 0 <= h < g ==> fits(before, all, h),
            decreases groups@.len() - g,
        {
            let ghost current = self.names();
            let ghost incoming = groups@[g as int].names();
            assert(all[g as int] == incoming);
            assert(group_labels(groups@)[g as int] == groups@[g as int].name@);
            match self.register(groups[g]) {
                Ok(_) => {},
                Err(e) => {
                    proof {
                        let j = choose|j: int|
                            is_first_collision(current, incoming, j) && e.name@ == incoming[j];
                        assert(fails_at(before, all, g as int, j));
                    }
                    return Err(e);
                },
            }
            g += 1;
        }
        Ok(())
    }

    /// Closes the namespace.
    pub fn build(self) -> (registry: ExtensionRegistry)
        ensures
            registry.names() == self.names(),
            registry.names().no_duplicates(),
    {
        proof {
            use_type_invariant(&self);
        }
        ExtensionRegistry { names: self.names }
    }
}

/// The flat namespace of built-in functions that every evaluation reads.
///
/// The registry cannot be changed once it is built, so any number of
/// evaluations may read it at once.
pub struct ExtensionRegistry {
    names: Vec<String>,
}

impl ExtensionRegistry {
    #[verifier::type_invariant]
    spec fn names_are_distinct(&self) -> bool {
        texts(self.names@).no_duplicates()
    }

    /// The names of the functions; a function's position is its place here.
    pub closed spec fn names(&self) -> Seq<Seq<char>> {
        texts(self.names@)
    }

    /// Builds the registry of `groups`, registered in turn into an empty
    /// namespace.
    ///
    /// Succeeds exactly when every group fits, that is, when no name is
    /// defined twice.
    pub fn compose(groups: &[&BuiltinGroup]) -> (r: Result<ExtensionRegistry, NameCollision>)
        ensures
            match r {
                Ok(registry) => {
                    &&& all_fit(Seq::empty(), group_names(groups@))
                    &&& registry.names() == laid_out(
                        Seq::empty(),
                        group_names(groups@),
                        groups@.len() as int,
                    )
                    &&& registry.names().no_duplicates()
                },
                Err(e) => exists|g: int, j: int|
                    {
                        &&& #[trigger] fails_at(Seq::empty(), group_names(groups@), g, j)
                        &&& e.name@ == group_names(groups@)[g][j]
                        &&& e.group@ == group_labels(groups@)[g]
                    },
            },
    {
        let mut builder = GlobalsBuilder::new();
        match builder.register_all(groups) {
            Ok(()) => Ok(builder.build()),
            Err(e) => {
                proof {
                    let empty = Seq::<Seq<char>>::empty();
                    let all = group_names(groups@);
                    let labels = group_labels(groups@);
                    let (g, j) = choose|g: int, j: int|
                        {
                            &&& #[trigger] fails_at(empty, all, g, j)
                            &&& builder.names() == laid_out(empty, all, g)
                            &&& e.name@ == all[g][j]
                            &&& e.group@ == labels[g]
                        };
                    assert(fails_at(empty, all, g, j));
                }
                Err(e)
            },
        }
    }

    /// The number of functions.
    pub fn len(&self) -> (n: usize)
        ensures
            n == self.names().len(),
    {
        self.names.len()
    }

    /// The position of the function called `name`, if there is one.
    pub fn lookup(&self, name: &str) -> (found: Option<usize>)
        ensures
            match found {
                Some(i) => i < self.names().len() && self.names()[i as int] == name@,
                None => !self.names().contains(name@),
            },
            self.names().no_duplicates(),
    {
        proof {
            use_type_invariant(self);
        }
        let found = position(&self.names, self.names.len(), name);
        proof {
            if found.is_none() {
                assert forall|k: int| 0 <= k < self.names().len() implies self.names()[k]
                    != name@ by {
                    assert(self.names()[k] == self.names@[k]@);
                }
            }
        }
        found
    }

    /// The name of the function at `position`.
    pub fn name_at(&self, position: usize) -> (name: Option<&str>)
        ensures
            match name {
                Some(text) => position < self.names().len() && text@ == self.names()[
                    position as int
                ],
                None => position >= self.names().len(),
            },
    {
        if position < self.names.len() {
            Some(self.names[position].as_str())
        } else {
            None
        }
    }
}

/// The names of the functions that this crate itself contributes.
pub open spec fn extra_function_names() -> Seq<Seq<char>> {
    seq!["load_symbols"@, "regex_match"@, "warning"@, "soft_error"@]
}

/// The label of this crate's own group.
pub open spec fn extra_functions_label() -> Seq<char> {
    "extra_functions"@
}

/// The group of the functions that this crate itself contributes.
pub fn extra_functions_group() -> (group: BuiltinGroup)
    ensures
        group.name@ == extra_functions_label(),
        group.names() == extra_function_names(),
{
    let mut functions: Vec<String> = Vec::new();
    functions.push("load_symbols".to_owned());
    functions.push("regex_match".to_owned());
    functions.push("warning".to_owned());
    functions.push("soft_error".to_owned());
    let group = BuiltinGroup { name: "extra_functions".to_owned(), functions };
    assert(group.names() =~= extra_function_names());
    group
}

/// Registers this crate's own functions.
pub fn extra_functions(globals: &mut GlobalsBuilder) -> (r: Result<usize, NameCollision>)
    ensures
        match r {
            Ok(offset) => {
                &&& collision_free(old(globals).names(), extra_function_names())
                &&& offset == old(globals).names().len()
                &&& final(globals).names() == old(globals).names() + extra_function_names()
            },
            Err(e) => {
                &&& final(globals).names() == old(globals).names()
                &&& e.group@ == extra_functions_label()
                &&& exists|j: int|
                    is_first_collision(old(globals).names(), extra_function_names(), j)
                        && e.name@ == extra_function_names()[j]
            },
        },
{
    let group = extra_functions_group();
    globals.register(&group)
}

/// The groups that make up the namespace of rule definitions, in the order
/// of their registration.
pub open spec fn rule_def_groups(
    attrs: Seq<Seq<char>>,
    rule_function: Seq<Seq<char>>,
    cmd_args: Seq<Seq<char>>,
    providers: Seq<Seq<char>>,
) -> Seq<Seq<Seq<char>>> {
    seq![attrs, rule_function, cmd_args, providers, extra_function_names()]
}

/// The labels of the groups of [`rule_def_groups`].
pub open spec fn rule_def_labels(
    attrs: Seq<char>,
    rule_function: Seq<char>,
    cmd_args: Seq<char>,
    providers: Seq<char>,
) -> Seq<Seq<char>> {
    seq![attrs, rule_function, cmd_args, providers, extra_functions_label()]
}

/// Assembles the namespace of rule definitions: the attribute helpers, the
/// rule function, the command-line helpers, the built-in providers and this
/// crate's own functions, registered in that order.
///
/// Called once, when the process starts.  A name that two groups define
/// fails the call, and the process must not go on to evaluate anything.
pub fn register_rule_defs(
    globals: &mut GlobalsBuilder,
    attrs: &BuiltinGroup,
    rule_function: &BuiltinGroup,
    cmd_args: &BuiltinGroup,
    providers: &BuiltinGroup,
) -> (r: Result<(), NameCollision>)
    ensures
        registered_in_turn(
            old(globals).names(),
            rule_def_groups(
                attrs.names(),
                rule_function.names(),
                cmd_args.names(),
                providers.names(),
            ),
            rule_def_labels(attrs.name@, rule_function.name@, cmd_args.name@, providers.name@),
            final(globals).names(),
            r,
        ),
{
    let extra = extra_functions_group();
    let groups: Vec<&BuiltinGroup> = vec![attrs, rule_function, cmd_args, providers, &extra];
    proof {
        assert(group_names(groups@) =~= rule_def_groups(
            attrs.names(),
            rule_function.names(),
            cmd_args.names(),
            providers.names(),
        ));
        assert(group_labels(groups@) =~= rule_def_labels(
            attrs.name@,
            rule_function.name@,
            cmd_args.name@,
            providers.name@,
        ));
    }
    globals.register_all(groups.as_slice())
}

} // verus!
