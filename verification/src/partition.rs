//! Sorting requested packages into those that are cloned already, those that
//! are still to be cloned, and those that the AUR does not know.

use vstd::prelude::*;
use crate::aur::Error;
use crate::text::texts;

verus! {

/// The packages asked for, each in one of three groups and in the order in
/// which they were asked for.
#[derive(Debug)]
pub struct PkgPartition {
    /// Packages with a clone in the clone directory.
    pub cloned: Vec<String>,
    /// Packages that the AUR knows and that are not cloned yet.
    pub to_clone: Vec<String>,
    /// Packages that are not cloned and that the AUR does not know.
    pub not_real: Vec<String>,
}

/// Names with a clone among `inventory`.
pub open spec fn is_cloned(inventory: Seq<Seq<char>>) -> spec_fn(Seq<char>) -> bool {
    |name: Seq<char>| inventory.contains(name)
}

/// Names without a clone among `inventory`.
pub open spec fn is_uncloned(inventory: Seq<Seq<char>>) -> spec_fn(Seq<char>) -> bool {
    |name: Seq<char>| !inventory.contains(name)
}

/// Names without a clone among `inventory` that are among `known`.
pub open spec fn is_to_clone(inventory: Seq<Seq<char>>, known: Seq<Seq<char>>) -> spec_fn(
    Seq<char>,
) -> bool {
    |name: Seq<char>| !inventory.contains(name) && known.contains(name)
}

/// Names without a clone among `inventory` that are not among `known`.
pub open spec fn is_not_real(inventory: Seq<Seq<char>>, known: Seq<Seq<char>>) -> spec_fn(
    Seq<char>,
) -> bool {
    |name: Seq<char>| !inventory.contains(name) && !known.contains(name)
}

/// Of `names`, those with a clone among `inventory`.
pub open spec fn cloned_names(inventory: Seq<Seq<char>>, names: Seq<Seq<char>>) -> Seq<Seq<char>> {
    names.filter(is_cloned(inventory))
}

/// Of `names`, those without a clone that are among `known`.
pub open spec fn to_clone_names(
    inventory: Seq<Seq<char>>,
    known: Seq<Seq<char>>,
    names: Seq<Seq<char>>,
) -> Seq<Seq<char>> {
    names.filter(is_to_clone(inventory, known))
}

/// Of `names`, those without a clone that are not among `known`.
pub open spec fn not_real_names(
    inventory: Seq<Seq<char>>,
    known: Seq<Seq<char>>,
    names: Seq<Seq<char>>,
) -> Seq<Seq<char>> {
    names.filter(is_not_real(inventory, known))
}

/// Whether `name` is one of `names`.
pub fn is_listed(names: &Vec<String>, name: &String) -> (yes: bool)
    ensures
        yes == texts(names@).contains(name@),
{
    let mut i: usize = 0;
    while i < names.len()
        invariant
            i <= names.len(),
            forall|k: int| 0 <= k < i ==> texts(names@)[k] != name@,
        decreases names.len() - i,
    {
        if names[i] == *name {
            assert(texts(names@)[i as int] == name@);
            return true;
        }
        i += 1;
    }
    false
}

/// What came of reading the clone directory.
#[derive(Debug)]
pub enum Listing {
    /// The names of its entries.
    Entries(Vec<String>),
    /// There is no such directory.
    Absent,
    /// It is there and could not be read; the words of the error.
    Unreadable(String),
}

/// The clones that there are, given what came of reading the clone
/// directory. A directory that is not there holds no clone; one that cannot
/// be read is an error, and nothing is sorted.
pub fn inventory(listing: Listing) -> (found: Result<Vec<String>, Error>)
    ensures
        match listing {
            Listing::Entries(names) => found == Ok::<Vec<String>, Error>(names),
            Listing::Absent => found matches Ok(names) && names.len() == 0,
            Listing::Unreadable(words) => found == Err::<Vec<String>, Error>(Error::Io(words)),
        },
{
    match listing {
        Listing::Entries(names) => Ok(names),
        Listing::Absent => Ok(Vec::new()),
        Listing::Unreadable(words) => Err(Error::Io(words)),
    }
}

/// The packages that have no clone yet, in the order in which they were asked
/// for: those of which the AUR has to say whether it knows them.
pub fn uncloned(inventory: &Vec<String>, packages: &Vec<String>) -> (rest: Vec<String>)
    ensures
        texts(rest@) == texts(packages@).filter(is_uncloned(texts(inventory@))),
{
    let ghost names = texts(packages@);
    let ghost wanted = is_uncloned(texts(inventory@));
    let mut rest: Vec<String> = Vec::new();
    let mut i: usize = 0;
    proof {
        reveal(Seq::filter);
        assert(names.take(0) =~= Seq::empty());
        assert(texts(rest@) =~= Seq::empty());
    }
    while i < packages.len()
        invariant
            i <= packages.len(),
            names == texts(packages@),
            wanted == is_uncloned(texts(inventory@)),
            texts(rest@) == names.take(i as int).filter(wanted),
        decreases packages.len() - i,
    {
        let p = &packages[i];
        let ghost before = rest@;
        proof {
            assert(names.take(i + 1) =~= names.take(i as int).push(p@));
            names.take(i as int).lemma_filter_push(p@, wanted);
        }
        if !is_listed(inventory, p) {
            rest.push(p.clone());
            assert(texts(rest@) =~= texts(before).push(p@));
        }
        i += 1;
    }
    assert(names.take(names.len() as int) =~= names);
    rest
}

/// Sorts `packages` into the three groups. A package with a clone among
/// `inventory` is cloned, whatever `known` says; of the others, those among
/// `known` are to be cloned, and the rest is not known. Each group keeps the
/// order of `packages`.
pub fn partition_aur_pkgs(
    inventory: &Vec<String>,
    known: &Vec<String>,
    packages: &Vec<String>,
) -> (part: PkgPartition)
    ensures
        texts(part.cloned@) == cloned_names(texts(inventory@), texts(packages@)),
        texts(part.to_clone@) == to_clone_names(
            texts(inventory@),
            texts(known@),
            texts(packages@),
        ),
        texts(part.not_real@) == not_real_names(
            texts(inventory@),
            texts(known@),
            texts(packages@),
        ),
{
    let ghost names = texts(packages@);
    let ghost in_first = is_cloned(texts(inventory@));
    let ghost in_second = is_to_clone(texts(inventory@), texts(known@));
    let ghost in_third = is_not_real(texts(inventory@), texts(known@));
    let mut cloned: Vec<String> = Vec::new();
    let mut to_clone: Vec<String> = Vec::new();
    let mut not_real: Vec<String> = Vec::new();
    let mut i: usize = 0;
    proof {
        reveal(Seq::filter);
        assert(names.take(0) =~= Seq::empty());
        assert(texts(cloned@) =~= Seq::empty());
        assert(texts(to_clone@) =~= Seq::empty());
        assert(texts(not_real@) =~= Seq::empty());
    }
    while i < packages.len()
        invariant
            i <= packages.len(),
            names == texts(packages@),
            in_first == is_cloned(texts(inventory@)),
            in_second == is_to_clone(texts(inventory@), texts(known@)),
            in_third == is_not_real(texts(inventory@), texts(known@)),
            texts(cloned@) == names.take(i as int).filter(in_first),
            texts(to_clone@) == names.take(i as int).filter(in_second),
            texts(not_real@) == names.take(i as int).filter(in_third),
        decreases packages.len() - i,
    {
        let p = &packages[i];
        let ghost first = cloned@;
        let ghost second = to_clone@;
        let ghost third = not_real@;
        proof {
            assert(names.take(i + 1) =~= names.take(i as int).push(p@));
            names.take(i as int).lemma_filter_push(p@, in_first);
            names.take(i as int).lemma_filter_push(p@, in_second);
            names.take(i as int).lemma_filter_push(p@, in_third);
        }
        if is_listed(inventory, p) {
            cloned.push(p.clone());
            assert(texts(cloned@) =~= texts(first).push(p@));
        } else if is_listed(known, p) {
            to_clone.push(p.clone());
            assert(texts(to_clone@) =~= texts(second).push(p@));
        } else {
            not_real.push(p.clone());
            assert(texts(not_real@) =~= texts(third).push(p@));
        }
        i += 1;
    }
    assert(names.take(names.len() as int) =~= names);
    PkgPartition { cloned, to_clone, not_real }
}


/// The three groups hold the names asked for, each as often as it was asked
/// for: none is left out and none is added.
pub proof fn lemma_partition_exact(
    inventory: Seq<Seq<char>>,
    known: Seq<Seq<char>>,
    names: Seq<Seq<char>>,
)
    ensures
        cloned_names(inventory, names).to_multiset().add(
            to_clone_names(inventory, known, names).to_multiset(),
        ).add(not_real_names(inventory, known, names).to_multiset()) == names.to_multiset(),
        cloned_names(inventory, names).len() + to_clone_names(inventory, known, names).len()
            + not_real_names(inventory, known, names).len() == names.len(),
    decreases names.len(),
{
    broadcast use vstd::seq_lib::group_to_multiset_ensures;

    reveal(Seq::filter);
    if names.len() == 0 {
        assert(names.to_multiset() =~= cloned_names(inventory, names).to_multiset().add(
            to_clone_names(inventory, known, names).to_multiset(),
        ).add(not_real_names(inventory, known, names).to_multiset()));
    } else {
        let front = names.drop_last();
        let x = names.last();
        lemma_partition_exact(inventory, known, front);
        assert(names =~= front.push(x));
        front.lemma_filter_push(x, is_cloned(inventory));
        front.lemma_filter_push(x, is_to_clone(inventory, known));
        front.lemma_filter_push(x, is_not_real(inventory, known));
        assert(names.to_multiset() =~= cloned_names(inventory, names).to_multiset().add(
            to_clone_names(inventory, known, names).to_multiset(),
        ).add(not_real_names(inventory, known, names).to_multiset()));
    }
}

/// No name stands in two of the three groups.
pub proof fn lemma_partition_disjoint(
    inventory: Seq<Seq<char>>,
    known: Seq<Seq<char>>,
    names: Seq<Seq<char>>,
    name: Seq<char>,
)
    ensures
        !(cloned_names(inventory, names).contains(name) && to_clone_names(
            inventory,
            known,
            names,
        ).contains(name)),
        !(cloned_names(inventory, names).contains(name) && not_real_names(
            inventory,
            known,
            names,
        ).contains(name)),
        !(to_clone_names(inventory, known, names).contains(name) && not_real_names(
            inventory,
            known,
            names,
        ).contains(name)),
{
    lemma_group_members(inventory, known, names, name);
}

/// Which names stand in which group: a name asked for stands among the cloned
/// if it has a clone, whatever is known of it; else among those to clone if it
/// is known, and among the not real if it is not.
pub proof fn lemma_group_members(
    inventory: Seq<Seq<char>>,
    known: Seq<Seq<char>>,
    names: Seq<Seq<char>>,
    name: Seq<char>,
)
    ensures
        cloned_names(inventory, names).contains(name) <==> names.contains(name)
            && inventory.contains(name),
        to_clone_names(inventory, known, names).contains(name) <==> names.contains(name)
            && !inventory.contains(name) && known.contains(name),
        not_real_names(inventory, known, names).contains(name) <==> names.contains(name)
            && !inventory.contains(name) && !known.contains(name),
{
    lemma_filter_members(names, is_cloned(inventory), name);
    lemma_filter_members(names, is_to_clone(inventory, known), name);
    lemma_filter_members(names, is_not_real(inventory, known), name);
}

/// Once every package asked for has its clone, a second run finds them all
/// cloned and nothing left to clone or to warn of.
pub proof fn lemma_all_cloned(inventory: Seq<Seq<char>>, known: Seq<Seq<char>>, names: Seq<Seq<char>>)
    requires
        forall|i: int| 0 <= i < names.len() ==> inventory.contains(#[trigger] names[i]),
    ensures
        cloned_names(inventory, names) == names,
        to_clone_names(inventory, known, names).len() == 0,
        not_real_names(inventory, known, names).len() == 0,
    decreases names.len(),
{
    reveal(Seq::filter);
    if names.len() > 0 {
        let front = names.drop_last();
        lemma_all_cloned(inventory, known, front);
        assert(names =~= front.push(names.last()));
        assert(inventory.contains(names[names.len() - 1]));
        front.lemma_filter_push(names.last(), is_cloned(inventory));
        front.lemma_filter_push(names.last(), is_to_clone(inventory, known));
        front.lemma_filter_push(names.last(), is_not_real(inventory, known));
    }
}

/// What passes a filter is what was there and meets the test.
pub proof fn lemma_filter_members<A>(s: Seq<A>, test: spec_fn(A) -> bool, x: A)
    ensures
        s.filter(test).contains(x) <==> s.contains(x) && test(x),
{
    if s.filter(test).contains(x) {
        let i = choose|i: int| 0 <= i < s.filter(test).len() && s.filter(test)[i] == x;
        s.lemma_filter_pred(test, i);
        s.lemma_filter_contains_rev(test, x);
    }
    if s.contains(x) && test(x) {
        let i = choose|i: int| 0 <= i < s.len() && s[i] == x;
        s.lemma_filter_contains(test, i);
    }
}

} // verus!
