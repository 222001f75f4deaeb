//! Names within one directory: repeated names are numbered.
use crate::text;
use crate::text::decimal_of;
use vstd::hash_map::StringHashMap;
use vstd::prelude::*;

verus! {

/// The name used for an object called `name`.
pub open spec fn base_name(name: Seq<char>) -> Seq<char> {
    if name.len() == 0 {
        "item"@
    } else {
        name
    }
}

/// The `occurrence`-th use of a name: the first is the name itself, later ones carry
/// their number.
pub open spec fn numbered(base: Seq<char>, occurrence: nat) -> Seq<char> {
    if occurrence == 1 {
        base
    } else {
        base + " "@ + text::decimal(occurrence)
    }
}

/// How often `name` occurs among the first `upto` of `names`.
pub open spec fn occurrences(names: Seq<Seq<char>>, upto: nat, name: Seq<char>) -> nat
    decreases upto,
{
    if upto == 0 {
        0
    } else {
        occurrences(names, (upto - 1) as nat, name) + if names[upto - 1] == name {
            1nat
        } else {
            0nat
        }
    }
}

/// The name that the `i`-th of `names` gets in its directory.
pub open spec fn assigned_name(names: Seq<Seq<char>>, i: int) -> Seq<char> {
    numbered(names[i], occurrences(names, (i + 1) as nat, names[i]))
}

/// How often each name was used so far in a directory.
pub struct NameCounts {
    counts: StringHashMap<usize>,
}

impl NameCounts {
    /// How often `name` was used so far.
    pub closed spec fn count(self, name: Seq<char>) -> nat {
        if self.counts@.contains_key(name) {
            self.counts@[name] as nat
        } else {
            0
        }
    }

    /// No name was used yet.
    pub fn new() -> (r: NameCounts)
        ensures
            forall|name: Seq<char>| #[trigger] r.count(name) == 0,
    {
        NameCounts { counts: StringHashMap::new() }
    }

    /// The name for one more object called `name`; counts the use.
    pub fn unique_name(&mut self, name: String) -> (r: String)
        requires
            old(self).count(base_name(name@)) < usize::MAX,
        ensures
            final(self).count(base_name(name@)) == old(self).count(base_name(name@)) + 1,
            forall|other: Seq<char>|
                other != base_name(name@) ==> #[trigger] final(self).count(other) == old(
                    self,
                ).count(other),
            r@ == numbered(base_name(name@), old(self).count(base_name(name@)) + 1),
    {
        let base: String = if name.as_str().unicode_len() == 0 {
            "item".to_string()
        } else {
            name
        };
        let used: usize = match self.counts.get(base.as_str()) {
            Some(count) => *count,
            None => 0,
        };
        let count: usize = used + 1;
        self.counts.insert(base.clone(), count);
        if count == 1 {
            base
        } else {
            let mut r = base;
            r.append(" ");
            r.append(decimal_of(count as u64).as_str());
            r
        }
    }
}

/// Whether some object is called just like the numbered form of another's name.
pub open spec fn has_number_clash(names: Seq<Seq<char>>) -> bool {
    exists|a: int, b: int, k: nat|
        0 <= a < names.len() && 0 <= b < names.len() && 2 <= k <= occurrences(
            names,
            names.len(),
            names[b],
        ) && #[trigger] names[a] == #[trigger] numbered(names[b], k)
}

proof fn lemma_occurrences_grow(names: Seq<Seq<char>>, i: nat, j: nat, name: Seq<char>)
    requires
        i <= j,
    ensures
        occurrences(names, i, name) <= occurrences(names, j, name),
    decreases j,
{
    if i < j {
        lemma_occurrences_grow(names, i, (j - 1) as nat, name);
    }
}

/// A name occurs at most as often as there are names.
pub proof fn lemma_occurrences_bounded(names: Seq<Seq<char>>, i: nat, name: Seq<char>)
    ensures
        occurrences(names, i, name) <= i,
    decreases i,
{
    if i > 0 {
        lemma_occurrences_bounded(names, (i - 1) as nat, name);
    }
}

proof fn lemma_numbers_split(a: Seq<char>, i: nat, b: Seq<char>, j: nat)
    requires
        a + " "@ + text::decimal(i) == b + " "@ + text::decimal(j),
    ensures
        a == b,
        i == j,
{
    reveal_strlit(" ");
    let di = text::decimal(i);
    let dj = text::decimal(j);
    let left = a + " "@ + di;
    let right = b + " "@ + dj;
    text::law_decimal_reads_back(i);
    text::law_decimal_reads_back(j);
    assert(left.len() == a.len() + 1 + di.len());
    assert(right.len() == b.len() + 1 + dj.len());
    if di.len() < dj.len() {
        assert(left[a.len() as int] == ' ');
        assert(right[a.len() as int] == dj[a.len() - b.len() - 1]);
        assert(text::is_digit(dj[a.len() - b.len() - 1]));
    } else if dj.len() < di.len() {
        assert(right[b.len() as int] == ' ');
        assert(left[b.len() as int] == di[b.len() - a.len() - 1]);
        assert(text::is_digit(di[b.len() - a.len() - 1]));
    }
    assert(a =~= left.take(a.len() as int));
    assert(b =~= right.take(b.len() as int));
    assert(di =~= left.skip(a.len() as int + 1));
    assert(dj =~= right.skip(b.len() as int + 1));
    text::law_decimal_distinct(i, j);
}

/// The names assigned in one directory are all different, unless the device itself uses a
/// numbered form of one of its own repeated names.
pub proof fn law_assigned_names_distinct(names: Seq<Seq<char>>, i: int, j: int)
    requires
        0 <= i < j < names.len(),
        !has_number_clash(names),
    ensures
        assigned_name(names, i) != assigned_name(names, j),
{
    reveal_strlit(" ");
    let a = names[i];
    let b = names[j];
    let ka = occurrences(names, (i + 1) as nat, a);
    let kb = occurrences(names, (j + 1) as nat, b);
    lemma_occurrences_grow(names, (i + 1) as nat, names.len(), a);
    lemma_occurrences_grow(names, (j + 1) as nat, names.len(), b);
    if assigned_name(names, i) == assigned_name(names, j) {
        if a == b {
            lemma_occurrences_grow(names, (i + 1) as nat, j as nat, a);
            assert(ka < kb);
            if ka == 1 {
                assert(numbered(b, kb).len() > b.len());
            } else {
                lemma_numbers_split(a, ka, b, kb);
            }
        } else if ka == 1 && kb == 1 {
        } else if ka == 1 {
            assert(names[i] == numbered(names[j], kb));
        } else if kb == 1 {
            assert(names[j] == numbered(names[i], ka));
        } else {
            lemma_numbers_split(a, ka, b, kb);
        }
    }
}

/// An object keeps its name in its directory unless it has none, and unless one before it
/// has the same. One that has the same name as one before it gets that name with the next
/// number, counted from 2.
pub proof fn law_repeated_names_count_on(names: Seq<Seq<char>>, j: int, i: int)
    requires
        0 <= j < i < names.len(),
        names[j] == names[i],
        forall|k: int| j < k < i ==> #[trigger] names[k] != names[i],
    ensures
        occurrences(names, (i + 1) as nat, names[i]) == occurrences(
            names,
            (j + 1) as nat,
            names[j],
        ) + 1,
        assigned_name(names, i) == names[i] + " "@ + text::decimal(
            occurrences(names, (j + 1) as nat, names[j]) + 1,
        ),
{
    lemma_occurrences_between(names, (j + 1) as nat, i as nat, names[i]);
}

proof fn lemma_occurrences_between(names: Seq<Seq<char>>, from: nat, to: nat, name: Seq<char>)
    requires
        from <= to <= names.len(),
        forall|k: int| from <= k < to ==> #[trigger] names[k] != name,
    ensures
        occurrences(names, to, name) == occurrences(names, from, name),
    decreases to,
{
    if from < to {
        lemma_occurrences_between(names, from, (to - 1) as nat, name);
    }
}

/// The first object of a name keeps it.
pub proof fn law_first_names_are_kept(names: Seq<Seq<char>>, i: int)
    requires
        0 <= i < names.len(),
        forall|k: int| 0 <= k < i ==> #[trigger] names[k] != names[i],
    ensures
        occurrences(names, (i + 1) as nat, names[i]) == 1,
        assigned_name(names, i) == names[i],
{
    lemma_occurrences_between(names, 0, i as nat, names[i]);
}

/// A name that is not empty is used as it is.
pub proof fn law_names_are_used_as_they_are(name: Seq<char>)
    ensures
        name.len() > 0 ==> base_name(name) == name,
        name.len() == 0 ==> base_name(name) == "item"@,
{
}

/// An object that is called like one before it carries its number behind its name: how many
/// of that name there are up to it.
pub proof fn law_later_names_are_numbered(names: Seq<Seq<char>>, k: int, i: int)
    requires
        0 <= k < i < names.len(),
        names[k] == names[i],
    ensures
        occurrences(names, (i + 1) as nat, names[i]) >= 2,
        assigned_name(names, i) == names[i] + " "@ + text::decimal(
            occurrences(names, (i + 1) as nat, names[i]),
        ),
{
    lemma_occurrences_grow(names, (k + 1) as nat, i as nat, names[i]);
}

} // verus!
