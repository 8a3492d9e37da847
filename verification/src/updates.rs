//! The package selection of the updates tab: official package names toggled
//! by row clicks, feeding "Upgrade selected".

use vstd::prelude::*;

verus! {

/// A set of package names. Each name is held once.
pub struct Selection {
    names: Vec<String>,
}

/// `s` with `name` flipped: removed when present, added when absent.
pub open spec fn toggled(s: Set<Seq<char>>, name: Seq<char>) -> Set<Seq<char>> {
    if s.contains(name) {
        s.remove(name)
    } else {
        s.insert(name)
    }
}

/// The names that `names` holds.
pub open spec fn name_set(names: Seq<String>) -> Set<Seq<char>> {
    Set::new(|n: Seq<char>| exists|k: int| 0 <= k < names.len() && #[trigger] names[k]@ == n)
}

/// No name is held twice.
pub open spec fn distinct_names(names: Seq<String>) -> bool {
    forall|i: int, j: int| 0 <= i < j < names.len() ==> #[trigger] names[i]@ != #[trigger] names[j]@
}

impl View for Selection {
    type V = Set<Seq<char>>;

    closed spec fn view(&self) -> Set<Seq<char>> {
        name_set(self.names@)
    }
}

impl Selection {
    #[verifier::type_invariant]
    closed spec fn inv(&self) -> bool {
        distinct_names(self.names@)
    }

    /// The empty selection.
    pub fn new() -> (r: Selection)
        ensures
            r@ == Set::<Seq<char>>::empty(),
    {
        let r = Selection { names: Vec::new() };
        proof {
            assert(name_set(r.names@) =~= Set::<Seq<char>>::empty());
        }
        r
    }

    fn position(&self, name: &String) -> (r: Option<usize>)
        ensures
            match r {
                Some(k) => k < self.names.len() && self.names@[k as int]@ == name@,
                None => !self@.contains(name@),
            },
    {
        let mut i: usize = 0;
        while i < self.names.len()
            invariant
                i <= self.names.len(),
                forall|k: int| 0 <= k < i ==> #[trigger] self.names@[k]@ != name@,
            decreases self.names.len() - i,
        {
            if self.names[i] == *name {
                return Some(i);
            }
            i = i + 1;
        }
        None
    }

    /// Whether `name` is selected.
    pub fn contains(&self, name: &String) -> (r: bool)
        ensures
            r == self@.contains(name@),
    {
        match self.position(name) {
            Some(_) => true,
            None => false,
        }
    }

    /// Whether nothing is selected.
    pub fn is_empty(&self) -> (r: bool)
        ensures
            r == (self@ == Set::<Seq<char>>::empty()),
    {
        proof {
            if self.names.len() > 0 {
                assert(self@.contains(self.names@[0]@));
            } else {
                assert(self@ =~= Set::<Seq<char>>::empty());
            }
        }
        self.names.len() == 0
    }

    /// Row click: deselects a selected name, selects an unselected one.
    pub fn toggle(&mut self, name: String)
        ensures
            final(self)@ == toggled(old(self)@, name@),
    {
        proof {
            use_type_invariant(&*self);
        }
        match self.position(&name) {
            Some(k) => {
                let ghost before = self.names@;
                let mut names = Vec::new();
                std::mem::swap(&mut names, &mut self.names);
                names.remove(k);
                proof {
                    assert(names@ =~= before.remove(k as int));
                    assert forall|i: int, j: int| 0 <= i < j < names@.len() implies #[trigger] names@[i]@
                        != #[trigger] names@[j]@ by {
                        let bi = if i < k { i } else { i + 1 };
                        let bj = if j < k { j } else { j + 1 };
                        assert(names@[i] == before[bi] && names@[j] == before[bj]);
                    }
                    assert(name_set(names@) =~= name_set(before).remove(name@)) by {
                        assert forall|n: Seq<char>| name_set(names@).contains(n) implies name_set(
                            before,
                        ).remove(name@).contains(n) by {
                            let q = choose|q: int| 0 <= q < names@.len() && #[trigger] names@[q]@ == n;
                            let bq = if q < k { q } else { q + 1 };
                            assert(names@[q] == before[bq]);
                        }
                        assert forall|n: Seq<char>| name_set(before).remove(name@).contains(n) implies name_set(
                            names@,
                        ).contains(n) by {
                            let q = choose|q: int| 0 <= q < before.len() && #[trigger] before[q]@ == n;
                            if q < k {
                                assert(names@[q] == before[q]);
                            } else {
                                assert(q != k);
                                assert(names@[q - 1] == before[q]);
                            }
                        }
                    }
                }
                self.names = names;
            },
            None => {
                let ghost before = self.names@;
                let mut names = Vec::new();
                std::mem::swap(&mut names, &mut self.names);
                names.push(name);
                proof {
                    assert forall|i: int, j: int| 0 <= i < j < names@.len() implies #[trigger] names@[i]@
                        != #[trigger] names@[j]@ by {
                        if j == before.len() {
                            assert(names@[i] == before[i]);
                            assert(name_set(before).contains(before[i]@));
                        } else {
                            assert(names@[i] == before[i] && names@[j] == before[j]);
                        }
                    }
                    assert(name_set(names@) =~= name_set(before).insert(name@)) by {
                        assert forall|n: Seq<char>| name_set(names@).contains(n) implies name_set(
                            before,
                        ).insert(name@).contains(n) by {
                            let q = choose|q: int| 0 <= q < names@.len() && #[trigger] names@[q]@ == n;
                            if q < before.len() {
                                assert(names@[q] == before[q]);
                            }
                        }
                        assert forall|n: Seq<char>| name_set(before).insert(name@).contains(n) implies name_set(
                            names@,
                        ).contains(n) by {
                            if n == name@ {
                                assert(names@[before.len() as int]@ == n);
                            } else {
                                let q = choose|q: int| 0 <= q < before.len() && #[trigger] before[q]@ == n;
                                assert(names@[q] == before[q]);
                            }
                        }
                    }
                }
                self.names = names;
            },
        }
    }

    /// Selection hygiene: keeps only the names that `keep` holds (the
    /// visible official updates).
    pub fn retain_listed(&mut self, keep: &Vec<String>)
        ensures
            final(self)@ == old(self)@.intersect(name_set(keep@)),
    {
        proof {
            use_type_invariant(&*self);
        }
        let ghost before = self.names@;
        let mut old_names = Vec::new();
        std::mem::swap(&mut old_names, &mut self.names);
        let mut kept: Vec<String> = Vec::new();
        let mut i: usize = 0;
        while i < old_names.len()
            invariant
                i <= old_names.len(),
                old_names@ == before,
                distinct_names(before),
                distinct_names(kept@),
                name_set(kept@) == name_set(before.take(i as int)).intersect(name_set(keep@)),
                forall|k: int| 0 <= k < kept.len() ==> name_set(before.take(i as int)).contains(
                    (#[trigger] kept@[k])@,
                ),
            decreases old_names.len() - i,
        {
            let listed = Selection::listed(keep, &old_names[i]);
            let ghost prev = kept@;
            proof {
                assert forall|n: Seq<char>| name_set(before.take(i + 1)).contains(n) <==> (name_set(
                    before.take(i as int),
                ).contains(n) || n == before[i as int]@) by {
                    if name_set(before.take(i + 1)).contains(n) {
                        let q = choose|q: int| 0 <= q < i + 1 && #[trigger] before.take(i + 1)[q]@ == n;
                        if q < i {
                            assert(before.take(i as int)[q] == before.take(i + 1)[q]);
                        }
                    }
                    if name_set(before.take(i as int)).contains(n) {
                        let q = choose|q: int| 0 <= q < i && #[trigger] before.take(i as int)[q]@ == n;
                        assert(before.take(i + 1)[q] == before.take(i as int)[q]);
                    }
                    if n == before[i as int]@ {
                        assert(before.take(i + 1)[i as int] == before[i as int]);
                    }
                }
                assert(!name_set(before.take(i as int)).contains(before[i as int]@)) by {
                    if name_set(before.take(i as int)).contains(before[i as int]@) {
                        let q = choose|q: int| 0 <= q < i && #[trigger] before.take(i as int)[q]@
                            == before[i as int]@;
                        assert(before.take(i as int)[q] == before[q]);
                    }
                }
            }
            if listed {
                kept.push(old_names[i].clone());
                proof {
                    assert forall|a: int, b: int| 0 <= a < b < kept@.len() implies #[trigger] kept@[a]@
                        != #[trigger] kept@[b]@ by {
                        if b == prev.len() {
                            assert(kept@[a] == prev[a]);
                        } else {
                            assert(kept@[a] == prev[a] && kept@[b] == prev[b]);
                        }
                    }
                    assert(kept@[prev.len() as int]@ == before[i as int]@);
                    assert forall|n: Seq<char>| #[trigger] name_set(kept@).contains(n) <==> (name_set(
                        prev,
                    ).contains(n) || n == before[i as int]@) by {
                        if name_set(kept@).contains(n) {
                            let q = choose|q: int| 0 <= q < kept@.len() && #[trigger] kept@[q]@ == n;
                            if q < prev.len() {
                                assert(kept@[q] == prev[q]);
                            }
                        }
                        if name_set(prev).contains(n) {
                            let q = choose|q: int| 0 <= q < prev.len() && #[trigger] prev[q]@ == n;
                            assert(kept@[q] == prev[q]);
                        }
                    }
                    assert(name_set(kept@) =~= name_set(before.take(i + 1)).intersect(
                        name_set(keep@),
                    ));
                    assert forall|k: int| 0 <= k < kept.len() implies name_set(
                        before.take(i + 1),
                    ).contains((#[trigger] kept@[k])@) by {
                        if k < prev.len() {
                            assert(kept@[k] == prev[k]);
                        }
                    }
                }
            } else {
                proof {
                    assert(name_set(kept@) =~= name_set(before.take(i + 1)).intersect(
                        name_set(keep@),
                    ));
                }
            }
            i = i + 1;
        }
        proof {
            assert(before.take(before.len() as int) =~= before);
        }
        self.names = kept;
    }

    pub(crate) fn listed(keep: &Vec<String>, name: &String) -> (r: bool)
        ensures
            r == name_set(keep@).contains(name@),
    {
        let mut i: usize = 0;
        while i < keep.len()
            invariant
                i <= keep.len(),
                forall|k: int| 0 <= k < i ==> #[trigger] keep@[k]@ != name@,
            decreases keep.len() - i,
        {
            if keep[i] == *name {
                return true;
            }
            i = i + 1;
        }
        false
    }

    /// The selected names, each once (the argument list of "Upgrade
    /// selected").
    pub fn names(&self) -> (r: Vec<String>)
        ensures
            name_set(r@) == self@,
            distinct_names(r@),
            r.len() == self@.len(),
    {
        proof {
            use_type_invariant(self);
            lemma_distinct_len(self.names@);
        }
        let mut r: Vec<String> = Vec::new();
        let mut i: usize = 0;
        while i < self.names.len()
            invariant
                i <= self.names.len(),
                r@ == self.names@.take(i as int),
            decreases self.names.len() - i,
        {
            r.push(self.names[i].clone());
            i = i + 1;
            assert(r@ =~= self.names@.take(i as int));
        }
        assert(r@ =~= self.names@);
        r
    }

    /// Label of the upgrade button: "Upgrade selected" when something is
    /// selected, else "Upgrade all".
    pub fn upgrade_label(&self) -> (r: &'static str)
        ensures
            r@ == (if self@ == Set::<Seq<char>>::empty() {
                "Upgrade all"@
            } else {
                "Upgrade selected"@
            }),
    {
        if self.is_empty() {
            "Upgrade all"
        } else {
            "Upgrade selected"
        }
    }
}

/// Distinct names: the set has as many elements as the list.
proof fn lemma_distinct_len(names: Seq<String>)
    requires
        distinct_names(names),
    ensures
        name_set(names).finite(),
        name_set(names).len() == names.len(),
    decreases names.len(),
{
    if names.len() == 0 {
        assert(name_set(names) =~= Set::<Seq<char>>::empty());
    } else {
        let d = names.drop_last();
        assert(distinct_names(d)) by {
            assert forall|i: int, j: int| 0 <= i < j < d.len() implies #[trigger] d[i]@ != #[trigger] d[j]@ by {
                assert(d[i] == names[i] && d[j] == names[j]);
            }
        }
        lemma_distinct_len(d);
        assert(name_set(names) =~= name_set(d).insert(names.last()@)) by {
            assert forall|n: Seq<char>| name_set(names).contains(n) implies name_set(d).insert(
                names.last()@,
            ).contains(n) by {
                let q = choose|q: int| 0 <= q < names.len() && #[trigger] names[q]@ == n;
                if q < d.len() {
                    assert(d[q] == names[q]);
                }
            }
            assert forall|n: Seq<char>| name_set(d).contains(n) implies name_set(names).contains(n) by {
                let q = choose|q: int| 0 <= q < d.len() && #[trigger] d[q]@ == n;
                assert(names[q] == d[q]);
            }
        }
        assert(!name_set(d).contains(names.last()@)) by {
            if name_set(d).contains(names.last()@) {
                let q = choose|q: int| 0 <= q < d.len() && #[trigger] d[q]@ == names.last()@;
                assert(names[q] == d[q]);
                assert(names[q]@ != names[names.len() - 1]@);
            }
        }
    }
}

/// Clicking a row twice leaves the selection as it was.
pub proof fn lemma_toggle_twice(s: Set<Seq<char>>, name: Seq<char>)
    ensures
        toggled(toggled(s, name), name) == s,
{
    if s.contains(name) {
        assert(s.remove(name).insert(name) =~= s);
    } else {
        assert(s.insert(name).remove(name) =~= s);
    }
}

/// Toggling selects exactly when the name was not selected before.
pub proof fn lemma_toggle_flips(s: Set<Seq<char>>, name: Seq<char>, other: Seq<char>)
    ensures
        toggled(s, name).contains(name) == !s.contains(name),
        other != name ==> toggled(s, name).contains(other) == s.contains(other),
{
}

/// One row of the update list: a package name and whether it comes from
/// the AUR (display-only) rather than the official repositories.
#[derive(Debug, Clone)]
pub struct UpdateRow {
    pub name: String,
    pub aur: bool,
}

/// The names that may stay selected, in list order: rows that are not AUR
/// and whose name is not among the packages an upgrade already completed.
pub open spec fn selectable(rows: Seq<UpdateRow>, completed: Seq<String>) -> Seq<Seq<char>>
    decreases rows.len(),
{
    if rows.len() == 0 {
        Seq::empty()
    } else {
        let prev = selectable(rows.drop_last(), completed);
        let row = rows.last();
        if !row.aur && !name_set(completed).contains(row.name@) {
            prev.push(row.name@)
        } else {
            prev
        }
    }
}

/// The names of a list of strings.
pub open spec fn names_of(v: Seq<String>) -> Seq<Seq<char>> {
    v.map_values(|s: String| s@)
}

/// The names the selection may keep: visible (not completed) official
/// rows. AUR rows never feed "Upgrade selected".
pub fn selectable_names(rows: &Vec<UpdateRow>, completed: &Vec<String>) -> (r: Vec<String>)
    ensures
        names_of(r@) == selectable(rows@, completed@),
{
    let mut out: Vec<String> = Vec::new();
    let mut i: usize = 0;
    while i < rows.len()
        invariant
            i <= rows.len(),
            names_of(out@) == selectable(rows@.take(i as int), completed@),
        decreases rows.len() - i,
    {
        assert(rows@.take(i + 1).drop_last() =~= rows@.take(i as int));
        assert(rows@.take(i + 1).last() == rows@[i as int]);
        if !rows[i].aur && !Selection::listed(completed, &rows[i].name) {
            let ghost prev = out@;
            out.push(rows[i].name.clone());
            assert(names_of(out@) =~= names_of(prev).push(rows@[i as int].name@));
        }
        i = i + 1;
    }
    assert(rows@.take(rows.len() as int) =~= rows@);
    out
}

/// Everything `selectable` lists is the name of a non-AUR row that has not
/// completed.
pub proof fn lemma_selectable_official(rows: Seq<UpdateRow>, completed: Seq<String>)
    ensures
        forall|k: int|
            0 <= k < selectable(rows, completed).len() ==> exists|j: int|
                0 <= j < rows.len() && !rows[j].aur && rows[j].name@ == #[trigger] selectable(
                    rows,
                    completed,
                )[k] && !name_set(completed).contains(rows[j].name@),
    decreases rows.len(),
{
    if rows.len() > 0 {
        let d = rows.drop_last();
        lemma_selectable_official(d, completed);
        let prev = selectable(d, completed);
        assert forall|k: int| 0 <= k < selectable(rows, completed).len() implies exists|j: int|
            0 <= j < rows.len() && !rows[j].aur && rows[j].name@ == #[trigger] selectable(
                rows,
                completed,
            )[k] && !name_set(completed).contains(rows[j].name@) by {
            if k < prev.len() {
                let j = choose|j: int|
                    0 <= j < d.len() && !d[j].aur && d[j].name@ == #[trigger] prev[k]
                        && !name_set(completed).contains(d[j].name@);
                assert(rows[j] == d[j]);
            } else {
                assert(rows[rows.len() - 1] == rows.last());
            }
        }
    }
}

/// Selection hygiene keeps no AUR-only or completed name: after
/// `retain_listed` with the selectable names, every selected name is the
/// name of a visible official row.
pub proof fn lemma_retain_keeps_official(
    before: Set<Seq<char>>,
    keep: Seq<String>,
    rows: Seq<UpdateRow>,
    completed: Seq<String>,
    n: Seq<char>,
)
    requires
        names_of(keep) == selectable(rows, completed),
        before.intersect(name_set(keep)).contains(n),
    ensures
        exists|j: int|
            0 <= j < rows.len() && !rows[j].aur && #[trigger] rows[j].name@ == n && !name_set(
                completed,
            ).contains(n),
{
    lemma_selectable_official(rows, completed);
    let q = choose|q: int| 0 <= q < keep.len() && #[trigger] keep[q]@ == n;
    assert(names_of(keep)[q] == keep[q]@);
    assert(selectable(rows, completed)[q] == n);
}

} // verus!
