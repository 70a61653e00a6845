//! Merging the results of several package managers into one group per
//! package manager, and finding the package manager of a chosen record.
use vstd::prelude::*;

use crate::error::FiError;
use crate::result::SearchResult;

verus! {

/// The records of `results` that carry the package manager name `name`, in order.
pub open spec fn by_backend(results: Seq<SearchResult>, name: Seq<char>) -> Seq<SearchResult> {
    results.filter(|r: SearchResult| r.backend@ == name)
}

/// The outputs of the package managers, one list each, as sequences.
pub open spec fn lists_view(lists: Seq<Vec<SearchResult>>) -> Seq<Seq<SearchResult>> {
    lists.map_values(|l: Vec<SearchResult>| l@)
}

/// Concatenates the outputs of all package managers, in the order given.
pub fn combine_results(lists: &Vec<Vec<SearchResult>>) -> (r: Vec<SearchResult>)
    ensures
        r@ == lists_view(lists@).flatten(),
{
    let mut combined: Vec<SearchResult> = Vec::new();
    for i in 0..lists.len()
        invariant
            combined@ == lists_view(lists@.take(i as int)).flatten(),
    {
        let list = &lists[i];
        let ghost before = combined@;
        for j in 0..list.len()
            invariant
                combined@ == before + list@.take(j as int),
        {
            combined.push(list[j].duplicate());
            assert(list@.take(j + 1) =~= list@.take(j as int).push(list@[j as int]));
        }
        proof {
            assert(list@.take(list.len() as int) =~= list@);
            assert(lists_view(lists@.take(i + 1)) =~= lists_view(lists@.take(i as int)).push(list@));
            lists_view(lists@.take(i as int)).lemma_flatten_push(list@);
        }
    }
    assert(lists@.take(lists.len() as int) =~= lists@);
    combined
}

/// One group per package manager name, in the order of `names`, each holding
/// the records of `results` that carry that name, in their order in `results`.
pub fn group_results_by_backend(results: &Vec<SearchResult>, names: &Vec<String>) -> (r: Vec<
    (String, Vec<SearchResult>),
>)
    ensures
        r.len() == names.len(),
        forall|i: int|
            0 <= i < names.len() ==> (#[trigger] r@[i]).0 == names@[i] && r@[i].1@ == by_backend(
                results@,
                names@[i]@,
            ),
{
    let mut sections: Vec<(String, Vec<SearchResult>)> = Vec::new();
    for i in 0..names.len()
        invariant
            sections.len() == i,
            forall|k: int|
                0 <= k < i ==> (#[trigger] sections@[k]).0 == names@[k] && sections@[k].1@
                    == by_backend(results@, names@[k]@),
    {
        let name = &names[i];
        let mut items: Vec<SearchResult> = Vec::new();
        for j in 0..results.len()
            invariant
                items@ == by_backend(results@.take(j as int), name@),
        {
            proof {
                reveal(Seq::filter);
                assert(results@.take(j + 1).drop_last() =~= results@.take(j as int));
            }
            if results[j].backend == *name {
                items.push(results[j].duplicate());
            }
        }
        assert(results@.take(results.len() as int) =~= results@);
        sections.push((name.clone(), items));
    }
    sections
}

/// The position of the package manager named `backend` among `names`: the
/// first that carries the name, or `BackendNotFound` when none does.
pub fn find_backend(names: &Vec<String>, backend: &String) -> (r: Result<usize, FiError>)
    ensures
        r matches Ok(i) ==> i < names.len() && names@[i as int]@ == backend@ && forall|k: int|
            0 <= k < i ==> names@[k]@ != backend@,
        r matches Err(e) ==> e == FiError::BackendNotFound(*backend),
        r is Err <==> forall|k: int| 0 <= k < names.len() ==> names@[k]@ != backend@,
{
    for i in 0..names.len()
        invariant
            forall|k: int| 0 <= k < i ==> names@[k]@ != backend@,
    {
        if names[i] == *backend {
            return Ok(i);
        }
    }
    Err(FiError::BackendNotFound(backend.clone()))
}

/// The positions `i` with `installed[i]`, in increasing order.
pub open spec fn installed_positions(installed: Seq<bool>) -> Seq<usize> {
    Seq::new(installed.len(), |i: int| i as usize).filter(|i: usize| installed[i as int])
}

/// The registered package managers that are installed: their positions in
/// registration order, given whether each one is installed.
pub fn available_backends(installed: &Vec<bool>) -> (r: Vec<usize>)
    ensures
        r@ == installed_positions(installed@),
{
    let ghost all = Seq::new(installed@.len(), |i: int| i as usize);
    let mut r: Vec<usize> = Vec::new();
    for i in 0..installed.len()
        invariant
            all == Seq::new(installed@.len(), |i: int| i as usize),
            r@ == all.take(i as int).filter(|i: usize| installed@[i as int]),
    {
        proof {
            reveal(Seq::filter);
            assert(all.take(i + 1).drop_last() =~= all.take(i as int));
            assert(all.take(i + 1).last() == i);
        }
        if installed[i] {
            r.push(i);
        }
    }
    assert(all.take(installed.len() as int) =~= all);
    r
}

/// What the user reads when no package manager is installed.
pub open spec fn no_sources_message() -> Seq<char> {
    "No package managers found. Please install at least one: dnf, flatpak, or cargo"@
}

/// Checks that at least one package manager is available before anything
/// is searched: with none, the run stops with `InvalidArguments`.
pub fn require_sources(names: &Vec<String>) -> (r: Result<(), FiError>)
    ensures
        r is Ok <==> names.len() > 0,
        r matches Err(e) ==> e matches FiError::InvalidArguments(m) && m@ == no_sources_message(),
{
    if names.len() == 0 {
        return Err(
            FiError::InvalidArguments(
                "No package managers found. Please install at least one: dnf, flatpak, or cargo".to_string(),
            ),
        );
    }
    Ok(())
}

proof fn lemma_filter_all(s: Seq<SearchResult>, name: Seq<char>)
    requires
        forall|k: int| 0 <= k < s.len() ==> (#[trigger] s[k]).backend@ == name,
    ensures
        by_backend(s, name) == s,
    decreases s.len(),
{
    reveal(Seq::filter);
    if s.len() > 0 {
        lemma_filter_all(s.drop_last(), name);
        assert(s.drop_last().push(s.last()) =~= s);
    }
}

proof fn lemma_filter_none(s: Seq<SearchResult>, name: Seq<char>)
    requires
        forall|k: int| 0 <= k < s.len() ==> (#[trigger] s[k]).backend@ != name,
    ensures
        by_backend(s, name) == Seq::<SearchResult>::empty(),
    decreases s.len(),
{
    reveal(Seq::filter);
    if s.len() > 0 {
        lemma_filter_none(s.drop_last(), name);
    }
}

proof fn lemma_flatten_by_backend(lists: Seq<Seq<SearchResult>>, names: Seq<Seq<char>>, j: int)
    requires
        lists.len() <= names.len(),
        0 <= j < names.len(),
        forall|a: int, b: int| 0 <= a < b < names.len() ==> names[a] != names[b],
        forall|a: int, k: int|
            0 <= a < lists.len() && 0 <= k < lists[a].len() ==> (#[trigger] lists[a][k]).backend@
                == names[a],
    ensures
        by_backend(lists.flatten(), names[j]) == (if j < lists.len() {
            lists[j]
        } else {
            Seq::empty()
        }),
    decreases lists.len(),
{
    if lists.len() == 0 {
        reveal(Seq::filter);
    } else {
        let init = lists.drop_last();
        let last = lists.last();
        let n = lists.len() - 1;
        lemma_flatten_by_backend(init, names, j);
        assert(init.push(last) =~= lists);
        init.lemma_flatten_push(last);
        Seq::filter_distributes_over_add(init.flatten(), last, |r: SearchResult| r.backend@ == names[j]);
        assert(forall|k: int| 0 <= k < last.len() ==> (#[trigger] last[k]).backend@ == names[n]);
        if j == n {
            lemma_filter_all(last, names[j]);
        } else {
            lemma_filter_none(last, names[j]);
        }
        if j == n {
            assert(by_backend(init.flatten(), names[j]) == Seq::<SearchResult>::empty());
            assert(Seq::<SearchResult>::empty() + last =~= last);
        } else if j < n {
            assert(lists[j] + Seq::<SearchResult>::empty() =~= lists[j]);
        } else {
            assert(Seq::<SearchResult>::empty() + Seq::<SearchResult>::empty() =~= Seq::<
                SearchResult,
            >::empty());
        }
    }
}

/// Searching all package managers and grouping the merged results gives one
/// group per package manager, in their registration order, and each group is
/// exactly that package manager's own output: one that failed and returned
/// nothing gets an empty group and leaves every other group as it is. This
/// holds when package manager names are distinct and each one labels its
/// records with its own name.
pub proof fn lemma_groups_follow_sources(
    lists: Seq<Vec<SearchResult>>,
    names: Seq<String>,
    groups: Seq<(String, Vec<SearchResult>)>,
)
    requires
        lists.len() == names.len(),
        forall|a: int, b: int| 0 <= a < b < names.len() ==> names[a]@ != names[b]@,
        forall|a: int, k: int|
            0 <= a < lists.len() && 0 <= k < lists[a].len() ==> (#[trigger] lists[a]@[k]).backend@
                == names[a]@,
        groups.len() == names.len(),
        forall|i: int|
            0 <= i < names.len() ==> (#[trigger] groups[i]).0 == names[i] && groups[i].1@ == by_backend(
                lists_view(lists).flatten(),
                names[i]@,
            ),
    ensures
        forall|i: int| 0 <= i < names.len() ==> (#[trigger] groups[i]).0 == names[i] && groups[i].1@
            == lists[i]@,
{
    let lv = lists_view(lists);
    let nv = names.map_values(|n: String| n@);
    assert forall|a: int, k: int| 0 <= a < lv.len() && 0 <= k < lv[a].len() implies (
    #[trigger] lv[a][k]).backend@ == nv[a] by {
        assert(lists[a]@[k].backend@ == names[a]@);
    }
    assert forall|i: int| 0 <= i < names.len() implies (#[trigger] groups[i]).0 == names[i]
        && groups[i].1@ == lists[i]@ by {
        lemma_flatten_by_backend(lv, nv, i);
    }
}

} // verus!
