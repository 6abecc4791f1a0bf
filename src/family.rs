use vstd::prelude::*;
use crate::graph::{children_exact, parent_of, SubtypeGraph};
use crate::schema::{first_field_type_name, StructDescriptor, TypeRef};

verus! {

/// Struct `i` is a tagged root: its first field's type is the tag type.
pub open spec fn is_tagged_root(s: Seq<StructDescriptor>, tag: Seq<char>, i: int) -> bool {
    0 <= i < s.len() && first_field_type_name(s[i]) == Some(tag)
}

/// The `k`-th ancestor of struct `i` (`i` itself for `k == 0`).
pub open spec fn ancestor(s: Seq<StructDescriptor>, i: int, k: nat) -> Option<int>
    decreases k,
{
    if k == 0 {
        Some(i)
    } else {
        match parent_of(s, i) {
            Some(p) => ancestor(s, p, (k - 1) as nat),
            None => None,
        }
    }
}

/// Struct `i` is reachable by child edges from a tagged root: one of its
/// ancestors, or itself, is a tagged root.
pub open spec fn in_family(s: Seq<StructDescriptor>, tag: Seq<char>, i: int) -> bool {
    0 <= i < s.len() && exists|k: nat, r: int| ancestor(s, i, k) == Some(r) && is_tagged_root(s, tag, r)
}

proof fn lemma_root_in_family(s: Seq<StructDescriptor>, tag: Seq<char>, r: int)
    requires
        is_tagged_root(s, tag, r),
    ensures
        in_family(s, tag, r),
{
    assert(ancestor(s, r, 0) == Some(r));
}

proof fn lemma_child_in_family(s: Seq<StructDescriptor>, tag: Seq<char>, j: int, c: int)
    requires
        in_family(s, tag, j),
        0 <= c < s.len(),
        parent_of(s, c) == Some(j),
    ensures
        in_family(s, tag, c),
{
    let (k, r) = choose|k: nat, r: int| ancestor(s, j, k) == Some(r) && is_tagged_root(s, tag, r);
    assert(ancestor(s, c, k + 1) == ancestor(s, j, k));
}

/// A set of structs that holds every tagged root and is closed under child edges
/// holds every member of the family.
proof fn lemma_closed_holds_family(
    s: Seq<StructDescriptor>,
    tag: Seq<char>,
    marked: Seq<bool>,
    i: int,
    k: nat,
    r: int,
)
    requires
        marked.len() == s.len(),
        0 <= i < s.len(),
        forall|q: int| is_tagged_root(s, tag, q) ==> marked[q],
        forall|j: int, c: int|
            0 <= j < s.len() && 0 <= c < s.len() && #[trigger] marked[j] && #[trigger] parent_of(s, c) == Some(j)
                ==> marked[c],
        ancestor(s, i, k) == Some(r),
        is_tagged_root(s, tag, r),
    ensures
        marked[i],
    decreases k,
{
    if k > 0 {
        let p = parent_of(s, i)->Some_0;
        crate::schema::lemma_lookup_in_range(s, first_field_type_name(s[i])->Some_0);
        lemma_closed_holds_family(s, tag, marked, p, (k - 1) as nat, r);
    }
}

/// Distinct indices below `n` number at most `n`.
proof fn lemma_distinct_indices_len(v: Seq<usize>, n: int)
    requires
        n >= 0,
        v.no_duplicates(),
        forall|k: int| 0 <= k < v.len() ==> v[k] < n,
    ensures
        v.len() <= n,
    decreases v.len(),
{
    if v.len() > 0 {
        let last = v.last();
        let t = v.drop_last();
        let t2 = t.map_values(|x: usize| if x > last { (x - 1) as usize } else { x });
        assert forall|a: int, b: int| 0 <= a < t2.len() && 0 <= b < t2.len() && a != b implies t2[a] != t2[b] by {
            assert(v[a] != v[b]);
            assert(v[a] != last && v[b] != last) by {
                assert(v[v.len() - 1] == last);
            }
        }
        assert(v[v.len() - 1] == last);
        assert forall|a: int| 0 <= a < t2.len() implies t2[a] < n - 1 by {
            assert(v[a] != last);
        }
        lemma_distinct_indices_len(t2, n - 1);
    }
}

/// Struct `i` lies on a cycle of the parent relation: it is its own ancestor.
pub open spec fn on_cycle(s: Seq<StructDescriptor>, i: int) -> bool {
    exists|k: nat| k >= 1 && #[trigger] ancestor(s, i, k) == Some(i)
}

proof fn lemma_ancestor_in_range(s: Seq<StructDescriptor>, i: int, k: nat)
    requires
        0 <= i < s.len(),
    ensures
        ancestor(s, i, k) matches Some(x) ==> 0 <= x < s.len(),
    decreases k,
{
    if k > 0 {
        match parent_of(s, i) {
            Some(p) => {
                crate::schema::lemma_lookup_in_range(s, first_field_type_name(s[i])->Some_0);
                lemma_ancestor_in_range(s, p, (k - 1) as nat);
            },
            None => {},
        }
    }
}

proof fn lemma_ancestor_compose(s: Seq<StructDescriptor>, i: int, a: nat, m: nat, x: int)
    requires
        ancestor(s, i, a) == Some(x),
    ensures
        ancestor(s, i, a + m) == ancestor(s, x, m),
    decreases a,
{
    if a > 0 {
        let p = parent_of(s, i)->Some_0;
        lemma_ancestor_compose(s, p, (a - 1) as nat, m, x);
        assert(ancestor(s, i, a + m) == ancestor(s, p, (a + m - 1) as nat));
    }
}

/// A shortest cycle through `i` has at most as many steps as there are structs.
proof fn lemma_short_cycle(s: Seq<StructDescriptor>, i: int, k: nat)
    requires
        0 <= i < s.len() <= usize::MAX,
        k >= 1,
        ancestor(s, i, k) == Some(i),
        forall|j: nat| 1 <= j < k ==> #[trigger] ancestor(s, i, j) != Some(i),
    ensures
        k <= s.len(),
{
    let v = Seq::new(k, |j: int| ancestor(s, i, j as nat)->Some_0 as usize);
    assert forall|j: int| 0 <= j < k implies ancestor(s, i, j as nat) is Some && v[j] < s.len()
        && v[j] as int == ancestor(s, i, j as nat)->Some_0 by {
        if ancestor(s, i, j as nat) is None {
            lemma_none_stays_none(s, i, j as nat, (k - j) as nat);
            assert(j as nat + (k - j) as nat == k);
            assert(ancestor(s, i, k) is None);
        }
        lemma_ancestor_in_range(s, i, j as nat);
        let x = ancestor(s, i, j as nat)->Some_0;
        assert(0 <= x < s.len());
        assert(v[j] == x as usize);
    }
    assert forall|a: int, b: int| 0 <= a < b < k implies v[a] != v[b] by {
        if v[a] == v[b] {
            let x = ancestor(s, i, a as nat)->Some_0;
            assert(ancestor(s, i, b as nat) == Some(x));
            lemma_ancestor_compose(s, i, b as nat, (k - b) as nat, x);
            lemma_ancestor_compose(s, i, a as nat, (k - b) as nat, x);
            assert(ancestor(s, i, (a + (k - b)) as nat) == Some(i));
        }
    }
    lemma_distinct_indices_len(v, s.len() as int);
}

proof fn lemma_none_stays_none(s: Seq<StructDescriptor>, i: int, a: nat, m: nat)
    requires
        ancestor(s, i, a) is None,
    ensures
        ancestor(s, i, a + m) is None,
    decreases a,
{
    if a > 0 {
        match parent_of(s, i) {
            Some(p) => {
                lemma_none_stays_none(s, p, (a - 1) as nat, m);
                assert(ancestor(s, i, a + m) == ancestor(s, p, (a + m - 1) as nat));
            },
            None => {},
        }
    } else {
        assert(false);
    }
}

/// A cycle through `i` has a shortest one.
proof fn lemma_shortest_cycle(s: Seq<StructDescriptor>, i: int, k: nat) -> (m: nat)
    requires
        k >= 1,
        ancestor(s, i, k) == Some(i),
    ensures
        1 <= m <= k,
        ancestor(s, i, m) == Some(i),
        forall|j: nat| 1 <= j < m ==> #[trigger] ancestor(s, i, j) != Some(i),
    decreases k,
{
    if exists|j: nat| 1 <= j < k && #[trigger] ancestor(s, i, j) == Some(i) {
        let j = choose|j: nat| 1 <= j < k && #[trigger] ancestor(s, i, j) == Some(i);
        lemma_shortest_cycle(s, i, j)
    } else {
        k
    }
}

/// Whether struct `i` is its own ancestor.
fn cycles_back(parent: &Vec<Option<usize>>, i: usize, Ghost(s): Ghost<Seq<StructDescriptor>>) -> (r: bool)
    requires
        parent@.len() == s.len(),
        i < s.len(),
        forall|j: int| 0 <= j < s.len() ==> crate::graph::opt_int(#[trigger] parent@[j]) == parent_of(s, j),
    ensures
        r == on_cycle(s, i as int),
{
    let n = parent.len();
    let mut cur = parent[i];
    let mut k: usize = 0;
    proof {
        assert(ancestor(s, i as int, 0) == Some(i as int));
        assert(ancestor(s, i as int, 1) == crate::graph::opt_int(cur)) by {
            match parent_of(s, i as int) {
                Some(p) => assert(ancestor(s, p, 0) == Some(p)),
                None => {},
            }
        }
    }
    while k < n
        invariant
            n == s.len(),
            parent@.len() == n,
            i < n,
            forall|j: int| 0 <= j < s.len() ==> crate::graph::opt_int(#[trigger] parent@[j]) == parent_of(s, j),
            k <= n,
            crate::graph::opt_int(cur) == ancestor(s, i as int, (k + 1) as nat),
            forall|j: nat| 1 <= j <= k ==> #[trigger] ancestor(s, i as int, j) != Some(i as int),
        decreases n - k,
    {
        match cur {
            None => {
                proof {
                    if on_cycle(s, i as int) {
                        let big = choose|m: nat| m >= 1 && #[trigger] ancestor(s, i as int, m) == Some(i as int);
                        let m = lemma_shortest_cycle(s, i as int, big);
                        if m >= k + 1 {
                            lemma_none_stays_none(s, i as int, (k + 1) as nat, (m - k - 1) as nat);
                        }
                    }
                }
                return false;
            },
            Some(c) => {
                if c == i {
                    return true;
                }
                proof {
                    lemma_ancestor_in_range(s, i as int, (k + 1) as nat);
                    lemma_ancestor_compose(s, i as int, (k + 1) as nat, 1, c as int);
                    assert(ancestor(s, c as int, 1) == parent_of(s, c as int)) by {
                        match parent_of(s, c as int) {
                            Some(p) => assert(ancestor(s, p, 0) == Some(p)),
                            None => {},
                        }
                    }
                }
                cur = parent[c];
                k += 1;
            },
        }
    }
    proof {
        if on_cycle(s, i as int) {
            let big = choose|m: nat| m >= 1 && #[trigger] ancestor(s, i as int, m) == Some(i as int);
            let m = lemma_shortest_cycle(s, i as int, big);
            lemma_short_cycle(s, i as int, m);
        }
    }
    false
}

/// A member of the listed structs that is its own ancestor, if any.
pub fn find_cycle(structs: &Vec<StructDescriptor>, graph: &SubtypeGraph, order: &Vec<usize>) -> (r: Option<usize>)
    requires
        graph.wf(structs@),
        forall|k: int| 0 <= k < order@.len() ==> order@[k] < structs@.len(),
    ensures
        r matches Some(i) ==> order@.contains(i) && on_cycle(structs@, i as int),
        r is None ==> forall|k: int| 0 <= k < order@.len() ==> !on_cycle(structs@, #[trigger] order@[k] as int),
{
    let mut k: usize = 0;
    while k < order.len()
        invariant
            graph.wf(structs@),
            forall|m: int| 0 <= m < order@.len() ==> order@[m] < structs@.len(),
            k <= order@.len(),
            forall|m: int| 0 <= m < k ==> !on_cycle(structs@, #[trigger] order@[m] as int),
        decreases order@.len() - k,
    {
        let i = order[k];
        if cycles_back(&graph.parent, i, Ghost(structs@)) {
            assert(order@[k as int] == i);
            return Some(i);
        }
        k += 1;
    }
    None
}

/// Whether struct `d` is a tagged root: its first field's type is `tag`.
fn is_tagged(d: &StructDescriptor, tag: &String) -> (r: bool)
    ensures
        r == (first_field_type_name(*d) == Some(tag@)),
{
    if d.fields.len() == 0 {
        return false;
    }
    match &d.fields[0].ty {
        TypeRef::Path(name) => *name == *tag,
        _ => false,
    }
}

/// The node family: every struct reachable by child edges from a tagged root
/// (a struct whose first field has type `tag`), each listed once, in the order
/// of a depth-first walk.
pub fn node_family(structs: &Vec<StructDescriptor>, graph: &SubtypeGraph, tag: &String) -> (fam: Vec<usize>)
    requires
        graph.wf(structs@),
    ensures
        fam@.no_duplicates(),
        forall|k: int| 0 <= k < fam@.len() ==> fam@[k] < structs@.len(),
        forall|i: int| 0 <= i < structs@.len() ==> (fam@.contains(i as usize) <==> in_family(structs@, tag@, i)),
{
    let ghost s = structs@;
    let n = structs.len();
    let mut marked: Vec<bool> = Vec::new();
    let mut stack: Vec<usize> = Vec::new();
    let mut i: usize = 0;
    while i < n
        invariant
            n == s.len(),
            s == structs@,
            i <= n,
            marked@.len() == i,
            forall|j: int| 0 <= j < i ==> !marked@[j],
            forall|k: int| 0 <= k < stack@.len() ==> stack@[k] < n && is_tagged_root(s, tag@, stack@[k] as int),
            forall|q: int| 0 <= q < i && is_tagged_root(s, tag@, q) ==> stack@.contains(q as usize),
        decreases n - i,
    {
        marked.push(false);
        if is_tagged(&structs[i], tag) {
            let ghost old_stack = stack@;
            stack.push(i);
            assert forall|q: int| 0 <= q <= i && is_tagged_root(s, tag@, q) implies stack@.contains(q as usize) by {
                if q < i {
                    let k = choose|k: int| 0 <= k < old_stack.len() && old_stack[k] == q as usize;
                    assert(stack@[k] == q as usize);
                } else {
                    assert(stack@[stack@.len() - 1] == i);
                }
            }
        }
        i += 1;
    }
    assert forall|k: int| 0 <= k < stack@.len() implies in_family(s, tag@, stack@[k] as int) by {
        lemma_root_in_family(s, tag@, stack@[k] as int);
    }
    let mut fam: Vec<usize> = Vec::new();
    while stack.len() > 0
        invariant
            n == s.len(),
            s == structs@,
            graph.wf(s),
            marked@.len() == n,
            forall|j: int| 0 <= j < n ==> (marked@[j] <==> fam@.contains(j as usize)),
            fam@.no_duplicates(),
            forall|k: int| 0 <= k < fam@.len() ==> fam@[k] < n && in_family(s, tag@, fam@[k] as int),
            forall|k: int| 0 <= k < stack@.len() ==> stack@[k] < n && in_family(s, tag@, stack@[k] as int),
            forall|q: int| is_tagged_root(s, tag@, q) ==> marked@[q] || stack@.contains(q as usize),
            forall|j: int, c: int|
                0 <= j < n && 0 <= c < n && marked@[j] && parent_of(s, c) == Some(j)
                    ==> marked@[c] || stack@.contains(c as usize),
        decreases n - fam@.len(), stack@.len(),
    {
        proof {
            lemma_distinct_indices_len(fam@, n as int);
        }
        let ghost before = stack@;
        let j = stack.pop().unwrap();
        assert(before == stack@.push(j));
        assert forall|x: usize| before.contains(x) && x != j implies stack@.contains(x) by {
            let k = choose|k: int| 0 <= k < before.len() && before[k] == x;
            assert(k < stack@.len());
            assert(stack@[k] == x);
        }
        if !marked[j] {
            let ghost old_fam = fam@;
            let ghost old_marked = marked@;
            marked.set(j, true);
            fam.push(j);
            assert forall|a: int| 0 <= a < n implies (marked@[a] <==> fam@.contains(a as usize)) by {
                if a == j as int {
                    assert(fam@[fam@.len() - 1] == j);
                } else if old_marked[a] {
                    let k = choose|k: int| 0 <= k < old_fam.len() && old_fam[k] == a as usize;
                    assert(fam@[k] == a as usize);
                } else {
                    if fam@.contains(a as usize) {
                        let k = choose|k: int| 0 <= k < fam@.len() && fam@[k] == a as usize;
                        if k < old_fam.len() {
                            assert(old_fam[k] == a as usize);
                        }
                    }
                }
            }
            assert(!old_fam.contains(j));
            assert(fam@.no_duplicates()) by {
                assert forall|a: int, b: int| 0 <= a < b < fam@.len() implies fam@[a] != fam@[b] by {
                    if b == fam@.len() - 1 {
                        assert(old_fam[a] == fam@[a]);
                    } else {
                        assert(old_fam[a] != old_fam[b]);
                    }
                }
            }
            let kids = &graph.children[j];
            assert(children_exact(s, j as int, kids@));
            let ghost base = stack@;
            let mut m: usize = 0;
            while m < kids.len()
                invariant
                    n == s.len(),
                    j < n,
                    children_exact(s, j as int, kids@),
                    m <= kids@.len(),
                    stack@ == base + kids@.subrange(0, m as int),
                decreases kids@.len() - m,
            {
                stack.push(kids[m]);
                assert(stack@ == base + kids@.subrange(0, m + 1));
                m += 1;
            }
            assert(kids@.subrange(0, kids@.len() as int) == kids@);
            assert forall|x: usize| base.contains(x) implies stack@.contains(x) by {
                let k = choose|k: int| 0 <= k < base.len() && base[k] == x;
                assert(stack@[k] == x);
            }
            assert forall|x: usize| kids@.contains(x) implies stack@.contains(x) by {
                let k = choose|k: int| 0 <= k < kids@.len() && kids@[k] == x;
                assert(stack@[base.len() + k] == x);
            }
            assert forall|k: int| 0 <= k < stack@.len() implies stack@[k] < n && in_family(s, tag@, stack@[k] as int) by {
                if k < base.len() {
                    assert(stack@[k] == base[k]);
                    assert(before[k] == base[k]);
                } else {
                    let c = kids@[k - base.len()];
                    assert(stack@[k] == c);
                    lemma_child_in_family(s, tag@, j as int, c as int);
                }
            }
            proof {
                lemma_distinct_indices_len(fam@, n as int);
            }
        } else {
            assert forall|k: int| 0 <= k < stack@.len() implies stack@[k] < n && in_family(s, tag@, stack@[k] as int) by {
                assert(stack@[k] == before[k]);
            }
        }
    }
    assert forall|i: int| 0 <= i < n && in_family(s, tag@, i) implies fam@.contains(i as usize) by {
        let (k, r) = choose|k: nat, r: int| ancestor(s, i, k) == Some(r) && is_tagged_root(s, tag@, r);
        lemma_closed_holds_family(s, tag@, marked@, i, k, r);
    }
    fam
}

} // verus!
