use vstd::prelude::*;
use crate::schema::{find_struct, first_field_type_name, lookup, StructDescriptor, TypeRef};

verus! {

/// The parent that the first-field convention gives struct `c`: the first struct
/// named by its first field's type, if that type is a plain name of the schema.
pub open spec fn parent_of(s: Seq<StructDescriptor>, c: int) -> Option<int> {
    match first_field_type_name(s[c]) {
        Some(n) => lookup(s, n),
        None => None,
    }
}

pub open spec fn opt_int(o: Option<usize>) -> Option<int> {
    match o {
        Some(v) => Some(v as int),
        None => None,
    }
}

/// `c` lists, in increasing order, exactly the structs whose parent is `p`.
pub open spec fn children_exact(s: Seq<StructDescriptor>, p: int, c: Seq<usize>) -> bool {
    &&& forall|k: int| 0 <= k < c.len() ==> c[k] < s.len() && parent_of(s, c[k] as int) == Some(p)
    &&& forall|k: int, l: int| 0 <= k < l < c.len() ==> c[k] < c[l]
    &&& forall|i: int| 0 <= i < s.len() && parent_of(s, i) == Some(p) ==> c.contains(i as usize)
}

/// The single-inheritance forest over a schema's structs, as index tables.
pub struct SubtypeGraph {
    /// For each struct, the index of its parent.
    pub parent: Vec<Option<usize>>,
    /// For each struct, the indices of its children in increasing order.
    pub children: Vec<Vec<usize>>,
}

impl SubtypeGraph {
    /// The tables describe the subtype relation of `s`.
    pub open spec fn wf(&self, s: Seq<StructDescriptor>) -> bool {
        &&& self.parent@.len() == s.len()
        &&& self.children@.len() == s.len()
        &&& forall|i: int| 0 <= i < s.len() ==> opt_int(#[trigger] self.parent@[i]) == parent_of(s, i)
        &&& forall|p: int| 0 <= p < s.len() ==> children_exact(s, p, #[trigger] self.children@[p]@)
    }

    /// Builds the graph: struct `c` has parent `p` exactly when `c`'s first field's
    /// type names `p`; structs with no fields, or whose first field names no struct,
    /// are roots.
    pub fn build(structs: &Vec<StructDescriptor>) -> (g: SubtypeGraph)
        ensures
            g.wf(structs@),
    {
        let n = structs.len();
        let mut parent: Vec<Option<usize>> = Vec::new();
        let mut i: usize = 0;
        while i < n
            invariant
                n == structs@.len(),
                i <= n,
                parent@.len() == i,
                forall|j: int| 0 <= j < i ==> opt_int(#[trigger] parent@[j]) == parent_of(structs@, j),
            decreases n - i,
        {
            let p = parent_index(&structs[i], structs);
            parent.push(p);
            i += 1;
        }
        let mut children: Vec<Vec<usize>> = Vec::new();
        let mut p: usize = 0;
        while p < n
            invariant
                n == structs@.len(),
                p <= n,
                parent@.len() == n,
                forall|j: int| 0 <= j < n ==> opt_int(#[trigger] parent@[j]) == parent_of(structs@, j),
                children@.len() == p,
                forall|q: int| 0 <= q < p ==> children_exact(structs@, q, #[trigger] children@[q]@),
            decreases n - p,
        {
            let c = children_of(&parent, p);
            assert forall|j: int| 0 <= j < n && parent_of(structs@, j) == Some(p as int) implies c@.contains(j as usize) by {
                assert(opt_int(parent@[j]) == parent_of(structs@, j));
            }
            assert forall|k: int| 0 <= k < c@.len() implies parent_of(structs@, c@[k] as int) == Some(p as int) by {
                assert(opt_int(parent@[c@[k] as int]) == parent_of(structs@, c@[k] as int));
            }
            children.push(c);
            assert(children@[p as int]@ == c@);
            p += 1;
        }
        SubtypeGraph { parent, children }
    }
}

/// The parent of struct `d` among `structs`, by its first field.
fn parent_index(d: &StructDescriptor, structs: &Vec<StructDescriptor>) -> (r: Option<usize>)
    ensures
        opt_int(r) == match first_field_type_name(*d) {
            Some(n) => lookup(structs@, n),
            None => None,
        },
{
    if d.fields.len() == 0 {
        return None;
    }
    match &d.fields[0].ty {
        TypeRef::Path(name) => find_struct(structs, name),
        _ => None,
    }
}

/// The indices `i`, in increasing order, with `parent[i] == Some(p)`.
fn children_of(parent: &Vec<Option<usize>>, p: usize) -> (c: Vec<usize>)
    ensures
        forall|k: int| 0 <= k < c@.len() ==> c@[k] < parent@.len() && parent@[c@[k] as int] == Some(p),
        forall|k: int, l: int| 0 <= k < l < c@.len() ==> c@[k] < c@[l],
        forall|i: int| 0 <= i < parent@.len() && parent@[i] == Some(p) ==> c@.contains(i as usize),
{
    let mut c: Vec<usize> = Vec::new();
    let mut i: usize = 0;
    while i < parent.len()
        invariant
            i <= parent@.len(),
            forall|k: int| 0 <= k < c@.len() ==> c@[k] < i && parent@[c@[k] as int] == Some(p),
            forall|k: int, l: int| 0 <= k < l < c@.len() ==> c@[k] < c@[l],
            forall|j: int| 0 <= j < i && parent@[j] == Some(p) ==> c@.contains(j as usize),
        decreases parent@.len() - i,
    {
        match parent[i] {
            Some(q) => {
                if q == p {
                    let ghost old_c = c@;
                    c.push(i);
                    assert forall|j: int| 0 <= j <= i && parent@[j] == Some(p) implies c@.contains(j as usize) by {
                        if j < i {
                            let k = choose|k: int| 0 <= k < old_c.len() && old_c[k] == j as usize;
                            assert(c@[k] == j as usize);
                        } else {
                            assert(c@[c@.len() - 1] == i);
                        }
                    }
                }
            },
            None => {},
        }
        i += 1;
    }
    c
}

} // verus!
