use vstd::prelude::*;
use crate::classify::{classify_struct, family_failures, struct_failures, struct_steps, ClassifyError, TraversalProgram};
use crate::family::{find_cycle, in_family, node_family, on_cycle};
use crate::graph::SubtypeGraph;
use crate::rules::{Rules, UnionBranch};
use crate::schema::{Schema, StructDescriptor};

verus! {

/// Family membership as one flag per struct.
pub open spec fn membership(n: nat, fam: Seq<usize>) -> Seq<bool> {
    Seq::new(n, |i: int| fam.contains(i as usize))
}

/// `p` holds, in the order of `order`, the program of each listed struct.
pub open spec fn programs_match(
    s: Seq<StructDescriptor>,
    fam: Seq<bool>,
    rules: Rules,
    order: Seq<usize>,
    p: Seq<TraversalProgram>,
) -> bool {
    &&& p.len() == order.len()
    &&& forall|k: int| 0 <= k < p.len() ==> {
        &&& (#[trigger] p[k]).struct_index == order[k]
        &&& p[k].struct_name == s[order[k] as int].name
        &&& p[k].steps@ == struct_steps(s, fam, rules, s[order[k] as int])
    }
}

/// What classifying the listed structs yields: their programs where no field
/// fails, else every failure of every listed struct.
pub open spec fn classified(
    s: Seq<StructDescriptor>,
    fam: Seq<bool>,
    rules: Rules,
    order: Seq<usize>,
    r: Result<Vec<TraversalProgram>, Vec<ClassifyError>>,
) -> bool {
    &&& (r is Ok <==> family_failures(s, fam, rules, order).len() == 0)
    &&& (r matches Ok(p) ==> programs_match(s, fam, rules, order, p@))
    &&& (r matches Err(e) ==> e@ == family_failures(s, fam, rules, order))
}

/// Determinism law: two classifications of the same structs under the same
/// rules agree: both succeed with the same programs, or both fail with the same
/// report.
pub proof fn classification_is_deterministic(
    s: Seq<StructDescriptor>,
    fam: Seq<bool>,
    rules: Rules,
    order: Seq<usize>,
    first_run: Result<Vec<TraversalProgram>, Vec<ClassifyError>>,
    second_run: Result<Vec<TraversalProgram>, Vec<ClassifyError>>,
)
    requires
        classified(s, fam, rules, order, first_run),
        classified(s, fam, rules, order, second_run),
    ensures
        first_run is Ok <==> second_run is Ok,
        first_run matches Ok(first) ==> (second_run matches Ok(second) ==> first@.len() == second@.len() && forall|k: int| 0 <= k < first@.len() ==> {
            &&& (#[trigger] first@[k]).struct_index == second@[k].struct_index
            &&& first@[k].struct_name == second@[k].struct_name
            &&& first@[k].steps@ == second@[k].steps@
        }),
        first_run matches Err(first) ==> (second_run matches Err(second) ==> first@ == second@),
{
}

/// One flag per struct: whether `fam` lists it.
pub fn family_flags(n: usize, fam: &Vec<usize>) -> (r: Vec<bool>)
    requires
        forall|k: int| 0 <= k < fam@.len() ==> fam@[k] < n,
    ensures
        r@ == membership(n as nat, fam@),
{
    let mut r: Vec<bool> = Vec::new();
    let mut i: usize = 0;
    while i < n
        invariant
            i <= n,
            r@.len() == i,
            forall|j: int| 0 <= j < i ==> !r@[j],
        decreases n - i,
    {
        r.push(false);
        i += 1;
    }
    let mut k: usize = 0;
    while k < fam.len()
        invariant
            r@.len() == n,
            k <= fam@.len(),
            forall|m: int| 0 <= m < fam@.len() ==> fam@[m] < n,
            forall|j: int| 0 <= j < n ==> r@[j] == fam@.subrange(0, k as int).contains(j as usize),
        decreases fam@.len() - k,
    {
        let ghost pre = fam@.subrange(0, k as int);
        let ghost next = fam@.subrange(0, k + 1);
        assert(next == pre.push(fam@[k as int]));
        r.set(fam[k], true);
        assert forall|j: int| 0 <= j < n implies r@[j] == next.contains(j as usize) by {
            if pre.contains(j as usize) {
                let m = choose|m: int| 0 <= m < pre.len() && pre[m] == j as usize;
                assert(next[m] == j as usize);
            }
            if next.contains(j as usize) && j as usize != fam@[k as int] {
                let m = choose|m: int| 0 <= m < next.len() && next[m] == j as usize;
                assert(pre[m] == j as usize);
            }
            if j as usize == fam@[k as int] {
                assert(next[k as int] == j as usize);
            }
        }
        k += 1;
    }
    assert(fam@.subrange(0, fam@.len() as int) == fam@);
    assert(r@ == membership(n as nat, fam@));
    r
}

/// Classifies every listed struct, and fails with every unclassifiable field of
/// all of them at once where there is any.
pub fn classify_family(
    structs: &Vec<StructDescriptor>,
    fam: &Vec<bool>,
    rules: &Rules,
    order: &Vec<usize>,
) -> (r: Result<Vec<TraversalProgram>, Vec<ClassifyError>>)
    requires
        fam@.len() == structs@.len(),
        forall|k: int| 0 <= k < order@.len() ==> order@[k] < structs@.len(),
    ensures
        classified(structs@, fam@, *rules, order@, r),
{
    let mut progs: Vec<TraversalProgram> = Vec::new();
    let mut errs: Vec<ClassifyError> = Vec::new();
    let mut k: usize = 0;
    while k < order.len()
        invariant
            fam@.len() == structs@.len(),
            forall|m: int| 0 <= m < order@.len() ==> order@[m] < structs@.len(),
            k <= order@.len(),
            programs_match(structs@, fam@, *rules, order@.subrange(0, k as int), progs@),
            errs@ == family_failures(structs@, fam@, *rules, order@.subrange(0, k as int)),
        decreases order@.len() - k,
    {
        let i = order[k];
        let (steps, mut fails) = classify_struct(structs, fam, rules, &structs[i]);
        let ghost next = order@.subrange(0, k + 1);
        assert(next.drop_last() == order@.subrange(0, k as int));
        errs.append(&mut fails);
        progs.push(TraversalProgram { struct_index: i, struct_name: structs[i].name.clone(), steps });
        k += 1;
    }
    assert(order@.subrange(0, order@.len() as int) == order@);
    if errs.len() == 0 {
        Ok(progs)
    } else {
        Err(errs)
    }
}

/// A dispatch entry: nodes whose runtime tag is `tag` are walked by program `program`.
pub struct TagEntry {
    pub tag: String,
    pub program: usize,
}

/// Everything that walking and rendering a node graph needs: one program per
/// family struct, the dispatch table by runtime tag, and the branches of the
/// union struct.
pub struct NodeWalker {
    pub programs: Vec<TraversalProgram>,
    pub dispatch: Vec<TagEntry>,
    pub union_branches: Vec<UnionBranch>,
}

/// `d` holds, in increasing program order, one entry for each program whose
/// struct has a runtime tag, and no other.
pub open spec fn dispatch_exact(p: Seq<TraversalProgram>, tags: Seq<String>, d: Seq<TagEntry>) -> bool {
    &&& forall|m: int| 0 <= m < d.len() ==> {
        &&& (#[trigger] d[m]).program < p.len()
        &&& d[m].tag == p[d[m].program as int].struct_name
        &&& lists_name(tags, d[m].tag@)
    }
    &&& forall|m: int, l: int| 0 <= m < l < d.len() ==> d[m].program < d[l].program
    &&& forall|k: int| 0 <= k < p.len() && lists_name(tags, #[trigger] p[k].struct_name@)
        ==> exists|m: int| 0 <= m < d.len() && d[m].program == k
}

/// One of `names` spells `n`.
pub open spec fn lists_name(names: Seq<String>, n: Seq<char>) -> bool {
    exists|j: int| 0 <= j < names.len() && names[j]@ == n
}

/// `o` lists each member of the family exactly once.
pub open spec fn enumerates_family(s: Seq<StructDescriptor>, tag: Seq<char>, o: Seq<usize>) -> bool {
    &&& o.no_duplicates()
    &&& forall|k: int| 0 <= k < o.len() ==> o[k] < s.len()
    &&& forall|i: int| 0 <= i < s.len() ==> (o.contains(i as usize) <==> in_family(s, tag, i))
}

pub open spec fn family_mask(s: Seq<StructDescriptor>, tag: Seq<char>) -> Seq<bool> {
    Seq::new(s.len(), |i: int| in_family(s, tag, i))
}

pub open spec fn program_order(p: Seq<TraversalProgram>) -> Seq<usize> {
    p.map_values(|t: TraversalProgram| t.struct_index)
}

/// Whether `tags` holds `name`.
fn has_tag(tags: &Vec<String>, name: &String) -> (r: bool)
    ensures
        r == lists_name(tags@, name@),
{
    let mut i: usize = 0;
    while i < tags.len()
        invariant
            i <= tags@.len(),
            forall|j: int| 0 <= j < i ==> tags@[j]@ != name@,
        decreases tags@.len() - i,
    {
        if tags[i] == *name {
            return true;
        }
        i += 1;
    }
    false
}

/// The dispatch table: an entry for each program whose struct has a runtime tag.
fn dispatch_table(programs: &Vec<TraversalProgram>, tags: &Vec<String>) -> (d: Vec<TagEntry>)
    ensures
        dispatch_exact(programs@, tags@, d@),
{
    let mut d: Vec<TagEntry> = Vec::new();
    let mut k: usize = 0;
    while k < programs.len()
        invariant
            k <= programs@.len(),
            forall|m: int| 0 <= m < d@.len() ==> {
                &&& (#[trigger] d@[m]).program < k
                &&& d@[m].tag == programs@[d@[m].program as int].struct_name
                &&& lists_name(tags@, d@[m].tag@)
            },
            forall|m: int, l: int| 0 <= m < l < d@.len() ==> d@[m].program < d@[l].program,
            forall|j: int| 0 <= j < k && lists_name(tags@, #[trigger] programs@[j].struct_name@)
                ==> exists|m: int| 0 <= m < d@.len() && d@[m].program == j,
        decreases programs@.len() - k,
    {
        let name = &programs[k].struct_name;
        let ghost old_d = d@;
        if has_tag(tags, name) {
            d.push(TagEntry { tag: name.clone(), program: k });
            assert forall|j: int| 0 <= j <= k && lists_name(tags@, #[trigger] programs@[j].struct_name@)
                implies exists|m: int| 0 <= m < d@.len() && d@[m].program == j by {
                if j == k {
                    assert(d@[d@.len() - 1].program == k);
                } else {
                    let m = choose|m: int| 0 <= m < old_d.len() && old_d[m].program == j;
                    assert(d@[m] == old_d[m]);
                }
            }
        }
        k += 1;
    }
    d
}

/// Failures of an enumeration are empty exactly when each listed struct has none.
proof fn lemma_no_failures(s: Seq<StructDescriptor>, fam: Seq<bool>, rules: Rules, o: Seq<usize>)
    ensures
        family_failures(s, fam, rules, o).len() == 0 <==> forall|k: int| 0 <= k < o.len()
            ==> (#[trigger] struct_failures(s, fam, rules, s[o[k] as int])).len() == 0,
    decreases o.len(),
{
    if o.len() > 0 {
        lemma_no_failures(s, fam, rules, o.drop_last());
        assert forall|k: int| 0 <= k < o.len() - 1 implies #[trigger] o.drop_last()[k] == o[k] by {}
        if family_failures(s, fam, rules, o).len() == 0 {
            assert forall|k: int| 0 <= k < o.len() implies (#[trigger] struct_failures(s, fam, rules, s[o[k] as int])).len() == 0 by {
                if k < o.len() - 1 {
                    assert(o.drop_last()[k] == o[k]);
                }
            }
        }
    }
}

/// Why a run produced no walker.
#[derive(Debug)]
pub enum GenerateError {
    /// A member of the node family is its own ancestor: the first-field
    /// convention no longer describes a forest, and nothing downstream is sound.
    Cycle(usize),
    /// Every unclassifiable field of every family member.
    Unclassifiable(Vec<ClassifyError>),
}

/// Some member of the family is its own ancestor.
pub open spec fn family_has_cycle(s: Seq<StructDescriptor>, tag: Seq<char>) -> bool {
    exists|i: int| 0 <= i < s.len() && in_family(s, tag, i) && on_cycle(s, i)
}

/// Runs the whole analysis on a schema under one version's rules: builds the
/// subtype graph, finds the node family, classifies each member's fields, and
/// builds the dispatch table. Fails where a family member is its own ancestor,
/// and else with every unclassifiable field of every family member where there
/// is any.
pub fn generate(schema: &Schema, rules: Rules) -> (r: Result<NodeWalker, GenerateError>)
    ensures
        r matches Err(GenerateError::Cycle(i)) ==> in_family(schema.structs@, rules.tag_type@, i as int)
            && on_cycle(schema.structs@, i as int),
        r matches Err(GenerateError::Cycle(_)) <==> family_has_cycle(schema.structs@, rules.tag_type@),
        r is Ok <==> !family_has_cycle(schema.structs@, rules.tag_type@) && forall|i: int| 0 <= i < schema.structs@.len() && in_family(schema.structs@, rules.tag_type@, i)
            ==> struct_failures(schema.structs@, family_mask(schema.structs@, rules.tag_type@), rules, schema.structs@[i]).len() == 0,
        r matches Ok(w) ==> {
            &&& enumerates_family(schema.structs@, rules.tag_type@, program_order(w.programs@))
            &&& programs_match(schema.structs@, family_mask(schema.structs@, rules.tag_type@), rules, program_order(w.programs@), w.programs@)
            &&& dispatch_exact(w.programs@, schema.tags@, w.dispatch@)
            &&& w.union_branches == rules.union_rule.branches
        },
        r matches Err(GenerateError::Unclassifiable(e)) ==> exists|o: Seq<usize>| {
            &&& enumerates_family(schema.structs@, rules.tag_type@, o)
            &&& e@ == family_failures(schema.structs@, family_mask(schema.structs@, rules.tag_type@), rules, o)
        },
{
    let structs = &schema.structs;
    let n = structs.len();
    let graph = SubtypeGraph::build(structs);
    let order = node_family(structs, &graph, &rules.tag_type);
    match find_cycle(structs, &graph, &order) {
        Some(i) => {
            assert(order@.contains(i));
            return Err(GenerateError::Cycle(i));
        },
        None => {
            assert forall|i: int| 0 <= i < structs@.len() && in_family(structs@, rules.tag_type@, i)
                implies !on_cycle(structs@, i) by {
                assert(i < n);
                assert(order@.contains(i as usize));
                let k = choose|k: int| 0 <= k < order@.len() && order@[k] == i as usize;
                assert(order@[k] as int == i);
                assert(!on_cycle(structs@, order@[k] as int));
            }
        },
    }
    let fam = family_flags(n, &order);
    let ghost mask = family_mask(structs@, rules.tag_type@);
    assert(fam@ == mask);
    let res = classify_family(structs, &fam, &rules, &order);
    proof {
        lemma_no_failures(structs@, mask, rules, order@);
        assert forall|i: int| 0 <= i < structs@.len() && in_family(structs@, rules.tag_type@, i)
            implies exists|k: int| 0 <= k < order@.len() && order@[k] == i as usize by {
            assert(order@.contains(i as usize));
        }
    }
    proof {
        let ss = structs@;
        let tg = rules.tag_type@;
        assert(enumerates_family(ss, tg, order@));
        assert((forall|i: int| 0 <= i < ss.len() && in_family(ss, tg, i)
            ==> struct_failures(ss, mask, rules, ss[i]).len() == 0) <==> (forall|k: int| 0 <= k < order@.len()
            ==> (#[trigger] struct_failures(ss, mask, rules, ss[order@[k] as int])).len() == 0)) by {
            if forall|i: int| 0 <= i < ss.len() && in_family(ss, tg, i) ==> struct_failures(ss, mask, rules, ss[i]).len() == 0 {
                assert forall|k: int| 0 <= k < order@.len() implies (#[trigger] struct_failures(ss, mask, rules, ss[order@[k] as int])).len() == 0 by {
                    let i = order@[k] as int;
                    assert(order@[k] as int as usize == order@[k]);
                    assert(order@.contains(i as usize));
                    assert(in_family(ss, tg, i));
                }
            }
            if forall|k: int| 0 <= k < order@.len() ==> (#[trigger] struct_failures(ss, mask, rules, ss[order@[k] as int])).len() == 0 {
                assert forall|i: int| 0 <= i < ss.len() && in_family(ss, tg, i) implies struct_failures(ss, mask, rules, ss[i]).len() == 0 by {
                    let k = choose|k: int| 0 <= k < order@.len() && order@[k] == i as usize;
                    assert(struct_failures(ss, mask, rules, ss[order@[k] as int]).len() == 0);
                }
            }
        }
    }
    match res {
        Ok(programs) => {
            assert(program_order(programs@) == order@);
            let dispatch = dispatch_table(&programs, &schema.tags);
            Ok(NodeWalker { programs, dispatch, union_branches: rules.union_rule.branches })
        },
        Err(e) => Err(GenerateError::Unclassifiable(e)),
    }
}

} // verus!
