use vstd::prelude::*;
use crate::classify::ChildReference;
use crate::generate::NodeWalker;
use crate::graph::opt_int;
use crate::rules::{BoundExpr, ContainerShape, UnionBranch};

verus! {

/// The value of one field of a node.
pub enum Value {
    /// A scalar.
    Scalar(i64),
    /// A pointer to a node of the graph, or null.
    Ptr(Option<usize>),
    /// An array of pointers to nodes of the graph, each of them possibly null.
    PtrArray(Vec<Option<usize>>),
    /// A struct held by value, stored as a node of the graph.
    Embedded(usize),
    /// The first cell of a chain of container cells, or null.
    Cells(Option<usize>),
    /// Anything else.
    Opaque,
}

/// A named field of a node.
pub struct FieldValue {
    pub name: String,
    pub value: Value,
}

/// One node: its runtime tag (the name of its concrete type) and its fields.
/// A helper computation that a bound refers to is supplied as a scalar field
/// spelled like the computation.
pub struct NodeValue {
    pub tag: String,
    pub fields: Vec<FieldValue>,
}

/// A cell of a linked container: one element and the next cell.
pub struct ListCell {
    pub value: Option<usize>,
    pub next: Option<usize>,
}

/// A node graph: nodes and container cells, referred to by index.
pub struct NodeGraph {
    pub nodes: Vec<NodeValue>,
    pub cells: Vec<ListCell>,
}

/// How a child was reached from its parent.
#[derive(Debug, PartialEq, Eq)]
pub enum AccessDescriptor {
    Field(String),
    ArrayElement(usize),
    ListElement(usize),
}

/// What a walk reports: entering a child (how it was reached, from which node),
/// and leaving it.
#[derive(Debug, PartialEq, Eq)]
pub enum WalkEvent {
    Enter { access: AccessDescriptor, ancestor: usize, node: usize },
    Exit { node: usize },
}

/// The index of the first field called `name`, from `i` on.
pub open spec fn field_index(fs: Seq<FieldValue>, name: Seq<char>, i: int) -> Option<int>
    decreases fs.len() - i,
{
    if i < 0 || i >= fs.len() {
        None
    } else if fs[i].name@ == name {
        Some(i)
    } else {
        field_index(fs, name, i + 1)
    }
}

/// The value of the first field called `name`.
pub open spec fn field_value(n: NodeValue, name: Seq<char>) -> Option<Value> {
    match field_index(n.fields@, name, 0) {
        Some(i) => Some(n.fields@[i].value),
        None => None,
    }
}

/// The scalar value of a field; zero where there is no scalar of that name.
pub open spec fn scalar_of(n: NodeValue, name: Seq<char>) -> int {
    match field_value(n, name) {
        Some(Value::Scalar(v)) => v as int,
        _ => 0,
    }
}

/// The count a bound gives on a node; a negative count is zero.
pub open spec fn bound_count(n: NodeValue, b: BoundExpr) -> int {
    let v = match b {
        BoundExpr::Literal(k) => k as int,
        BoundExpr::Field(f) => scalar_of(n, f@),
        BoundExpr::FieldPlus(f, k) => scalar_of(n, f@) + k,
        BoundExpr::Computed(c) => scalar_of(n, c@),
    };
    if v < 0 { 0 } else { v }
}

/// The index of the first entry of `entries` from `i` on whose tag is `tag`.
pub open spec fn route_from(w: NodeWalker, tag: Seq<char>, i: int) -> Option<int>
    decreases w.dispatch@.len() - i,
{
    if i < 0 || i >= w.dispatch@.len() {
        None
    } else if w.dispatch@[i].tag@ == tag {
        Some(w.dispatch@[i].program as int)
    } else {
        route_from(w, tag, i + 1)
    }
}

/// The program that the dispatch table gives to a runtime tag.
pub open spec fn route(w: NodeWalker, tag: Seq<char>) -> Option<int> {
    route_from(w, tag, 0)
}

/// The first program, from `i` on, of struct `target`.
pub open spec fn program_from(w: NodeWalker, target: usize, i: int) -> Option<int>
    decreases w.programs@.len() - i,
{
    if i < 0 || i >= w.programs@.len() {
        None
    } else if w.programs@[i].struct_index == target {
        Some(i)
    } else {
        program_from(w, target, i + 1)
    }
}

/// The first branch, from `i` on, of discriminant value `d`.
pub open spec fn branch_from(b: Seq<UnionBranch>, d: i64, i: int) -> Option<int>
    decreases b.len() - i,
{
    if i < 0 || i >= b.len() {
        None
    } else if b[i].discriminant == d {
        Some(i)
    } else {
        branch_from(b, d, i + 1)
    }
}

/// The steps of program `p`, if there is one.
pub open spec fn steps_of(w: NodeWalker, p: Option<int>) -> Seq<ChildReference> {
    match p {
        Some(k) => if 0 <= k < w.programs@.len() { w.programs@[k].steps@ } else { Seq::empty() },
        None => Seq::empty(),
    }
}

/// Entering child `c` (if it is a node of the graph), walking it by `p` while
/// fuel is left, and leaving it.
pub open spec fn visit(
    w: NodeWalker,
    g: NodeGraph,
    acc: AccessDescriptor,
    anc: usize,
    c: usize,
    p: Option<int>,
    fuel: nat,
) -> Seq<WalkEvent>
    decreases fuel, 0int, 0int,
{
    if c < g.nodes@.len() {
        let inner = if fuel > 0 { walk_steps(w, g, c, steps_of(w, p), 0, (fuel - 1) as nat) } else { Seq::empty() };
        seq![WalkEvent::Enter { access: acc, ancestor: anc, node: c }] + inner + seq![WalkEvent::Exit { node: c }]
    } else {
        Seq::empty()
    }
}

/// A child reached through a pointer is walked by the program of its runtime tag.
pub open spec fn visit_tagged(w: NodeWalker, g: NodeGraph, acc: AccessDescriptor, anc: usize, c: usize, fuel: nat) -> Seq<WalkEvent>
    decreases fuel, 1int, 0int,
{
    if c < g.nodes@.len() {
        visit(w, g, acc, anc, c, route(w, g.nodes@[c as int].tag@), fuel)
    } else {
        Seq::empty()
    }
}

/// The non-null pointers `v[i..count]`, as array elements or container elements.
pub open spec fn walk_elems(
    w: NodeWalker,
    g: NodeGraph,
    node: usize,
    v: Seq<Option<usize>>,
    i: int,
    count: int,
    as_list: bool,
    fuel: nat,
) -> Seq<WalkEvent>
    decreases fuel, 2int, count - i,
{
    if i < 0 || i >= count || i >= v.len() {
        Seq::empty()
    } else {
        let here = match v[i] {
            Some(c) => {
                let acc = if as_list { AccessDescriptor::ListElement(i as usize) } else { AccessDescriptor::ArrayElement(i as usize) };
                visit_tagged(w, g, acc, node, c, fuel)
            },
            None => Seq::empty(),
        };
        here + walk_elems(w, g, node, v, i + 1, count, as_list, fuel)
    }
}

/// At most `remaining` elements of a cell chain, from `cell` on, numbered from `i`.
pub open spec fn walk_cells(
    w: NodeWalker,
    g: NodeGraph,
    node: usize,
    cell: Option<usize>,
    i: nat,
    remaining: nat,
    fuel: nat,
) -> Seq<WalkEvent>
    decreases fuel, 2int, remaining,
{
    match cell {
        Some(k) => if remaining == 0 || k >= g.cells@.len() {
            Seq::empty()
        } else {
            let here = match g.cells@[k as int].value {
                Some(c) => visit_tagged(w, g, AccessDescriptor::ListElement(i as usize), node, c, fuel),
                None => Seq::empty(),
            };
            here + walk_cells(w, g, node, g.cells@[k as int].next, i + 1, (remaining - 1) as nat, fuel)
        },
        None => Seq::empty(),
    }
}

/// The pointer fields called `names[i..]`, in order.
pub open spec fn walk_names(w: NodeWalker, g: NodeGraph, node: usize, names: Seq<String>, i: int, fuel: nat) -> Seq<WalkEvent>
    decreases fuel, 2int, names.len() - i,
{
    if i < 0 || i >= names.len() {
        Seq::empty()
    } else {
        walk_pointer(w, g, node, names[i], fuel) + walk_names(w, g, node, names, i + 1, fuel)
    }
}

/// The pointer field `field` of `node`, where it is a non-null pointer.
pub open spec fn walk_pointer(w: NodeWalker, g: NodeGraph, node: usize, field: String, fuel: nat) -> Seq<WalkEvent>
    decreases fuel, 1int, 1int,
{
    match field_value(g.nodes@[node as int], field@) {
        Some(Value::Ptr(Some(c))) => visit_tagged(w, g, AccessDescriptor::Field(field), node, c, fuel),
        _ => Seq::empty(),
    }
}

pub open spec fn min_len(count: int, len: int) -> int {
    if count < len { count } else { len }
}

/// One step of a program, on `node`.
pub open spec fn walk_step(w: NodeWalker, g: NodeGraph, node: usize, step: ChildReference, fuel: nat) -> Seq<WalkEvent>
    decreases fuel, 3int, 0int,
{
    let n = g.nodes@[node as int];
    match step {
        ChildReference::Pointer { field } => walk_pointer(w, g, node, field, fuel),
        ChildReference::FixedArray { field, len } => match field_value(n, field@) {
            Some(Value::PtrArray(v)) => walk_elems(w, g, node, v@, 0, min_len(len as int, v@.len() as int), false, fuel),
            _ => Seq::empty(),
        },
        ChildReference::Bounded { field, bound } => match field_value(n, field@) {
            Some(Value::PtrArray(v)) => walk_elems(w, g, node, v@, 0, min_len(bound_count(n, bound), v@.len() as int), false, fuel),
            _ => Seq::empty(),
        },
        ChildReference::Embedded { field, target } => match field_value(n, field@) {
            Some(Value::Embedded(e)) => visit(w, g, AccessDescriptor::Field(field), node, e, program_from(w, target, 0), fuel),
            _ => Seq::empty(),
        },
        ChildReference::Container { shape } => {
            let len = scalar_of(n, "length"@);
            let count = if len < 0 { 0 } else { len };
            match shape {
                ContainerShape::Linked => match field_value(n, "head"@) {
                    Some(Value::Cells(head)) => walk_cells(w, g, node, head, 0, min_len(count, g.cells@.len() as int) as nat, fuel),
                    _ => Seq::empty(),
                },
                ContainerShape::Flat => match field_value(n, "elements"@) {
                    Some(Value::PtrArray(v)) => walk_elems(w, g, node, v@, 0, min_len(count, v@.len() as int), true, fuel),
                    _ => Seq::empty(),
                },
            }
        },
        ChildReference::Union { discriminant } => match field_value(n, discriminant@) {
            Some(Value::Scalar(d)) => match branch_from(w.union_branches@, d, 0) {
                Some(b) => walk_names(w, g, node, w.union_branches@[b].fields@, 0, fuel),
                None => Seq::empty(),
            },
            _ => Seq::empty(),
        },
    }
}

/// The steps `steps[i..]`, in order, on `node`.
pub open spec fn walk_steps(w: NodeWalker, g: NodeGraph, node: usize, steps: Seq<ChildReference>, i: int, fuel: nat) -> Seq<WalkEvent>
    decreases fuel, 4int, steps.len() - i,
{
    if i < 0 || i >= steps.len() || node >= g.nodes@.len() {
        Seq::empty()
    } else {
        walk_step(w, g, node, steps[i], fuel) + walk_steps(w, g, node, steps, i + 1, fuel)
    }
}

/// The walk from `root`, dispatched by its runtime tag; a tag with no program
/// walks nothing.
pub open spec fn traversal(w: NodeWalker, g: NodeGraph, root: usize) -> Seq<WalkEvent> {
    if root < g.nodes@.len() {
        walk_steps(w, g, root, steps_of(w, route(w, g.nodes@[root as int].tag@)), 0, g.nodes@.len() as nat)
    } else {
        Seq::empty()
    }
}

/// Zero-count law: a bounded array whose bound comes to zero on the node is
/// walked without a single callback, whatever the array holds.
pub proof fn zero_bound_walks_nothing(
    w: NodeWalker,
    g: NodeGraph,
    node: usize,
    field: String,
    bound: BoundExpr,
    fuel: nat,
)
    requires
        node < g.nodes@.len(),
        bound_count(g.nodes@[node as int], bound) == 0,
    ensures
        walk_step(w, g, node, ChildReference::Bounded { field, bound }, fuel) == Seq::<WalkEvent>::empty(),
{
    match field_value(g.nodes@[node as int], field@) {
        Some(Value::PtrArray(v)) => {
            assert(walk_elems(w, g, node, v@, 0, 0, false, fuel) == Seq::<WalkEvent>::empty());
        },
        _ => {},
    }
}

/// The cell chain from `cell` holds the elements `e`, in order.
pub open spec fn chain_holds(g: NodeGraph, cell: Option<usize>, e: Seq<Option<usize>>) -> bool
    decreases e.len(),
{
    if e.len() == 0 {
        true
    } else {
        match cell {
            Some(k) => k < g.cells@.len() && g.cells@[k as int].value == e[0]
                && chain_holds(g, g.cells@[k as int].next, e.subrange(1, e.len() as int)),
            None => false,
        }
    }
}

proof fn lemma_chain_walk(w: NodeWalker, g: NodeGraph, node: usize, cell: Option<usize>, v: Seq<Option<usize>>, i: int, fuel: nat)
    requires
        0 <= i <= v.len(),
        chain_holds(g, cell, v.subrange(i, v.len() as int)),
    ensures
        walk_cells(w, g, node, cell, i as nat, (v.len() - i) as nat, fuel) == walk_elems(w, g, node, v, i, v.len() as int, true, fuel),
    decreases v.len() - i,
{
    if i < v.len() {
        let k = cell->Some_0;
        let e = v.subrange(i, v.len() as int);
        assert(e.subrange(1, e.len() as int) =~= v.subrange(i + 1, v.len() as int));
        assert(e[0] == v[i]);
        lemma_chain_walk(w, g, node, g.cells@[k as int].next, v, i + 1, fuel);
    } else {
        match cell {
            Some(k) => {},
            None => {},
        }
    }
}

/// Layout law: a container walked as a chain of cells and the same container
/// walked as a flat array report the same events, when the chain and the array
/// hold the same elements and the length field counts them.
pub proof fn container_layouts_agree(
    w: NodeWalker,
    g: NodeGraph,
    node: usize,
    head: Option<usize>,
    elems: Vec<Option<usize>>,
    fuel: nat,
)
    requires
        node < g.nodes@.len(),
        field_value(g.nodes@[node as int], "head"@) == Some(Value::Cells(head)),
        field_value(g.nodes@[node as int], "elements"@) == Some(Value::PtrArray(elems)),
        scalar_of(g.nodes@[node as int], "length"@) == elems@.len(),
        elems@.len() <= g.cells@.len(),
        chain_holds(g, head, elems@),
    ensures
        walk_step(w, g, node, ChildReference::Container { shape: ContainerShape::Linked }, fuel)
            == walk_step(w, g, node, ChildReference::Container { shape: ContainerShape::Flat }, fuel),
{
    assert(elems@.subrange(0, elems@.len() as int) =~= elems@);
    lemma_chain_walk(w, g, node, head, elems@, 0, fuel);
}

/// The index of the first field called `name`.
fn find_field(fs: &Vec<FieldValue>, name: &String) -> (r: Option<usize>)
    ensures
        opt_int(r) == field_index(fs@, name@, 0),
        r matches Some(i) ==> i < fs@.len(),
{
    let mut i: usize = 0;
    while i < fs.len()
        invariant
            i <= fs@.len(),
            field_index(fs@, name@, 0) == field_index(fs@, name@, i as int),
        decreases fs@.len() - i,
    {
        if fs[i].name == *name {
            return Some(i);
        }
        i += 1;
    }
    None
}

/// The scalar value of a field; zero where there is no scalar of that name.
fn scalar(n: &NodeValue, name: &String) -> (r: i64)
    ensures
        r as int == scalar_of(*n, name@),
{
    match find_field(&n.fields, name) {
        Some(i) => match &n.fields[i].value {
            Value::Scalar(v) => *v,
            _ => 0,
        },
        None => 0,
    }
}

/// The count a bound gives on a node, capped at `len`.
fn bounded_count(n: &NodeValue, b: &BoundExpr, len: usize) -> (r: usize)
    ensures
        r as int == min_len(bound_count(*n, *b), len as int),
{
    let (base, extra): (i64, u64) = match b {
        BoundExpr::Literal(k) => (0, *k),
        BoundExpr::Field(f) => (scalar(n, f), 0),
        BoundExpr::FieldPlus(f, k) => (scalar(n, f), *k),
        BoundExpr::Computed(c) => (scalar(n, c), 0),
    };
    if base < 0 {
        if extra <= (-(base as i128)) as u64 {
            return 0;
        }
        let v: u64 = (extra as i128 + base as i128) as u64;
        if v >= len as u64 { len } else { v as usize }
    } else {
        let b64 = base as u64;
        if b64 >= len as u64 || extra >= len as u64 - b64 {
            len
        } else {
            (b64 + extra) as usize
        }
    }
}

impl NodeWalker {
    /// The program that the dispatch table gives to a runtime tag.
    pub fn route(&self, tag: &String) -> (r: Option<usize>)
        ensures
            opt_int(r) == route(*self, tag@),
    {
        let mut i: usize = 0;
        while i < self.dispatch.len()
            invariant
                i <= self.dispatch@.len(),
                route_from(*self, tag@, 0) == route_from(*self, tag@, i as int),
            decreases self.dispatch@.len() - i,
        {
            if self.dispatch[i].tag == *tag {
                return Some(self.dispatch[i].program);
            }
            i += 1;
        }
        None
    }

    /// The first program of struct `target`.
    fn program_for(&self, target: usize) -> (r: Option<usize>)
        ensures
            opt_int(r) == program_from(*self, target, 0),
    {
        let mut i: usize = 0;
        while i < self.programs.len()
            invariant
                i <= self.programs@.len(),
                program_from(*self, target, 0) == program_from(*self, target, i as int),
            decreases self.programs@.len() - i,
        {
            if self.programs[i].struct_index == target {
                return Some(i);
            }
            i += 1;
        }
        None
    }

    /// The first union branch of discriminant value `d`.
    fn branch_for(&self, d: i64) -> (r: Option<usize>)
        ensures
            opt_int(r) == branch_from(self.union_branches@, d, 0),
            r matches Some(b) ==> b < self.union_branches@.len(),
    {
        let mut i: usize = 0;
        while i < self.union_branches.len()
            invariant
                i <= self.union_branches@.len(),
                branch_from(self.union_branches@, d, 0) == branch_from(self.union_branches@, d, i as int),
            decreases self.union_branches@.len() - i,
        {
            if self.union_branches[i].discriminant == d {
                return Some(i);
            }
            i += 1;
        }
        None
    }

    fn visit_exec(
        &self,
        g: &NodeGraph,
        acc: AccessDescriptor,
        anc: usize,
        c: usize,
        p: Option<usize>,
        fuel: usize,
        out: &mut Vec<WalkEvent>,
    )
        ensures
            final(out)@ == old(out)@ + visit(*self, *g, acc, anc, c, opt_int(p), fuel as nat),
        decreases fuel, 0int, 0int,
    {
        if c < g.nodes.len() {
            let ghost before = out@;
            out.push(WalkEvent::Enter { access: acc, ancestor: anc, node: c });
            let ghost mid = out@;
            if fuel > 0 {
                match p {
                    Some(k) => if k < self.programs.len() {
                        self.walk_steps_exec(g, c, &self.programs[k].steps, fuel - 1, out);
                    },
                    None => {},
                }
            }
            let ghost inner = if fuel > 0 {
                walk_steps(*self, *g, c, steps_of(*self, opt_int(p)), 0, (fuel - 1) as nat)
            } else {
                Seq::empty()
            };
            assert(out@ == mid + inner);
            out.push(WalkEvent::Exit { node: c });
            assert(out@ =~= before + (seq![WalkEvent::Enter { access: acc, ancestor: anc, node: c }] + inner
                + seq![WalkEvent::Exit { node: c }]));
        }
    }

    fn visit_tagged_exec(&self, g: &NodeGraph, acc: AccessDescriptor, anc: usize, c: usize, fuel: usize, out: &mut Vec<WalkEvent>)
        ensures
            final(out)@ == old(out)@ + visit_tagged(*self, *g, acc, anc, c, fuel as nat),
        decreases fuel, 1int, 0int,
    {
        if c < g.nodes.len() {
            let p = self.route(&g.nodes[c].tag);
            self.visit_exec(g, acc, anc, c, p, fuel, out);
        } else {
            assert(out@ =~= out@ + Seq::<WalkEvent>::empty());
        }
    }

    fn walk_pointer_exec(&self, g: &NodeGraph, node: usize, field: &String, fuel: usize, out: &mut Vec<WalkEvent>)
        requires
            node < g.nodes@.len(),
        ensures
            final(out)@ == old(out)@ + walk_pointer(*self, *g, node, *field, fuel as nat),
        decreases fuel, 1int, 1int,
    {
        let n = &g.nodes[node];
        match find_field(&n.fields, field) {
            Some(i) => match &n.fields[i].value {
                Value::Ptr(Some(c)) => {
                    self.visit_tagged_exec(g, AccessDescriptor::Field(field.clone()), node, *c, fuel, out);
                    return;
                },
                _ => {},
            },
            None => {},
        }
        assert(out@ =~= out@ + Seq::<WalkEvent>::empty());
    }

    fn walk_elems_exec(
        &self,
        g: &NodeGraph,
        node: usize,
        v: &Vec<Option<usize>>,
        count: usize,
        as_list: bool,
        fuel: usize,
        out: &mut Vec<WalkEvent>,
    )
        requires
            count <= v@.len(),
        ensures
            final(out)@ == old(out)@ + walk_elems(*self, *g, node, v@, 0, count as int, as_list, fuel as nat),
        decreases fuel, 2int, 0int,
    {
        let ghost start = out@;
        let mut i: usize = 0;
        while i < count
            invariant
                count <= v@.len(),
                i <= count,
                out@ + walk_elems(*self, *g, node, v@, i as int, count as int, as_list, fuel as nat)
                    == start + walk_elems(*self, *g, node, v@, 0, count as int, as_list, fuel as nat),
            decreases count - i,
        {
            let ghost before = out@;
            let ghost rest = walk_elems(*self, *g, node, v@, i + 1, count as int, as_list, fuel as nat);
            match v[i] {
                Some(c) => {
                    let acc = if as_list { AccessDescriptor::ListElement(i) } else { AccessDescriptor::ArrayElement(i) };
                    self.visit_tagged_exec(g, acc, node, c, fuel, out);
                },
                None => {},
            }
            let ghost here = out@.subrange(before.len() as int, out@.len() as int);
            assert(out@ =~= before + here);
            assert(out@ + rest =~= before + (here + rest));
            i += 1;
        }
        assert(out@ =~= out@ + walk_elems(*self, *g, node, v@, count as int, count as int, as_list, fuel as nat));
    }

    fn walk_cells_exec(
        &self,
        g: &NodeGraph,
        node: usize,
        head: Option<usize>,
        count: usize,
        fuel: usize,
        out: &mut Vec<WalkEvent>,
    )
        ensures
            final(out)@ == old(out)@ + walk_cells(*self, *g, node, head, 0, count as nat, fuel as nat),
        decreases fuel, 2int, 0int,
    {
        let ghost start = out@;
        let mut cell = head;
        let mut i: usize = 0;
        while i < count
            invariant
                i <= count,
                start == old(out)@,
                out@ + walk_cells(*self, *g, node, cell, i as nat, (count - i) as nat, fuel as nat)
                    == start + walk_cells(*self, *g, node, head, 0, count as nat, fuel as nat),
            decreases count - i,
        {
            let k = match cell {
                Some(k) => k,
                None => {
                    assert(out@ =~= out@ + walk_cells(*self, *g, node, cell, i as nat, (count - i) as nat, fuel as nat));
                    return;
                },
            };
            if k >= g.cells.len() {
                assert(out@ =~= out@ + walk_cells(*self, *g, node, cell, i as nat, (count - i) as nat, fuel as nat));
                return;
            }
            let ghost before = out@;
            let ghost rest = walk_cells(*self, *g, node, g.cells@[k as int].next, (i + 1) as nat, (count - i - 1) as nat, fuel as nat);
            match g.cells[k].value {
                Some(c) => self.visit_tagged_exec(g, AccessDescriptor::ListElement(i), node, c, fuel, out),
                None => {},
            }
            let ghost here = out@.subrange(before.len() as int, out@.len() as int);
            assert(out@ =~= before + here);
            assert(out@ + rest =~= before + (here + rest));
            cell = g.cells[k].next;
            i += 1;
        }
        assert(out@ =~= out@ + walk_cells(*self, *g, node, cell, i as nat, 0, fuel as nat));
    }

    fn walk_names_exec(&self, g: &NodeGraph, node: usize, names: &Vec<String>, fuel: usize, out: &mut Vec<WalkEvent>)
        requires
            node < g.nodes@.len(),
        ensures
            final(out)@ == old(out)@ + walk_names(*self, *g, node, names@, 0, fuel as nat),
        decreases fuel, 2int, 0int,
    {
        let ghost start = out@;
        let mut i: usize = 0;
        while i < names.len()
            invariant
                node < g.nodes@.len(),
                i <= names@.len(),
                out@ + walk_names(*self, *g, node, names@, i as int, fuel as nat)
                    == start + walk_names(*self, *g, node, names@, 0, fuel as nat),
            decreases names@.len() - i,
        {
            let ghost before = out@;
            let ghost rest = walk_names(*self, *g, node, names@, i + 1, fuel as nat);
            self.walk_pointer_exec(g, node, &names[i], fuel, out);
            let ghost here = out@.subrange(before.len() as int, out@.len() as int);
            assert(out@ =~= before + here);
            assert(out@ + rest =~= before + (here + rest));
            i += 1;
        }
        assert(out@ =~= out@ + walk_names(*self, *g, node, names@, names@.len() as int, fuel as nat));
    }

    fn walk_step_exec(&self, g: &NodeGraph, node: usize, step: &ChildReference, fuel: usize, out: &mut Vec<WalkEvent>)
        requires
            node < g.nodes@.len(),
        ensures
            final(out)@ == old(out)@ + walk_step(*self, *g, node, *step, fuel as nat),
        decreases fuel, 3int, 0int,
    {
        let n = &g.nodes[node];
        match step {
            ChildReference::Pointer { field } => self.walk_pointer_exec(g, node, field, fuel, out),
            ChildReference::FixedArray { field, len } => match find_field(&n.fields, field) {
                Some(i) => match &n.fields[i].value {
                    Value::PtrArray(v) => {
                        let count = if *len < v.len() { *len } else { v.len() };
                        self.walk_elems_exec(g, node, v, count, false, fuel, out);
                    },
                    _ => {},
                },
                None => {},
            },
            ChildReference::Bounded { field, bound } => match find_field(&n.fields, field) {
                Some(i) => match &n.fields[i].value {
                    Value::PtrArray(v) => {
                        let count = bounded_count(n, bound, v.len());
                        self.walk_elems_exec(g, node, v, count, false, fuel, out);
                    },
                    _ => {},
                },
                None => {},
            },
            ChildReference::Embedded { field, target } => match find_field(&n.fields, field) {
                Some(i) => match &n.fields[i].value {
                    Value::Embedded(e) => {
                        let p = self.program_for(*target);
                        self.visit_exec(g, AccessDescriptor::Field(field.clone()), node, *e, p, fuel, out);
                    },
                    _ => {},
                },
                None => {},
            },
            ChildReference::Container { shape } => {
                let len_name = "length".to_owned();
                let len = scalar(n, &len_name);
                match shape {
                    ContainerShape::Linked => {
                        let head_name = "head".to_owned();
                        match find_field(&n.fields, &head_name) {
                            Some(i) => match &n.fields[i].value {
                                Value::Cells(head) => {
                                    let count: usize = if len < 0 { 0 } else if len as u64 >= g.cells.len() as u64 { g.cells.len() } else { len as usize };
                                    self.walk_cells_exec(g, node, *head, count, fuel, out);
                                },
                                _ => {},
                            },
                            None => {},
                        }
                    },
                    ContainerShape::Flat => {
                        let elems_name = "elements".to_owned();
                        match find_field(&n.fields, &elems_name) {
                            Some(i) => match &n.fields[i].value {
                                Value::PtrArray(v) => {
                                    let count: usize = if len < 0 { 0 } else if len as u64 >= v.len() as u64 { v.len() } else { len as usize };
                                    self.walk_elems_exec(g, node, v, count, true, fuel, out);
                                },
                                _ => {},
                            },
                            None => {},
                        }
                    },
                }
            },
            ChildReference::Union { discriminant } => match find_field(&n.fields, discriminant) {
                Some(i) => match &n.fields[i].value {
                    Value::Scalar(d) => match self.branch_for(*d) {
                        Some(b) => self.walk_names_exec(g, node, &self.union_branches[b].fields, fuel, out),
                        None => {},
                    },
                    _ => {},
                },
                None => {},
            },
        }
    }

    fn walk_steps_exec(&self, g: &NodeGraph, node: usize, steps: &Vec<ChildReference>, fuel: usize, out: &mut Vec<WalkEvent>)
        ensures
            final(out)@ == old(out)@ + walk_steps(*self, *g, node, steps@, 0, fuel as nat),
        decreases fuel, 4int, 0int,
    {
        if node >= g.nodes.len() {
            assert(out@ =~= out@ + walk_steps(*self, *g, node, steps@, 0, fuel as nat));
            return;
        }
        let ghost start = out@;
        let mut i: usize = 0;
        while i < steps.len()
            invariant
                node < g.nodes@.len(),
                i <= steps@.len(),
                out@ + walk_steps(*self, *g, node, steps@, i as int, fuel as nat)
                    == start + walk_steps(*self, *g, node, steps@, 0, fuel as nat),
            decreases steps@.len() - i,
        {
            let ghost before = out@;
            let ghost rest = walk_steps(*self, *g, node, steps@, i + 1, fuel as nat);
            self.walk_step_exec(g, node, &steps[i], fuel, out);
            let ghost here = out@.subrange(before.len() as int, out@.len() as int);
            assert(out@ =~= before + here);
            assert(out@ + rest =~= before + (here + rest));
            i += 1;
        }
        assert(out@ =~= out@ + walk_steps(*self, *g, node, steps@, steps@.len() as int, fuel as nat));
    }

    /// Walks the node graph from `root`: for each child that the root's program
    /// reaches, in program order, an entry event, the child's own walk, and an
    /// exit event. The root is dispatched by its runtime tag; a tag with no
    /// program walks nothing.
    pub fn traverse(&self, g: &NodeGraph, root: usize) -> (r: Vec<WalkEvent>)
        ensures
            r@ == traversal(*self, *g, root),
    {
        let mut out: Vec<WalkEvent> = Vec::new();
        if root < g.nodes.len() {
            match self.route(&g.nodes[root].tag) {
                Some(k) => if k < self.programs.len() {
                    self.walk_steps_exec(g, root, &self.programs[k].steps, g.nodes.len(), &mut out);
                } else {
                    assert(out@ =~= traversal(*self, *g, root));
                },
                None => {
                    assert(out@ =~= traversal(*self, *g, root));
                },
            }
        }
        assert(out@ =~= traversal(*self, *g, root));
        out
    }
}

} // verus!
