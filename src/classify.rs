use vstd::prelude::*;
use crate::rules::{BoundExpr, BoundRule, ContainerShape, DenyRule, Rules, UnionBranch, UnionRule};
use crate::schema::{find_struct, lookup, FieldDescriptor, StructDescriptor, TypeRef};

verus! {

/// How a field of a family struct leads to other family members.
#[derive(Debug)]
pub enum ChildReference {
    /// A family struct embedded by value; walked by the program of struct
    /// `target`, never by the runtime tag it carries.
    Embedded { field: String, target: usize },
    /// A pointer to a family struct.
    Pointer { field: String },
    /// A fixed-size array of `len` pointers to family structs.
    FixedArray { field: String, len: usize },
    /// A pointer array whose count the bound gives.
    Bounded { field: String, bound: BoundExpr },
    /// The elements of the container type, in the given layout.
    Container { shape: ContainerShape },
    /// The fields of the union branch that the discriminant field selects.
    Union { discriminant: String },
}

/// Why a field could not be classified.
#[derive(Clone, Copy, Debug, PartialEq, Eq, Structural)]
pub enum ShapeError {
    /// A pointer whose target is not a plain name: a pointer array that no bound
    /// table entry covers, or a pointer to an anonymous type.
    PointerTarget,
    /// A fixed-size array of pointers whose target is not a plain name.
    ArrayElementTarget,
    /// A type of no shape that the classifier knows.
    Unsupported,
}

/// An unclassifiable field: where it stands, and what was seen there.
#[derive(Debug)]
pub struct ClassifyError {
    pub struct_name: String,
    pub field_name: String,
    pub shape: ShapeError,
}

/// The outcome for one field.
pub enum FieldClass {
    Inert,
    Child(ChildReference),
    Fail(ShapeError),
}

/// The walk plan of one family struct.
pub struct TraversalProgram {
    pub struct_index: usize,
    pub struct_name: String,
    pub steps: Vec<ChildReference>,
}

/// `i` is the first entry of the bound table for this struct and field.
pub open spec fn is_first_bound(b: Seq<BoundRule>, sname: Seq<char>, fname: Seq<char>, i: int) -> bool {
    &&& 0 <= i < b.len()
    &&& b[i].struct_name@ == sname && b[i].field_name@ == fname
    &&& forall|j: int| 0 <= j < i ==> !(b[j].struct_name@ == sname && b[j].field_name@ == fname)
}

/// The entry of the bound table for this struct and field, if any.
pub open spec fn bound_entry(b: Seq<BoundRule>, sname: Seq<char>, fname: Seq<char>) -> Option<int> {
    if exists|i: int| is_first_bound(b, sname, fname, i) {
        Some(choose|i: int| is_first_bound(b, sname, fname, i))
    } else {
        None
    }
}

pub open spec fn deny_matches(d: DenyRule, sname: Seq<char>, fname: Seq<char>) -> bool {
    d.field_name@ == fname && match d.struct_name {
        Some(n) => n@ == sname,
        None => true,
    }
}

/// The deny list names this field.
pub open spec fn is_denied(d: Seq<DenyRule>, sname: Seq<char>, fname: Seq<char>) -> bool {
    exists|i: int| 0 <= i < d.len() && deny_matches(d[i], sname, fname)
}

/// `name` is the name of a family struct (of the first struct so called).
pub open spec fn names_family(s: Seq<StructDescriptor>, fam: Seq<bool>, name: Seq<char>) -> bool {
    match lookup(s, name) {
        Some(j) => fam[j],
        None => false,
    }
}

/// The class that a field's type alone gives it.
pub open spec fn type_class(s: Seq<StructDescriptor>, fam: Seq<bool>, f: FieldDescriptor) -> FieldClass {
    match f.ty {
        TypeRef::Array(elem, len) => match *elem {
            TypeRef::Pointer(inner) => match *inner {
                TypeRef::Path(n) => if names_family(s, fam, n@) {
                    FieldClass::Child(ChildReference::FixedArray { field: f.name, len })
                } else {
                    FieldClass::Inert
                },
                _ => FieldClass::Fail(ShapeError::ArrayElementTarget),
            },
            _ => FieldClass::Inert,
        },
        TypeRef::Pointer(inner) => match *inner {
            TypeRef::Path(n) => if names_family(s, fam, n@) {
                FieldClass::Child(ChildReference::Pointer { field: f.name })
            } else {
                FieldClass::Inert
            },
            _ => FieldClass::Fail(ShapeError::PointerTarget),
        },
        TypeRef::Path(n) => match lookup(s, n@) {
            Some(j) => if fam[j] {
                FieldClass::Child(ChildReference::Embedded { field: f.name, target: j as usize })
            } else {
                FieldClass::Inert
            },
            None => FieldClass::Inert,
        },
        TypeRef::Other(_) => FieldClass::Fail(ShapeError::Unsupported),
    }
}

/// The class of field `f` of the struct called `sname`: the bound table first,
/// then the deny list, then the field's type.
pub open spec fn field_class(
    s: Seq<StructDescriptor>,
    fam: Seq<bool>,
    rules: Rules,
    sname: Seq<char>,
    f: FieldDescriptor,
) -> FieldClass {
    match bound_entry(rules.bounds@, sname, f.name@) {
        Some(i) => match rules.bounds@[i].bound {
            Some(e) => FieldClass::Child(ChildReference::Bounded { field: f.name, bound: e }),
            None => FieldClass::Inert,
        },
        None => if is_denied(rules.denied@, sname, f.name@) {
            FieldClass::Inert
        } else {
            type_class(s, fam, f)
        },
    }
}

/// The steps that the fields give, in declaration order.
pub open spec fn field_steps(
    s: Seq<StructDescriptor>,
    fam: Seq<bool>,
    rules: Rules,
    sname: Seq<char>,
    fields: Seq<FieldDescriptor>,
) -> Seq<ChildReference>
    decreases fields.len(),
{
    if fields.len() == 0 {
        Seq::empty()
    } else {
        let p = field_steps(s, fam, rules, sname, fields.drop_last());
        match field_class(s, fam, rules, sname, fields.last()) {
            FieldClass::Child(c) => p.push(c),
            _ => p,
        }
    }
}

/// The fields that cannot be classified, in declaration order.
pub open spec fn field_failures(
    s: Seq<StructDescriptor>,
    fam: Seq<bool>,
    rules: Rules,
    d: StructDescriptor,
    fields: Seq<FieldDescriptor>,
) -> Seq<ClassifyError>
    decreases fields.len(),
{
    if fields.len() == 0 {
        Seq::empty()
    } else {
        let p = field_failures(s, fam, rules, d, fields.drop_last());
        match field_class(s, fam, rules, d.name@, fields.last()) {
            FieldClass::Fail(e) => p.push(ClassifyError { struct_name: d.name, field_name: fields.last().name, shape: e }),
            _ => p,
        }
    }
}

pub open spec fn pointer_steps(names: Seq<String>) -> Seq<ChildReference> {
    names.map_values(|f: String| ChildReference::Pointer { field: f })
}

/// The bespoke program of the union struct.
pub open spec fn union_steps(u: UnionRule) -> Seq<ChildReference> {
    pointer_steps(u.leading@) + seq![ChildReference::Union { discriminant: u.discriminant_field }]
        + pointer_steps(u.trailing@)
}

/// The container and the union struct get bespoke programs.
pub open spec fn is_bespoke(rules: Rules, name: Seq<char>) -> bool {
    name == rules.container_name@ || name == rules.union_rule.struct_name@
}

/// The program of struct `d`.
pub open spec fn struct_steps(s: Seq<StructDescriptor>, fam: Seq<bool>, rules: Rules, d: StructDescriptor) -> Seq<ChildReference> {
    if d.name@ == rules.container_name@ {
        seq![ChildReference::Container { shape: rules.container_shape }]
    } else if d.name@ == rules.union_rule.struct_name@ {
        union_steps(rules.union_rule)
    } else {
        field_steps(s, fam, rules, d.name@, d.fields@)
    }
}

/// The unclassifiable fields of struct `d`.
pub open spec fn struct_failures(s: Seq<StructDescriptor>, fam: Seq<bool>, rules: Rules, d: StructDescriptor) -> Seq<ClassifyError> {
    if is_bespoke(rules, d.name@) {
        Seq::empty()
    } else {
        field_failures(s, fam, rules, d, d.fields@)
    }
}

/// The unclassifiable fields of the listed structs, struct by struct.
pub open spec fn family_failures(s: Seq<StructDescriptor>, fam: Seq<bool>, rules: Rules, order: Seq<usize>) -> Seq<ClassifyError>
    decreases order.len(),
{
    if order.len() == 0 {
        Seq::empty()
    } else {
        family_failures(s, fam, rules, order.drop_last()) + struct_failures(s, fam, rules, s[order.last() as int])
    }
}

/// Empty-struct law: a struct with no fields has no parent, and, unless it is
/// one of the two bespoke structs, an empty program and no failures.
pub proof fn empty_struct_is_bare_root(s: Seq<StructDescriptor>, fam: Seq<bool>, rules: Rules, i: int)
    requires
        0 <= i < s.len(),
        s[i].fields@.len() == 0,
        !is_bespoke(rules, s[i].name@),
    ensures
        crate::graph::parent_of(s, i) is None,
        struct_steps(s, fam, rules, s[i]) == Seq::<ChildReference>::empty(),
        struct_failures(s, fam, rules, s[i]) == Seq::<ClassifyError>::empty(),
{
}

proof fn lemma_field_failure_listed(
    s: Seq<StructDescriptor>,
    fam: Seq<bool>,
    rules: Rules,
    d: StructDescriptor,
    fields: Seq<FieldDescriptor>,
    j: int,
    e: ShapeError,
)
    requires
        0 <= j < fields.len(),
        field_class(s, fam, rules, d.name@, fields[j]) == FieldClass::Fail(e),
    ensures
        field_failures(s, fam, rules, d, fields).contains(
            ClassifyError { struct_name: d.name, field_name: fields[j].name, shape: e },
        ),
    decreases fields.len(),
{
    let x = ClassifyError { struct_name: d.name, field_name: fields[j].name, shape: e };
    let pre = field_failures(s, fam, rules, d, fields.drop_last());
    let all = field_failures(s, fam, rules, d, fields);
    if j == fields.len() - 1 {
        assert(all == pre.push(x));
        assert(all[pre.len() as int] == x);
    } else {
        assert(fields.drop_last()[j] == fields[j]);
        lemma_field_failure_listed(s, fam, rules, d, fields.drop_last(), j, e);
        let m = choose|m: int| 0 <= m < pre.len() && pre[m] == x;
        assert(all[m] == x);
    }
}

proof fn lemma_struct_failure_listed(
    s: Seq<StructDescriptor>,
    fam: Seq<bool>,
    rules: Rules,
    order: Seq<usize>,
    k: int,
    x: ClassifyError,
)
    requires
        0 <= k < order.len(),
        struct_failures(s, fam, rules, s[order[k] as int]).contains(x),
    ensures
        family_failures(s, fam, rules, order).contains(x),
    decreases order.len(),
{
    let pre = family_failures(s, fam, rules, order.drop_last());
    let here = struct_failures(s, fam, rules, s[order.last() as int]);
    let all = family_failures(s, fam, rules, order);
    assert(all == pre + here);
    if k == order.len() - 1 {
        let m = choose|m: int| 0 <= m < here.len() && here[m] == x;
        assert(all[pre.len() + m] == x);
    } else {
        assert(order.drop_last()[k] == order[k]);
        lemma_struct_failure_listed(s, fam, rules, order.drop_last(), k, x);
        let m = choose|m: int| 0 <= m < pre.len() && pre[m] == x;
        assert(all[m] == x);
    }
}

/// Batch law: every unclassifiable field of every listed struct that is not
/// bespoke stands in the report of the whole pass, however many others fail.
pub proof fn every_failure_is_reported(
    s: Seq<StructDescriptor>,
    fam: Seq<bool>,
    rules: Rules,
    order: Seq<usize>,
    k: int,
    j: int,
    e: ShapeError,
)
    requires
        0 <= k < order.len(),
        order[k] < s.len(),
        !is_bespoke(rules, s[order[k] as int].name@),
        0 <= j < s[order[k] as int].fields@.len(),
        field_class(s, fam, rules, s[order[k] as int].name@, s[order[k] as int].fields@[j]) == FieldClass::Fail(e),
    ensures
        family_failures(s, fam, rules, order).contains(
            ClassifyError { struct_name: s[order[k] as int].name, field_name: s[order[k] as int].fields@[j].name, shape: e },
        ),
{
    let d = s[order[k] as int];
    lemma_field_failure_listed(s, fam, rules, d, d.fields@, j, e);
    lemma_struct_failure_listed(
        s,
        fam,
        rules,
        order,
        k,
        ClassifyError { struct_name: d.name, field_name: d.fields@[j].name, shape: e },
    );
}

/// Looks up the bound table entry for a struct and field.
fn find_bound(b: &Vec<BoundRule>, sname: &String, fname: &String) -> (r: Option<usize>)
    ensures
        match r {
            Some(i) => bound_entry(b@, sname@, fname@) == Some(i as int),
            None => bound_entry(b@, sname@, fname@) is None,
        },
{
    let mut i: usize = 0;
    while i < b.len()
        invariant
            i <= b@.len(),
            forall|j: int| 0 <= j < i ==> !(b@[j].struct_name@ == sname@ && b@[j].field_name@ == fname@),
        decreases b@.len() - i,
    {
        if b[i].struct_name == *sname && b[i].field_name == *fname {
            assert(is_first_bound(b@, sname@, fname@, i as int));
            assert forall|j: int| is_first_bound(b@, sname@, fname@, j) implies j == i as int by {
                if j < i {
                } else if j > i {
                    assert(!(b@[i as int].struct_name@ == sname@ && b@[i as int].field_name@ == fname@));
                }
            }
            return Some(i);
        }
        i += 1;
    }
    None
}

/// Whether the deny list names a struct's field.
fn denied(d: &Vec<DenyRule>, sname: &String, fname: &String) -> (r: bool)
    ensures
        r == is_denied(d@, sname@, fname@),
{
    let mut i: usize = 0;
    while i < d.len()
        invariant
            i <= d@.len(),
            forall|j: int| 0 <= j < i ==> !deny_matches(d@[j], sname@, fname@),
        decreases d@.len() - i,
    {
        let hit = d[i].field_name == *fname && match &d[i].struct_name {
            Some(n) => *n == *sname,
            None => true,
        };
        if hit {
            return true;
        }
        i += 1;
    }
    false
}

/// The index of the family struct called `name`, if it is one.
fn family_struct(structs: &Vec<StructDescriptor>, fam: &Vec<bool>, name: &String) -> (r: Option<usize>)
    requires
        fam@.len() == structs@.len(),
    ensures
        r is Some <==> names_family(structs@, fam@, name@),
        r matches Some(j) ==> lookup(structs@, name@) == Some(j as int),
{
    match find_struct(structs, name) {
        Some(j) => {
            proof {
                crate::schema::lemma_lookup_in_range(structs@, name@);
            }
            if fam[j] {
                Some(j)
            } else {
                None
            }
        },
        None => None,
    }
}

/// Classifies a field by its type alone.
fn classify_type(structs: &Vec<StructDescriptor>, fam: &Vec<bool>, f: &FieldDescriptor) -> (r: FieldClass)
    requires
        fam@.len() == structs@.len(),
    ensures
        r == type_class(structs@, fam@, *f),
{
    match &f.ty {
        TypeRef::Array(elem, len) => match &**elem {
            TypeRef::Pointer(inner) => match &**inner {
                TypeRef::Path(n) => if family_struct(structs, fam, n).is_some() {
                    FieldClass::Child(ChildReference::FixedArray { field: f.name.clone(), len: *len })
                } else {
                    FieldClass::Inert
                },
                _ => FieldClass::Fail(ShapeError::ArrayElementTarget),
            },
            _ => FieldClass::Inert,
        },
        TypeRef::Pointer(inner) => match &**inner {
            TypeRef::Path(n) => if family_struct(structs, fam, n).is_some() {
                FieldClass::Child(ChildReference::Pointer { field: f.name.clone() })
            } else {
                FieldClass::Inert
            },
            _ => FieldClass::Fail(ShapeError::PointerTarget),
        },
        TypeRef::Path(n) => match family_struct(structs, fam, n) {
            Some(j) => FieldClass::Child(ChildReference::Embedded { field: f.name.clone(), target: j }),
            None => {
                proof {
                    crate::schema::lemma_lookup_in_range(structs@, n@);
                }
                FieldClass::Inert
            },
        },
        TypeRef::Other(_) => FieldClass::Fail(ShapeError::Unsupported),
    }
}

/// Classifies field `f` of the struct called `sname`.
pub fn classify_field(
    structs: &Vec<StructDescriptor>,
    fam: &Vec<bool>,
    rules: &Rules,
    sname: &String,
    f: &FieldDescriptor,
) -> (r: FieldClass)
    requires
        fam@.len() == structs@.len(),
    ensures
        r == field_class(structs@, fam@, *rules, sname@, *f),
{
    match find_bound(&rules.bounds, sname, &f.name) {
        Some(i) => match &rules.bounds[i].bound {
            Some(e) => FieldClass::Child(ChildReference::Bounded { field: f.name.clone(), bound: e.duplicate() }),
            None => FieldClass::Inert,
        },
        None => if denied(&rules.denied, sname, &f.name) {
            FieldClass::Inert
        } else {
            classify_type(structs, fam, f)
        },
    }
}

/// Classifies every field of struct `d`, in declaration order: its walk steps and
/// its unclassifiable fields.
pub fn classify_fields(
    structs: &Vec<StructDescriptor>,
    fam: &Vec<bool>,
    rules: &Rules,
    d: &StructDescriptor,
) -> (r: (Vec<ChildReference>, Vec<ClassifyError>))
    requires
        fam@.len() == structs@.len(),
    ensures
        r.0@ == field_steps(structs@, fam@, *rules, d.name@, d.fields@),
        r.1@ == field_failures(structs@, fam@, *rules, *d, d.fields@),
{
    let mut steps: Vec<ChildReference> = Vec::new();
    let mut fails: Vec<ClassifyError> = Vec::new();
    let mut k: usize = 0;
    while k < d.fields.len()
        invariant
            fam@.len() == structs@.len(),
            k <= d.fields@.len(),
            steps@ == field_steps(structs@, fam@, *rules, d.name@, d.fields@.subrange(0, k as int)),
            fails@ == field_failures(structs@, fam@, *rules, *d, d.fields@.subrange(0, k as int)),
        decreases d.fields@.len() - k,
    {
        let f = &d.fields[k];
        let ghost pre = d.fields@.subrange(0, k as int);
        let ghost next = d.fields@.subrange(0, k + 1);
        assert(next.drop_last() == pre);
        assert(next.last() == *f);
        match classify_field(structs, fam, rules, &d.name, f) {
            FieldClass::Child(c) => steps.push(c),
            FieldClass::Fail(e) => fails.push(ClassifyError { struct_name: d.name.clone(), field_name: f.name.clone(), shape: e }),
            FieldClass::Inert => {},
        }
        k += 1;
    }
    assert(d.fields@.subrange(0, d.fields@.len() as int) == d.fields@);
    (steps, fails)
}

/// One pointer step per name, in order.
fn pointers_of(names: &Vec<String>) -> (r: Vec<ChildReference>)
    ensures
        r@ == pointer_steps(names@),
{
    let mut r: Vec<ChildReference> = Vec::new();
    let mut k: usize = 0;
    while k < names.len()
        invariant
            k <= names@.len(),
            r@ == pointer_steps(names@.subrange(0, k as int)),
        decreases names@.len() - k,
    {
        r.push(ChildReference::Pointer { field: names[k].clone() });
        assert(pointer_steps(names@.subrange(0, k + 1)) == pointer_steps(names@.subrange(0, k as int)).push(
            ChildReference::Pointer { field: names@[k as int] },
        ));
        k += 1;
    }
    assert(names@.subrange(0, names@.len() as int) == names@);
    r
}

/// The program of struct `d` and its unclassifiable fields.
pub fn classify_struct(
    structs: &Vec<StructDescriptor>,
    fam: &Vec<bool>,
    rules: &Rules,
    d: &StructDescriptor,
) -> (r: (Vec<ChildReference>, Vec<ClassifyError>))
    requires
        fam@.len() == structs@.len(),
    ensures
        r.0@ == struct_steps(structs@, fam@, *rules, *d),
        r.1@ == struct_failures(structs@, fam@, *rules, *d),
{
    if d.name == rules.container_name {
        (vec![ChildReference::Container { shape: rules.container_shape }], Vec::new())
    } else if d.name == rules.union_rule.struct_name {
        let u = &rules.union_rule;
        let mut steps = pointers_of(&u.leading);
        steps.push(ChildReference::Union { discriminant: u.discriminant_field.clone() });
        let mut tail = pointers_of(&u.trailing);
        steps.append(&mut tail);
        (steps, Vec::new())
    } else {
        classify_fields(structs, fam, rules, d)
    }
}

} // verus!
