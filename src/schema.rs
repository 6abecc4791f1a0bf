use vstd::prelude::*;

verus! {

/// The type of a field, as the parsed foreign header spells it.
pub enum TypeRef {
    /// A named type: a scalar, an alias, or a struct of the schema.
    Path(String),
    /// A pointer to the inner type.
    Pointer(Box<TypeRef>),
    /// A fixed-size array of the inner type.
    Array(Box<TypeRef>, usize),
    /// Any other shape (a function pointer, a tuple, ...), with its spelling.
    Other(String),
}

/// One field of a struct. Its ordinal is its position in the struct's field list.
pub struct FieldDescriptor {
    pub name: String,
    pub ty: TypeRef,
}

/// One struct of the foreign schema.
pub struct StructDescriptor {
    pub name: String,
    pub fields: Vec<FieldDescriptor>,
    /// Where the struct stood among the items of the parsed header.
    pub items_offset: usize,
}

/// The parsed foreign schema: its structs in declaration order, and the names of
/// the types that have a runtime tag constant.
pub struct Schema {
    pub structs: Vec<StructDescriptor>,
    pub tags: Vec<String>,
}

/// The name that a struct's first field's type spells, where that type is a plain name.
pub open spec fn first_field_type_name(d: StructDescriptor) -> Option<Seq<char>> {
    if d.fields@.len() > 0 {
        match d.fields@[0].ty {
            TypeRef::Path(n) => Some(n@),
            _ => None,
        }
    } else {
        None
    }
}

/// `i` is the first struct called `name`.
pub open spec fn is_first_named(s: Seq<StructDescriptor>, name: Seq<char>, i: int) -> bool {
    0 <= i < s.len() && s[i].name@ == name && forall|j: int| 0 <= j < i ==> s[j].name@ != name
}

/// The index of the first struct called `name`, if any.
pub open spec fn lookup(s: Seq<StructDescriptor>, name: Seq<char>) -> Option<int> {
    if exists|i: int| is_first_named(s, name, i) {
        Some(choose|i: int| is_first_named(s, name, i))
    } else {
        None
    }
}

/// At most one index is the first struct of a name.
pub proof fn lemma_first_named_unique(s: Seq<StructDescriptor>, name: Seq<char>, i: int, j: int)
    requires
        is_first_named(s, name, i),
        is_first_named(s, name, j),
    ensures
        i == j,
{
}

/// A name that is found is found in range.
pub proof fn lemma_lookup_in_range(s: Seq<StructDescriptor>, name: Seq<char>)
    ensures
        lookup(s, name) matches Some(i) ==> is_first_named(s, name, i),
{
}

/// Looks up the first struct called `name`.
pub fn find_struct(structs: &Vec<StructDescriptor>, name: &String) -> (r: Option<usize>)
    ensures
        match r {
            Some(i) => lookup(structs@, name@) == Some(i as int),
            None => lookup(structs@, name@) is None,
        },
{
    let mut i: usize = 0;
    while i < structs.len()
        invariant
            i <= structs@.len(),
            forall|j: int| 0 <= j < i ==> structs@[j].name@ != name@,
        decreases structs@.len() - i,
    {
        if structs[i].name == *name {
            assert(is_first_named(structs@, name@, i as int));
            assert forall|j: int| is_first_named(structs@, name@, j) implies j == i as int by {
                lemma_first_named_unique(structs@, name@, i as int, j);
            }
            return Some(i);
        }
        i += 1;
    }
    None
}

} // verus!
