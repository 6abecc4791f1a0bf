use vstd::prelude::*;

verus! {

/// The major versions of the foreign schema that the rule tables know.
#[derive(Clone, Copy, Debug, PartialEq, Eq, Structural)]
pub enum SchemaVersion {
    V11,
    V12,
    V13,
    V14,
    V15,
}

/// How many elements a pointer array holds, where its type does not say.
#[derive(Debug)]
pub enum BoundExpr {
    /// A fixed count.
    Literal(u64),
    /// The value of a sibling field.
    Field(String),
    /// The value of a sibling field plus a constant.
    FieldPlus(String, u64),
    /// A helper computation over the node, spelled as the expression that
    /// computes it; a node graph supplies its value as a scalar field of that
    /// spelling.
    Computed(String),
}

impl BoundExpr {
    pub fn duplicate(&self) -> (r: BoundExpr)
        ensures
            r == *self,
    {
        match self {
            BoundExpr::Literal(n) => BoundExpr::Literal(*n),
            BoundExpr::Field(f) => BoundExpr::Field(f.clone()),
            BoundExpr::FieldPlus(f, k) => BoundExpr::FieldPlus(f.clone(), *k),
            BoundExpr::Computed(c) => BoundExpr::Computed(c.clone()),
        }
    }
}

/// An entry of the array bound table: the field `field_name` of `struct_name` is
/// an array of `bound` pointers, or, with no bound, is not walked at all.
pub struct BoundRule {
    pub struct_name: String,
    pub field_name: String,
    pub bound: Option<BoundExpr>,
}

/// A field that is never walked: `field_name` of `struct_name`, or of every
/// struct where `struct_name` is `None`.
pub struct DenyRule {
    pub struct_name: Option<String>,
    pub field_name: String,
}

/// The pointer fields of the union struct that are valid under one value of its
/// discriminant, in the order they are walked.
pub struct UnionBranch {
    pub discriminant: i64,
    pub fields: Vec<String>,
}

/// The union struct, whose walkable fields depend on its discriminant: the
/// leading fields, then the fields of the branch that the discriminant selects,
/// then the trailing fields.
pub struct UnionRule {
    pub struct_name: String,
    pub discriminant_field: String,
    pub leading: Vec<String>,
    pub branches: Vec<UnionBranch>,
    pub trailing: Vec<String>,
}

/// The two layouts of the container type.
#[derive(Clone, Copy, Debug, PartialEq, Eq, Structural)]
pub enum ContainerShape {
    /// A chain of cells, each holding one element and the next cell.
    Linked,
    /// A contiguous array of cells with an explicit length.
    Flat,
}

/// The hand-kept rule tables for one schema version.
pub struct Rules {
    /// The type of the tag field that marks a root of the node family.
    pub tag_type: String,
    /// The generic homogeneous container type.
    pub container_name: String,
    pub container_shape: ContainerShape,
    pub bounds: Vec<BoundRule>,
    pub denied: Vec<DenyRule>,
    pub union_rule: UnionRule,
}

impl SchemaVersion {
    /// The major version number.
    pub open spec fn spec_major(self) -> u32 {
        match self {
            SchemaVersion::V11 => 11,
            SchemaVersion::V12 => 12,
            SchemaVersion::V13 => 13,
            SchemaVersion::V14 => 14,
            SchemaVersion::V15 => 15,
        }
    }

    /// The major version number.
    #[verifier::when_used_as_spec(spec_major)]
    pub fn major(self) -> (r: u32)
        ensures
            r == self.spec_major(),
    {
        match self {
            SchemaVersion::V11 => 11,
            SchemaVersion::V12 => 12,
            SchemaVersion::V13 => 13,
            SchemaVersion::V14 => 14,
            SchemaVersion::V15 => 15,
        }
    }

    /// The version of a major version number, if the tables know it.
    pub fn from_major(m: u32) -> (r: Option<SchemaVersion>)
        ensures
            r matches Some(v) ==> v.major() == m,
            r is None <==> !(11 <= m <= 15),
    {
        match m {
            11 => Some(SchemaVersion::V11),
            12 => Some(SchemaVersion::V12),
            13 => Some(SchemaVersion::V13),
            14 => Some(SchemaVersion::V14),
            15 => Some(SchemaVersion::V15),
            _ => None,
        }
    }
}

pub open spec fn views(v: Seq<String>) -> Seq<Seq<char>> {
    v.map_values(|s: String| s@)
}

/// Owned copies of the given names.
fn owned(names: Vec<&str>) -> (r: Vec<String>)
    ensures
        views(r@) == names@.map_values(|s: &str| s@),
{
    let mut r: Vec<String> = Vec::new();
    let mut i: usize = 0;
    while i < names.len()
        invariant
            i <= names@.len(),
            views(r@) == names@.subrange(0, i as int).map_values(|s: &str| s@),
        decreases names@.len() - i,
    {
        let ghost old_r = r@;
        r.push(names[i].to_owned());
        assert(names@.subrange(0, i + 1).map_values(|s: &str| s@) =~= names@.subrange(0, i as int).map_values(
            |s: &str| s@,
        ).push(names@[i as int]@));
        assert(views(r@) =~= views(old_r).push(names@[i as int]@));
        i += 1;
    }
    assert(names@.subrange(0, names@.len() as int) == names@);
    r
}

/// The join fields of the union struct, which grow across versions.
pub open spec fn join_fields(v: SchemaVersion) -> Seq<Seq<char>> {
    if v.major() <= 12 {
        seq!["joinaliasvars"@]
    } else if v.major() == 13 {
        seq!["joinaliasvars"@, "joinleftcols"@, "joinrightcols"@]
    } else {
        seq!["joinaliasvars"@, "joinleftcols"@, "joinrightcols"@, "join_using_alias"@]
    }
}

pub open spec fn deny_view(d: DenyRule) -> (Option<Seq<char>>, Seq<char>) {
    (
        match d.struct_name {
            Some(n) => Some(n@),
            None => None,
        },
        d.field_name@,
    )
}

/// The union struct of the schema: a range table entry, whose walkable fields
/// depend on its kind. The order of the fields under each kind is the one the
/// foreign system's own debug printer uses.
fn range_table_entry_rule(v: SchemaVersion) -> (u: UnionRule)
    ensures
        u.struct_name@ == "RangeTblEntry"@,
        u.discriminant_field@ == "rtekind"@,
        views(u.leading@) == seq!["alias"@, "eref"@],
        views(u.trailing@) == seq!["securityQuals"@],
        u.branches@.len() == if v.major() == 11 { 8int } else { 9int },
        forall|k: int| 0 <= k < u.branches@.len() ==> (#[trigger] u.branches@[k]).discriminant == k,
        views(u.branches@[0].fields@) == seq!["tablesample"@],
        views(u.branches@[1].fields@) == seq!["subquery"@],
        views(u.branches@[2].fields@) == join_fields(v),
        views(u.branches@[3].fields@) == seq!["functions"@],
        views(u.branches@[4].fields@) == seq!["tablefunc"@],
        views(u.branches@[5].fields@) == seq!["values_lists"@, "coltypes"@, "coltypmods"@, "colcollations"@],
        views(u.branches@[6].fields@) == seq!["coltypes"@, "coltypmods"@, "colcollations"@],
        views(u.branches@[7].fields@) == seq!["coltypes"@, "coltypmods"@, "colcollations"@],
        v.major() != 11 ==> views(u.branches@[8].fields@) == Seq::<Seq<char>>::empty(),
{
    let join = if v.major() <= 12 {
        vec!["joinaliasvars"]
    } else if v.major() == 13 {
        vec!["joinaliasvars", "joinleftcols", "joinrightcols"]
    } else {
        vec!["joinaliasvars", "joinleftcols", "joinrightcols", "join_using_alias"]
    };
    let mut branches: Vec<UnionBranch> = Vec::new();
    branches.push(UnionBranch { discriminant: 0, fields: owned(vec!["tablesample"]) });
    branches.push(UnionBranch { discriminant: 1, fields: owned(vec!["subquery"]) });
    branches.push(UnionBranch { discriminant: 2, fields: owned(join) });
    branches.push(UnionBranch { discriminant: 3, fields: owned(vec!["functions"]) });
    branches.push(UnionBranch { discriminant: 4, fields: owned(vec!["tablefunc"]) });
    branches.push(UnionBranch { discriminant: 5, fields: owned(vec!["values_lists", "coltypes", "coltypmods", "colcollations"]) });
    branches.push(UnionBranch { discriminant: 6, fields: owned(vec!["coltypes", "coltypmods", "colcollations"]) });
    branches.push(UnionBranch { discriminant: 7, fields: owned(vec!["coltypes", "coltypmods", "colcollations"]) });
    if v.major() != 11 {
        branches.push(UnionBranch { discriminant: 8, fields: Vec::new() });
    }
    assert(views(branches@[0].fields@) =~= seq!["tablesample"@]);
    assert(views(branches@[1].fields@) =~= seq!["subquery"@]);
    assert(views(branches@[2].fields@) =~= join_fields(v));
    assert(views(branches@[3].fields@) =~= seq!["functions"@]);
    assert(views(branches@[4].fields@) =~= seq!["tablefunc"@]);
    assert(views(branches@[5].fields@) =~= seq!["values_lists"@, "coltypes"@, "coltypmods"@, "colcollations"@]);
    assert(views(branches@[6].fields@) =~= seq!["coltypes"@, "coltypmods"@, "colcollations"@]);
    assert(views(branches@[7].fields@) =~= seq!["coltypes"@, "coltypmods"@, "colcollations"@]);
    assert(v.major() != 11 ==> views(branches@[8].fields@) =~= Seq::<Seq<char>>::empty());
    let leading = owned(vec!["alias", "eref"]);
    let trailing = owned(vec!["securityQuals"]);
    assert(views(leading@) =~= seq!["alias"@, "eref"@]);
    assert(views(trailing@) =~= seq!["securityQuals"@]);
    UnionRule {
        struct_name: "RangeTblEntry".to_owned(),
        discriminant_field: "rtekind".to_owned(),
        leading,
        branches,
        trailing,
    }
}

/// Adds an entry to the bound table where `v` lies in the versions `lo..=hi`.
fn add_bound(t: &mut Vec<BoundRule>, v: SchemaVersion, lo: u32, hi: u32, s: &str, f: &str, bound: Option<BoundExpr>)
    ensures
        lo <= v.major() <= hi ==> final(t)@ == old(t)@.push(
            BoundRule { struct_name: final(t)@.last().struct_name, field_name: final(t)@.last().field_name, bound },
        ) && final(t)@.last().struct_name@ == s@ && final(t)@.last().field_name@ == f@,
        !(lo <= v.major() <= hi) ==> final(t)@ == old(t)@,
{
    if lo <= v.major() && v.major() <= hi {
        t.push(BoundRule { struct_name: s.to_owned(), field_name: f.to_owned(), bound });
    }
}

/// The array bound table of version `v`: the pointer arrays whose count a
/// sibling field, a constant or a helper computation gives, and those that are
/// not walked at all.
fn bound_table(v: SchemaVersion) -> (t: Vec<BoundRule>) {
    let mut t: Vec<BoundRule> = Vec::new();
    add_bound(&mut t, v, 11, 15, "AggState", "aggcontexts", Some(BoundExpr::Field("numaggs".to_owned())));
    add_bound(&mut t, v, 11, 15, "AppendState", "appendplans", Some(BoundExpr::Field("as_nplans".to_owned())));
    add_bound(&mut t, v, 14, 15, "AppendState", "as_asyncplans", Some(BoundExpr::Field("as_nasyncplans".to_owned())));
    add_bound(&mut t, v, 14, 15, "AppendState", "as_asyncrequests", Some(BoundExpr::Computed("bms_num_members(self.as_valid_asyncplans)".to_owned())));
    add_bound(&mut t, v, 14, 15, "AppendState", "as_asyncresults", Some(BoundExpr::Field("as_nasyncresults".to_owned())));
    add_bound(&mut t, v, 11, 15, "BitmapAndState", "bitmapplans", Some(BoundExpr::Field("nplans".to_owned())));
    add_bound(&mut t, v, 11, 15, "BitmapOrState", "bitmapplans", Some(BoundExpr::Field("nplans".to_owned())));
    add_bound(&mut t, v, 11, 13, "EState", "es_result_relations", Some(BoundExpr::Field("es_num_result_relations".to_owned())));
    add_bound(&mut t, v, 14, 15, "EState", "es_result_relations", Some(BoundExpr::Field("es_range_table_size".to_owned())));
    add_bound(&mut t, v, 12, 12, "EState", "es_range_table_array", Some(BoundExpr::Field("es_range_table_size".to_owned())));
    add_bound(&mut t, v, 12, 15, "EState", "es_rowmarks", Some(BoundExpr::Field("es_range_table_size".to_owned())));
    add_bound(&mut t, v, 11, 15, "GatherMergeState", "gm_slots", Some(BoundExpr::FieldPlus("nreaders".to_owned(), 1)));
    add_bound(&mut t, v, 11, 15, "GatherMergeState", "reader", Some(BoundExpr::Field("nreaders".to_owned())));
    add_bound(&mut t, v, 11, 15, "GatherState", "reader", Some(BoundExpr::Field("nreaders".to_owned())));
    add_bound(&mut t, v, 13, 15, "IndexOptInfo", "opclassoptions", None);
    add_bound(&mut t, v, 14, 15, "MemoizeState", "param_exprs", Some(BoundExpr::Field("nkeys".to_owned())));
    add_bound(&mut t, v, 11, 15, "MergeAppendState", "mergeplans", Some(BoundExpr::Field("ms_nplans".to_owned())));
    add_bound(&mut t, v, 11, 15, "MergeAppendState", "ms_slots", Some(BoundExpr::Field("ms_nplans".to_owned())));
    add_bound(&mut t, v, 11, 13, "ModifyTableState", "mt_plans", Some(BoundExpr::Field("mt_nplans".to_owned())));
    add_bound(&mut t, v, 12, 13, "ModifyTableState", "mt_scans", Some(BoundExpr::Field("mt_nplans".to_owned())));
    add_bound(&mut t, v, 11, 15, "PlannerInfo", "append_rel_array", Some(BoundExpr::Field("simple_rel_array_size".to_owned())));
    add_bound(&mut t, v, 11, 15, "PlannerInfo", "join_rel_level", None);
    add_bound(&mut t, v, 11, 15, "PlannerInfo", "simple_rel_array", Some(BoundExpr::Field("simple_rel_array_size".to_owned())));
    add_bound(&mut t, v, 11, 15, "PlannerInfo", "simple_rte_array", Some(BoundExpr::Field("simple_rel_array_size".to_owned())));
    add_bound(&mut t, v, 11, 15, "ProjectSetState", "elems", Some(BoundExpr::Field("nelems".to_owned())));
    add_bound(&mut t, v, 11, 15, "RelOptInfo", "part_rels", Some(BoundExpr::Field("nparts".to_owned())));
    add_bound(&mut t, v, 11, 15, "RelOptInfo", "partexprs", Some(BoundExpr::Field("nparts".to_owned())));
    add_bound(&mut t, v, 11, 15, "RelOptInfo", "nullable_partexprs", Some(BoundExpr::Field("nparts".to_owned())));
    add_bound(&mut t, v, 11, 15, "ResultRelInfo", "ri_ConstraintExprs", Some(BoundExpr::Computed("(*(*(*self.ri_RelationDesc).rd_att).constr).num_check".to_owned())));
    add_bound(&mut t, v, 12, 15, "ResultRelInfo", "ri_GeneratedExprs", None);
    add_bound(&mut t, v, 11, 15, "ResultRelInfo", "ri_IndexRelationInfo", Some(BoundExpr::Field("ri_NumIndices".to_owned())));
    add_bound(&mut t, v, 11, 15, "ResultRelInfo", "ri_TrigWhenExprs", Some(BoundExpr::Computed("(*self.ri_TrigDesc).numtriggers".to_owned())));
    add_bound(&mut t, v, 14, 15, "ResultRelInfo", "ri_Slots", Some(BoundExpr::Field("ri_NumSlotsInitialized".to_owned())));
    add_bound(&mut t, v, 14, 15, "ResultRelInfo", "ri_PlanSlots", Some(BoundExpr::Field("ri_NumSlotsInitialized".to_owned())));
    add_bound(&mut t, v, 11, 15, "ValuesScanState", "exprlists", Some(BoundExpr::Field("array_len".to_owned())));
    add_bound(&mut t, v, 11, 15, "ValuesScanState", "exprstatelists", Some(BoundExpr::Field("array_len".to_owned())));
    t
}

impl Rules {
    /// The rule tables of version `v`.
    pub fn for_version(v: SchemaVersion) -> (r: Rules)
        ensures
            r.tag_type@ == "NodeTag"@,
            r.container_name@ == "List"@,
            r.container_shape == if v.major() <= 12 { ContainerShape::Linked } else { ContainerShape::Flat },
            r.denied@.map_values(|d: DenyRule| deny_view(d)) == seq![
                (Some("ModifyTableState"@), "mt_arowmarks"@),
                (Some("ModifyTableState"@), "mt_per_subplan_tupconv_maps"@),
                (None, "xpr"@),
            ],
            r.union_rule.struct_name@ == "RangeTblEntry"@,
            r.union_rule.discriminant_field@ == "rtekind"@,
            views(r.union_rule.leading@) == seq!["alias"@, "eref"@],
            views(r.union_rule.trailing@) == seq!["securityQuals"@],
            r.union_rule.branches@.len() == if v.major() == 11 { 8int } else { 9int },
            forall|k: int| 0 <= k < r.union_rule.branches@.len() ==> (#[trigger] r.union_rule.branches@[k]).discriminant == k,
            views(r.union_rule.branches@[2].fields@) == join_fields(v),
    {
        let mut denied: Vec<DenyRule> = Vec::new();
        denied.push(DenyRule { struct_name: Some("ModifyTableState".to_owned()), field_name: "mt_arowmarks".to_owned() });
        denied.push(DenyRule { struct_name: Some("ModifyTableState".to_owned()), field_name: "mt_per_subplan_tupconv_maps".to_owned() });
        denied.push(DenyRule { struct_name: None, field_name: "xpr".to_owned() });
        assert(denied@.map_values(|d: DenyRule| deny_view(d)) =~= seq![
            (Some("ModifyTableState"@), "mt_arowmarks"@),
            (Some("ModifyTableState"@), "mt_per_subplan_tupconv_maps"@),
            (None, "xpr"@),
        ]);
        let container_shape = if v.major() <= 12 { ContainerShape::Linked } else { ContainerShape::Flat };
        Rules {
            tag_type: "NodeTag".to_owned(),
            container_name: "List".to_owned(),
            container_shape,
            bounds: bound_table(v),
            denied,
            union_rule: range_table_entry_rule(v),
        }
    }
}

} // verus!
