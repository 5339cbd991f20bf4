//! Schemas and their unification.
//!
//! A schema is an ordered sequence of named fields with unique names.
//! Unification folds the schemas of all input files, in file order, into
//! one merged schema: a field whose name is new is appended as-is, a
//! later occurrence of a known name leaves the existing entry untouched
//! (first-seen wins), and at the end every field is forced nullable, so
//! that files lacking a field can supply an absence marker for it.

use vstd::prelude::*;

use arrow::datatypes::DataType;

use crate::errors::Error;

verus! {

/// One named column of a schema. The type is the arrow type of the
/// field, carried opaquely; contracts compare such types only for
/// equality.
pub struct FieldDef {
    pub name: String,
    pub native: DataType,
    pub nullable: bool,
}

/// The mathematical content of a field: its name as a character
/// sequence, its type, and its nullability.
pub ghost struct FieldModel {
    pub name: Seq<char>,
    pub native: DataType,
    pub nullable: bool,
}

impl View for FieldDef {
    type V = FieldModel;

    open spec fn view(&self) -> FieldModel {
        FieldModel { name: self.name@, native: self.native, nullable: self.nullable }
    }
}

impl Clone for FieldDef {
    fn clone(&self) -> (r: Self)
        ensures
            r@ == self@,
    {
        FieldDef { name: self.name.clone(), native: self.native.clone(), nullable: self.nullable }
    }
}

/// The models of a sequence of fields, in order.
pub open spec fn fields_model(fs: Seq<FieldDef>) -> Seq<FieldModel> {
    Seq::new(fs.len(), |i: int| fs[i]@)
}

/// An ordered sequence of fields; a well-formed schema has unique names.
pub struct SchemaDef {
    pub fields: Vec<FieldDef>,
}

impl View for SchemaDef {
    type V = Seq<FieldModel>;

    open spec fn view(&self) -> Seq<FieldModel> {
        fields_model(self.fields@)
    }
}

impl SchemaDef {
    /// Field names are unique within the schema.
    pub open spec fn wf(&self) -> bool {
        unique_names(self@)
    }
}

/// Some field in `s` is named `name`.
pub open spec fn contains_name(s: Seq<FieldModel>, name: Seq<char>) -> bool {
    exists|i: int| 0 <= i < s.len() && s[i].name == name
}

/// No two fields of `s` share a name.
pub open spec fn unique_names(s: Seq<FieldModel>) -> bool {
    forall|i: int, j: int| 0 <= i < j < s.len() ==> s[i].name != s[j].name
}

/// The position of the earliest field of `s` named `name`; `s.len()`
/// when no field is.
pub open spec fn first_with_name(s: Seq<FieldModel>, name: Seq<char>) -> int
    decreases s.len(),
{
    if s.len() == 0 {
        0
    } else if s[0].name == name {
        0
    } else {
        1 + first_with_name(s.drop_first(), name)
    }
}

/// Folding one file's fields into the running merged schema: a field
/// whose name is new is appended, a later occurrence of a known name
/// leaves the existing entry untouched.
pub open spec fn fold_schema(acc: Seq<FieldModel>, fs: Seq<FieldModel>) -> Seq<FieldModel>
    decreases fs.len(),
{
    if fs.len() == 0 {
        acc
    } else {
        let step = if contains_name(acc, fs[0].name) {
            acc
        } else {
            acc.push(fs[0])
        };
        fold_schema(step, fs.drop_first())
    }
}

/// Folding every input schema, in file order.
pub open spec fn fold_schemas(acc: Seq<FieldModel>, ss: Seq<Seq<FieldModel>>) -> Seq<FieldModel>
    decreases ss.len(),
{
    if ss.len() == 0 {
        acc
    } else {
        fold_schemas(fold_schema(acc, ss[0]), ss.drop_first())
    }
}

/// Every field marked nullable, all else unchanged.
pub open spec fn force_nullable(s: Seq<FieldModel>) -> Seq<FieldModel> {
    s.map(|i: int, f: FieldModel| FieldModel { nullable: true, ..f })
}

/// The unified schema of the given input schemas, as a model value:
/// the fold of all fields in input order, every field forced nullable.
pub open spec fn unified_model(ss: Seq<Seq<FieldModel>>) -> Seq<FieldModel> {
    force_nullable(fold_schemas(Seq::empty(), ss))
}

/// All input schemas flattened to one field sequence, in input order.
pub open spec fn flat(ss: Seq<Seq<FieldModel>>) -> Seq<FieldModel>
    decreases ss.len(),
{
    if ss.len() == 0 {
        Seq::empty()
    } else {
        ss[0] + flat(ss.drop_first())
    }
}

/// The models of a sequence of schemas, in order.
pub open spec fn schema_views(ss: Seq<SchemaDef>) -> Seq<Seq<FieldModel>> {
    Seq::new(ss.len(), |i: int| ss[i]@)
}

/// Two occurrences of `name` across the inputs disagree on the type.
pub open spec fn conflicting_name(ss: Seq<Seq<FieldModel>>, name: Seq<char>) -> bool {
    exists|a: int, b: int, c: int, d: int|
        #![trigger ss[a][b], ss[c][d]]
        {
            &&& 0 <= a < ss.len()
            &&& 0 <= b < ss[a].len()
            &&& 0 <= c < ss.len()
            &&& 0 <= d < ss[c].len()
            &&& ss[a][b].name == name
            &&& ss[c][d].name == name
            &&& ss[a][b].native != ss[c][d].native
        }
}

/// How a field name seen with two different types is treated: keep the
/// first-seen type silently, or refuse the inputs.
#[derive(Clone, Copy, Debug, PartialEq, Eq, Structural)]
pub enum ConflictPolicy {
    FirstWins,
    ErrorOnConflict,
}

/// The position of a field of `acc` named `name`, none when no field is.
fn find_field(acc: &Vec<FieldDef>, name: &String) -> (r: Option<usize>)
    ensures
        match r {
            Some(m) => m < acc@.len() && fields_model(acc@)[m as int].name == name@,
            None => !contains_name(fields_model(acc@), name@),
        },
{
    let mut m: usize = 0;
    while m < acc.len()
        invariant
            m <= acc@.len(),
            forall|t: int| 0 <= t < m ==> fields_model(acc@)[t].name != name@,
        decreases acc@.len() - m,
    {
        if acc[m].name == *name {
            return Some(m);
        }
        m += 1;
    }
    None
}

/// Unfolding the schema fold at the far end: folding one more field.
proof fn lemma_fold_schema_push(acc: Seq<FieldModel>, fs: Seq<FieldModel>, f: FieldModel)
    ensures
        fold_schema(acc, fs.push(f)) == ({
            let base = fold_schema(acc, fs);
            if contains_name(base, f.name) {
                base
            } else {
                base.push(f)
            }
        }),
    decreases fs.len(),
{
    if fs.len() == 0 {
        assert(fs.push(f)[0] == f);
        assert(fs.push(f).drop_first() =~= Seq::<FieldModel>::empty());
        let step = if contains_name(acc, f.name) {
            acc
        } else {
            acc.push(f)
        };
        assert(fold_schema(step, Seq::<FieldModel>::empty()) == step);
    } else {
        assert(fs.push(f)[0] == fs[0]);
        assert(fs.push(f).drop_first() =~= fs.drop_first().push(f));
        let step = if contains_name(acc, fs[0].name) {
            acc
        } else {
            acc.push(fs[0])
        };
        lemma_fold_schema_push(step, fs.drop_first(), f);
    }
}

/// Unfolding the schema-list fold at the far end: folding one more file.
proof fn lemma_fold_schemas_push(acc: Seq<FieldModel>, ss: Seq<Seq<FieldModel>>, s: Seq<FieldModel>)
    ensures
        fold_schemas(acc, ss.push(s)) == fold_schema(fold_schemas(acc, ss), s),
    decreases ss.len(),
{
    if ss.len() == 0 {
        assert(ss.push(s)[0] == s);
        assert(ss.push(s).drop_first() =~= Seq::<Seq<FieldModel>>::empty());
        assert(fold_schemas(fold_schema(acc, s), Seq::<Seq<FieldModel>>::empty()) == fold_schema(
            acc,
            s,
        ));
    } else {
        assert(ss.push(s)[0] == ss[0]);
        assert(ss.push(s).drop_first() =~= ss.drop_first().push(s));
        lemma_fold_schemas_push(fold_schema(acc, ss[0]), ss.drop_first(), s);
    }
}

/// Computes the unified schema of the input schemas, in input order:
/// the union of their field names, each with the type of its earliest
/// occurrence, every field forced nullable. Under `ErrorOnConflict`, a
/// name seen with two different types refuses the inputs instead.
pub fn unify_schemas(schemas: &Vec<SchemaDef>, policy: ConflictPolicy) -> (r: Result<
    SchemaDef,
    Error,
>)
    ensures
        match r {
            Ok(u) => {
                &&& u@ == unified_model(schema_views(schemas@))
                &&& u.wf()
                &&& policy == ConflictPolicy::ErrorOnConflict ==> forall|name: Seq<char>|
                    !conflicting_name(schema_views(schemas@), name)
            },
            Err(e) => {
                &&& policy == ConflictPolicy::ErrorOnConflict
                &&& match e {
                    Error::SchemaConflict(n) => conflicting_name(schema_views(schemas@), n@),
                    _ => false,
                }
            },
        },
{
    let ghost ss = schema_views(schemas@);
    let mut acc: Vec<FieldDef> = Vec::new();
    // ghost witnesses: for each merged entry, one occurrence it stems
    // from; for each merged name, the entry's position
    let ghost mut prov: Map<int, (int, int)> = Map::empty();
    let ghost mut idx: Map<Seq<char>, int> = Map::empty();
    let mut i: usize = 0;
    assert(ss.take(0) =~= Seq::<Seq<FieldModel>>::empty());
    while i < schemas.len()
        invariant
            i <= schemas@.len(),
            ss == schema_views(schemas@),
            fields_model(acc@) == fold_schemas(Seq::empty(), ss.take(i as int)),
            unique_names(fields_model(acc@)),
            forall|m: int|
                #![trigger fields_model(acc@)[m]]
                #![trigger prov[m]]
                0 <= m < acc@.len() ==> {
                    &&& idx.contains_key(fields_model(acc@)[m].name)
                    &&& idx[fields_model(acc@)[m].name] == m
                    &&& prov.contains_key(m)
                    &&& 0 <= prov[m].0 < i
                    &&& 0 <= prov[m].1 < ss[prov[m].0].len()
                    &&& ss[prov[m].0][prov[m].1].name == fields_model(acc@)[m].name
                    &&& ss[prov[m].0][prov[m].1].native == fields_model(acc@)[m].native
                },
            policy == ConflictPolicy::ErrorOnConflict ==> forall|a: int, b: int|
                #![trigger ss[a][b]]
                0 <= a < i && 0 <= b < ss[a].len() ==> {
                    &&& idx.contains_key(ss[a][b].name)
                    &&& 0 <= idx[ss[a][b].name] < acc@.len()
                    &&& fields_model(acc@)[idx[ss[a][b].name]].name == ss[a][b].name
                    &&& fields_model(acc@)[idx[ss[a][b].name]].native == ss[a][b].native
                },
        decreases schemas@.len() - i,
    {
        let fs = &schemas[i].fields;
        let ghost outer = fold_schemas(Seq::empty(), ss.take(i as int));
        let mut j: usize = 0;
        assert(ss[i as int].take(0) =~= Seq::<FieldModel>::empty());
        while j < fs.len()
            invariant
                j <= fs@.len(),
                i < schemas@.len(),
                ss == schema_views(schemas@),
                fs@ == schemas@[i as int].fields@,
                ss[i as int] == fields_model(fs@),
                outer == fold_schemas(Seq::empty(), ss.take(i as int)),
                fields_model(acc@) == fold_schema(outer, ss[i as int].take(j as int)),
                unique_names(fields_model(acc@)),
                forall|m: int|
                    #![trigger fields_model(acc@)[m]]
                    #![trigger prov[m]]
                    0 <= m < acc@.len() ==> {
                        &&& idx.contains_key(fields_model(acc@)[m].name)
                        &&& idx[fields_model(acc@)[m].name] == m
                        &&& prov.contains_key(m)
                        &&& 0 <= prov[m].0 <= i
                        &&& 0 <= prov[m].1 < ss[prov[m].0].len()
                        &&& (prov[m].0 < i || prov[m].1 < j)
                        &&& ss[prov[m].0][prov[m].1].name == fields_model(acc@)[m].name
                        &&& ss[prov[m].0][prov[m].1].native == fields_model(acc@)[m].native
                    },
                policy == ConflictPolicy::ErrorOnConflict ==> forall|a: int, b: int|
                    #![trigger ss[a][b]]
                    0 <= a <= i && 0 <= b < ss[a].len() && (a < i || b < j) ==> {
                        &&& idx.contains_key(ss[a][b].name)
                        &&& 0 <= idx[ss[a][b].name] < acc@.len()
                        &&& fields_model(acc@)[idx[ss[a][b].name]].name == ss[a][b].name
                        &&& fields_model(acc@)[idx[ss[a][b].name]].native == ss[a][b].native
                    },
            decreases fs@.len() - j,
        {
            let f = &fs[j];
            assert(ss[i as int][j as int] == f@);
            let ghost before = fields_model(acc@);
            match find_field(&acc, &f.name) {
                Some(m) => {
                    if policy == ConflictPolicy::ErrorOnConflict {
                        if !(acc[m].native == f.native) {
                            proof {
                                let ghost ab = prov[m as int];
                                assert(ss[ab.0][ab.1].name == f@.name);
                                assert(ss[ab.0][ab.1].native != ss[i as int][j as int].native);
                                assert(conflicting_name(ss, f@.name));
                            }
                            return Err(Error::SchemaConflict(f.name.clone()));
                        }
                    }
                }
                None => {
                    let ghost newpos = acc@.len() as int;
                    acc.push(f.clone());
                    proof {
                        assert(fields_model(acc@) =~= before.push(f@));
                        prov = prov.insert(newpos, (i as int, j as int));
                        idx = idx.insert(f@.name, newpos);
                    }
                }
            }
            proof {
                assert(ss[i as int].take(j + 1) =~= ss[i as int].take(j as int).push(
                    ss[i as int][j as int],
                ));
                lemma_fold_schema_push(outer, ss[i as int].take(j as int), ss[i as int][j as int]);
            }
            j += 1;
        }
        proof {
            assert(ss[i as int].take(ss[i as int].len() as int) =~= ss[i as int]);
            assert(ss.take(i + 1) =~= ss.take(i as int).push(ss[i as int]));
            lemma_fold_schemas_push(Seq::empty(), ss.take(i as int), ss[i as int]);
        }
        i += 1;
    }
    proof {
        assert(ss.take(ss.len() as int) =~= ss);
    }
    // force nullability on every merged field
    let mut out: Vec<FieldDef> = Vec::new();
    let mut k: usize = 0;
    while k < acc.len()
        invariant
            k <= acc@.len(),
            out@.len() == k,
            forall|t: int|
                #![trigger fields_model(out@)[t]]
                0 <= t < k ==> fields_model(out@)[t] == (FieldModel {
                    nullable: true,
                    ..fields_model(acc@)[t]
                }),
        decreases acc@.len() - k,
    {
        let entry = &acc[k];
        let ghost before_out = fields_model(out@);
        out.push(
            FieldDef { name: entry.name.clone(), native: entry.native.clone(), nullable: true },
        );
        proof {
            assert(fields_model(out@) =~= before_out.push(
                FieldModel { nullable: true, ..fields_model(acc@)[k as int] },
            ));
        }
        k += 1;
    }
    proof {
        assert(fields_model(out@) =~= force_nullable(fields_model(acc@)));
        assert forall|p: int, q: int|
            0 <= p < q < fields_model(out@).len() implies fields_model(out@)[p].name
            != fields_model(out@)[q].name by {
            assert(fields_model(out@)[p].name == fields_model(acc@)[p].name);
            assert(fields_model(out@)[q].name == fields_model(acc@)[q].name);
        }
        if policy == ConflictPolicy::ErrorOnConflict {
            assert forall|name: Seq<char>| !conflicting_name(ss, name) by {
                if conflicting_name(ss, name) {
                    let (a, b, c, d) = choose|a: int, b: int, c: int, d: int|
                        {
                            &&& 0 <= a < ss.len()
                            &&& 0 <= b < ss[a].len()
                            &&& 0 <= c < ss.len()
                            &&& 0 <= d < ss[c].len()
                            &&& ss[a][b].name == name
                            &&& ss[c][d].name == name
                            &&& ss[a][b].native != ss[c][d].native
                        };
                    assert(fields_model(acc@)[idx[name]].native == ss[a][b].native);
                    assert(fields_model(acc@)[idx[name]].native == ss[c][d].native);
                    assert(false);
                }
            }
        }
    }
    Ok(SchemaDef { fields: out })
}

/// The earliest field named `name` is in range, carries that name, and
/// nothing before it does.
proof fn lemma_first_with_name(s: Seq<FieldModel>, name: Seq<char>)
    requires
        contains_name(s, name),
    ensures
        0 <= first_with_name(s, name) < s.len(),
        s[first_with_name(s, name)].name == name,
        forall|t: int| 0 <= t < first_with_name(s, name) ==> s[t].name != name,
    decreases s.len(),
{
    if s[0].name == name {
    } else {
        let i = choose|i: int| 0 <= i < s.len() && s[i].name == name;
        assert(s.drop_first()[i - 1].name == name);
        lemma_first_with_name(s.drop_first(), name);
        assert forall|t: int| 0 <= t < first_with_name(s, name) implies s[t].name != name by {
            if t > 0 {
                assert(s.drop_first()[t - 1].name != name);
            }
        }
    }
}

/// A nonempty sequence holds a name exactly when its head or its tail
/// does.
proof fn lemma_contains_unfold(fs: Seq<FieldModel>, name: Seq<char>)
    requires
        fs.len() > 0,
    ensures
        contains_name(fs, name) <==> (fs[0].name == name || contains_name(fs.drop_first(), name)),
{
    if contains_name(fs, name) {
        let i = choose|i: int| 0 <= i < fs.len() && fs[i].name == name;
        if i > 0 {
            assert(fs.drop_first()[i - 1].name == name);
        }
    }
    if contains_name(fs.drop_first(), name) {
        let k = choose|k: int| 0 <= k < fs.drop_first().len() && fs.drop_first()[k].name == name;
        assert(fs[k + 1].name == name);
    }
}

/// A concatenation holds a name exactly when one of its parts does.
proof fn lemma_contains_append(a: Seq<FieldModel>, b: Seq<FieldModel>, name: Seq<char>)
    ensures
        contains_name(a + b, name) <==> (contains_name(a, name) || contains_name(b, name)),
{
    if contains_name(a + b, name) {
        let i = choose|i: int| 0 <= i < (a + b).len() && (a + b)[i].name == name;
        if i < a.len() {
            assert(a[i].name == name);
        } else {
            assert(b[i - a.len()].name == name);
        }
    }
    if contains_name(a, name) {
        let i = choose|i: int| 0 <= i < a.len() && a[i].name == name;
        assert((a + b)[i].name == name);
    }
    if contains_name(b, name) {
        let i = choose|i: int| 0 <= i < b.len() && b[i].name == name;
        assert((a + b)[a.len() + i].name == name);
    }
}

/// What one folding step leaves behind: the accumulator is preserved as
/// a prefix, names are the union, and every appended entry is the
/// earliest occurrence of its name among the folded fields.
proof fn lemma_fold_schema_props(acc: Seq<FieldModel>, fs: Seq<FieldModel>)
    requires
        unique_names(acc),
    ensures
        unique_names(fold_schema(acc, fs)),
        fold_schema(acc, fs).len() >= acc.len(),
        forall|m: int| 0 <= m < acc.len() ==> #[trigger] fold_schema(acc, fs)[m] == acc[m],
        forall|name: Seq<char>|
            #![trigger contains_name(fold_schema(acc, fs), name)]
            #![trigger contains_name(fs, name)]
            contains_name(fold_schema(acc, fs), name) <==> (contains_name(acc, name)
                || contains_name(fs, name)),
        forall|m: int|
            #![trigger fold_schema(acc, fs)[m]]
            acc.len() <= m < fold_schema(acc, fs).len() ==> {
                &&& !contains_name(acc, fold_schema(acc, fs)[m].name)
                &&& contains_name(fs, fold_schema(acc, fs)[m].name)
                &&& fold_schema(acc, fs)[m] == fs[first_with_name(
                    fs,
                    fold_schema(acc, fs)[m].name,
                )]
            },
        forall|m1: int, m2: int|
            #![trigger fold_schema(acc, fs)[m1], fold_schema(acc, fs)[m2]]
            acc.len() <= m1 < m2 < fold_schema(acc, fs).len() ==> first_with_name(
                fs,
                fold_schema(acc, fs)[m1].name,
            ) < first_with_name(fs, fold_schema(acc, fs)[m2].name),
    decreases fs.len(),
{
    if fs.len() == 0 {
    } else {
        let f0 = fs[0];
        let step = if contains_name(acc, f0.name) {
            acc
        } else {
            acc.push(f0)
        };
        let tail = fs.drop_first();
        let r = fold_schema(acc, fs);
        assert(r == fold_schema(step, tail));
        if !contains_name(acc, f0.name) {
            assert forall|p: int, q: int| 0 <= p < q < step.len() implies step[p].name
                != step[q].name by {
                if q < acc.len() {
                } else {
                    assert(step[q] == f0);
                    assert(!contains_name(acc, f0.name));
                    assert(step[p] == acc[p]);
                }
            }
        }
        lemma_fold_schema_props(step, tail);
        assert forall|name: Seq<char>|
            #![trigger contains_name(fold_schema(acc, fs), name)]
            #![trigger contains_name(fs, name)]
            contains_name(fold_schema(acc, fs), name) <==> (contains_name(acc, name)
                || contains_name(fs, name)) by {
            lemma_contains_unfold(fs, name);
            if contains_name(acc, name) {
                let i = choose|i: int| 0 <= i < acc.len() && acc[i].name == name;
                assert(step[i].name == name);
            }
            if name == f0.name {
                if contains_name(acc, f0.name) {
                } else {
                    assert(step[acc.len() as int].name == name);
                }
            }
            if contains_name(step, name) && !contains_name(acc, name) && name != f0.name {
                let i = choose|i: int| 0 <= i < step.len() && step[i].name == name;
                assert(i < acc.len() || step[i] == f0);
                assert(false);
            }
        }
        assert forall|m: int|
            #![trigger fold_schema(acc, fs)[m]]
            acc.len() <= m < fold_schema(acc, fs).len() implies {
            &&& !contains_name(acc, fold_schema(acc, fs)[m].name)
            &&& contains_name(fs, fold_schema(acc, fs)[m].name)
            &&& fold_schema(acc, fs)[m] == fs[first_with_name(fs, fold_schema(acc, fs)[m].name)]
        } by {
            let entry = r[m];
            lemma_contains_unfold(fs, entry.name);
            if m < step.len() {
                // the entry is the head field, just pushed
                assert(step[m] == entry);
                assert(!contains_name(acc, f0.name) && m == acc.len() && entry == f0);
                assert(first_with_name(fs, f0.name) == 0);
            } else {
                // the entry was appended while folding the tail
                assert(!contains_name(step, entry.name));
                assert(entry == tail[first_with_name(tail, entry.name)]);
                if entry.name == f0.name {
                    if contains_name(acc, f0.name) {
                        assert(contains_name(step, entry.name));
                    } else {
                        assert(step[acc.len() as int] == f0);
                        assert(contains_name(step, entry.name));
                    }
                    assert(false);
                }
                assert(first_with_name(fs, entry.name) == 1 + first_with_name(tail, entry.name));
                assert(contains_name(tail, entry.name));
                lemma_first_with_name(tail, entry.name);
                assert(fs[first_with_name(fs, entry.name)] == tail[first_with_name(
                    tail,
                    entry.name,
                )]);
                if contains_name(acc, entry.name) {
                    let i = choose|i: int| 0 <= i < acc.len() && acc[i].name == entry.name;
                    assert(step[i].name == entry.name);
                    assert(false);
                }
            }
        }
        assert forall|m1: int, m2: int|
            acc.len() <= m1 < m2 < fold_schema(acc, fs).len() implies first_with_name(
            fs,
            fold_schema(acc, fs)[m1].name,
        ) < first_with_name(fs, fold_schema(acc, fs)[m2].name) by {
            let n1 = r[m1].name;
            let n2 = r[m2].name;
            // the later entry always comes from folding the tail
            assert(m2 >= step.len());
            assert(!contains_name(step, n2));
            assert(contains_name(tail, n2));
            if !contains_name(acc, f0.name) {
                assert(step[acc.len() as int].name == f0.name);
            }
            assert(contains_name(step, f0.name));
            assert(n2 != f0.name);
            lemma_first_with_name(tail, n2);
            assert(first_with_name(fs, n2) == 1 + first_with_name(tail, n2));
            if m1 >= step.len() {
                assert(!contains_name(step, n1));
                assert(n1 != f0.name);
                assert(first_with_name(fs, n1) == 1 + first_with_name(tail, n1));
            } else {
                // the earlier entry is the head field, just pushed
                assert(r[m1] == step[m1]);
                assert(m1 == acc.len() && step[m1] == f0);
                assert(first_with_name(fs, n1) == 0);
            }
        }
    }
}

/// Folding a concatenation is folding the parts in turn.
proof fn lemma_fold_append(acc: Seq<FieldModel>, a: Seq<FieldModel>, b: Seq<FieldModel>)
    ensures
        fold_schema(acc, a + b) == fold_schema(fold_schema(acc, a), b),
    decreases a.len(),
{
    if a.len() == 0 {
        assert(a + b =~= b);
    } else {
        assert((a + b)[0] == a[0]);
        assert((a + b).drop_first() =~= a.drop_first() + b);
        let step = if contains_name(acc, a[0].name) {
            acc
        } else {
            acc.push(a[0])
        };
        lemma_fold_append(step, a.drop_first(), b);
    }
}

/// Folding the input schemas one by one is folding their flattening.
proof fn lemma_fold_schemas_flat(acc: Seq<FieldModel>, ss: Seq<Seq<FieldModel>>)
    ensures
        fold_schemas(acc, ss) == fold_schema(acc, flat(ss)),
    decreases ss.len(),
{
    if ss.len() == 0 {
        assert(fold_schema(acc, flat(ss)) == acc);
    } else {
        lemma_fold_append(acc, ss[0], flat(ss.drop_first()));
        lemma_fold_schemas_flat(fold_schema(acc, ss[0]), ss.drop_first());
    }
}

/// The set of field names of a field sequence.
pub open spec fn names_of(s: Seq<FieldModel>) -> Set<Seq<char>> {
    Set::new(|n: Seq<char>| contains_name(s, n))
}

/// The union of the input schemas' field-name sets.
pub open spec fn union_of_names(ss: Seq<Seq<FieldModel>>) -> Set<Seq<char>>
    decreases ss.len(),
{
    if ss.len() == 0 {
        Set::empty()
    } else {
        names_of(ss[0]).union(union_of_names(ss.drop_first()))
    }
}

/// The flattening holds a name exactly when some input schema does.
proof fn lemma_flat_names(ss: Seq<Seq<FieldModel>>, name: Seq<char>)
    ensures
        contains_name(flat(ss), name) <==> union_of_names(ss).contains(name),
    decreases ss.len(),
{
    if ss.len() == 0 {
    } else {
        lemma_contains_append(ss[0], flat(ss.drop_first()), name);
        lemma_flat_names(ss.drop_first(), name);
    }
}

/// Forcing nullability changes no name: both sequences hold the same
/// names.
proof fn lemma_force_nullable_names(s: Seq<FieldModel>, name: Seq<char>)
    ensures
        contains_name(force_nullable(s), name) <==> contains_name(s, name),
{
    if contains_name(s, name) {
        let i = choose|i: int| 0 <= i < s.len() && s[i].name == name;
        assert(force_nullable(s)[i].name == name);
    }
    if contains_name(force_nullable(s), name) {
        let i = choose|i: int| 0 <= i < force_nullable(s).len() && force_nullable(s)[i].name
            == name;
        assert(s[i].name == name);
    }
}

/// Law: the unified schema's field-name set is exactly the union of the
/// input schemas' field-name sets, whatever the inputs.
pub proof fn lemma_unified_field_names(ss: Seq<Seq<FieldModel>>)
    ensures
        names_of(unified_model(ss)) == union_of_names(ss),
{
    lemma_fold_schemas_flat(Seq::empty(), ss);
    lemma_fold_schema_props(Seq::empty(), flat(ss));
    assert forall|name: Seq<char>| names_of(unified_model(ss)).contains(name)
        <==> union_of_names(ss).contains(name) by {
        lemma_force_nullable_names(fold_schemas(Seq::empty(), ss), name);
        lemma_flat_names(ss, name);
        assert(contains_name(fold_schema(Seq::empty(), flat(ss)), name) <==> (contains_name(
            Seq::empty(),
            name,
        ) || contains_name(flat(ss), name)));
    }
    assert(names_of(unified_model(ss)) =~= union_of_names(ss));
}

/// Law: first-seen wins. For a name present anywhere in the inputs, the
/// unified schema holds that name; its entry carries the type of the
/// earliest occurrence of the name across all inputs, in input order,
/// however many later occurrences disagree; and it is nullable.
pub proof fn lemma_first_seen_wins(ss: Seq<Seq<FieldModel>>, name: Seq<char>)
    requires
        contains_name(flat(ss), name),
    ensures
        contains_name(unified_model(ss), name),
        forall|m: int|
            #![trigger unified_model(ss)[m]]
            0 <= m < unified_model(ss).len() && unified_model(ss)[m].name == name ==> {
                &&& unified_model(ss)[m].native == flat(ss)[first_with_name(flat(ss), name)].native
                &&& unified_model(ss)[m].nullable
            },
{
    lemma_fold_schemas_flat(Seq::empty(), ss);
    lemma_fold_schema_props(Seq::empty(), flat(ss));
    let folded = fold_schemas(Seq::empty(), ss);
    lemma_force_nullable_names(folded, name);
    assert(contains_name(folded, name));
    assert forall|m: int|
        #![trigger unified_model(ss)[m]]
        0 <= m < unified_model(ss).len() && unified_model(ss)[m].name == name implies {
        &&& unified_model(ss)[m].native == flat(ss)[first_with_name(flat(ss), name)].native
        &&& unified_model(ss)[m].nullable
    } by {
        assert(unified_model(ss)[m] == (FieldModel { nullable: true, ..folded[m] }));
        assert(folded[m] == flat(ss)[first_with_name(flat(ss), folded[m].name)]);
    }
}

/// Law: output columns are positioned by first encounter — the unified
/// schema lists its fields in the order their names are first seen
/// across the inputs, in input order.
pub proof fn lemma_first_encounter_order(ss: Seq<Seq<FieldModel>>, m1: int, m2: int)
    requires
        0 <= m1 < m2 < unified_model(ss).len(),
    ensures
        first_with_name(flat(ss), unified_model(ss)[m1].name) < first_with_name(
            flat(ss),
            unified_model(ss)[m2].name,
        ),
{
    lemma_fold_schemas_flat(Seq::empty(), ss);
    lemma_fold_schema_props(Seq::empty(), flat(ss));
    let folded = fold_schemas(Seq::empty(), ss);
    assert(unified_model(ss)[m1].name == folded[m1].name);
    assert(unified_model(ss)[m2].name == folded[m2].name);
}

/// No name already present is added: folding such fields is the
/// identity.
proof fn lemma_fold_no_new(acc: Seq<FieldModel>, fs: Seq<FieldModel>)
    requires
        forall|t: int| 0 <= t < fs.len() ==> contains_name(acc, #[trigger] fs[t].name),
    ensures
        fold_schema(acc, fs) == acc,
    decreases fs.len(),
{
    if fs.len() == 0 {
    } else {
        assert(contains_name(acc, fs[0].name));
        assert forall|t: int| 0 <= t < fs.drop_first().len() implies contains_name(
            acc,
            #[trigger] fs.drop_first()[t].name,
        ) by {
            assert(fs.drop_first()[t] == fs[t + 1]);
        }
        lemma_fold_no_new(acc, fs.drop_first());
    }
}

/// Law: listing the same schema twice unifies to the same schema as
/// listing it once.
pub proof fn lemma_duplicate_input(s: Seq<FieldModel>)
    ensures
        unified_model(seq![s, s]) == unified_model(seq![s]),
{
    let once = seq![s];
    let twice = seq![s, s];
    assert(twice.drop_first() =~= once);
    assert(once.drop_first() =~= Seq::<Seq<FieldModel>>::empty());
    assert(fold_schemas(fold_schema(Seq::empty(), s), Seq::<Seq<FieldModel>>::empty())
        == fold_schema(Seq::empty(), s));
    assert(fold_schemas(Seq::empty(), once) == fold_schema(Seq::empty(), s));
    assert(fold_schemas(Seq::empty(), twice) == fold_schemas(
        fold_schema(Seq::empty(), s),
        once.drop_first().push(s),
    )) by {
        assert(twice[0] == s);
    }
    lemma_fold_schema_props(Seq::empty(), s);
    assert forall|t: int| 0 <= t < s.len() implies contains_name(
        fold_schema(Seq::empty(), s),
        #[trigger] s[t].name,
    ) by {
        assert(contains_name(s, s[t].name));
    }
    lemma_fold_no_new(fold_schema(Seq::empty(), s), s);
    assert(fold_schemas(Seq::empty(), twice) == fold_schemas(
        fold_schema(fold_schema(Seq::empty(), s), s),
        Seq::<Seq<FieldModel>>::empty(),
    )) by {
        assert(once.drop_first().push(s)[0] == s);
        assert(once.drop_first().push(s).drop_first() =~= Seq::<Seq<FieldModel>>::empty());
    }
}

} // verus!
