use vstd::prelude::*;
use crate::errors::{InvalidQuery, QueryError};

verus! {

/// The name of the catch-all field that absorbs every path the schema does
/// not map.
pub const DYNAMIC_FIELD_NAME: &'static str = "_dynamic";

/// Indexing settings of a text field.
#[derive(Debug)]
pub struct TextOptions {
    /// The tokenizer the field is indexed with; `None` when it is not indexed.
    pub tokenizer: Option<String>,
}

/// Settings of a JSON object field.
#[derive(Debug)]
pub struct JsonObjectOptions {
    /// The tokenizer text values are indexed with; `None` when text is not
    /// indexed.
    pub tokenizer: Option<String>,
    /// Whether dots in a path address nested objects.
    pub expand_dots: bool,
}

/// The concrete type of a field.
#[derive(Debug)]
pub enum FieldType {
    Str(TextOptions),
    U64,
    I64,
    F64,
    Bool,
    Date,
    Facet,
    Bytes,
    JsonObject(JsonObjectOptions),
    IpAddr,
}

impl FieldType {
    pub open spec fn is_json(&self) -> bool {
        self is JsonObject
    }
}

/// A field of the catalog: its name, type and flags.
#[derive(Debug)]
pub struct FieldEntry {
    pub name: String,
    pub field_type: FieldType,
    pub fast: bool,
    pub stored: bool,
    pub fieldnorms: bool,
}

/// The field catalog a query is compiled against. A field is designated by
/// its index in `fields`.
#[derive(Debug)]
pub struct Schema {
    pub fields: Vec<FieldEntry>,
}

/// The index of the field named `name`, if there is one.
pub open spec fn field_named(fields: Seq<FieldEntry>, name: Seq<char>) -> Option<int> {
    if exists|i: int| 0 <= i < fields.len() && (#[trigger] fields[i]).name@ == name {
        Some(choose|i: int| 0 <= i < fields.len() && (#[trigger] fields[i]).name@ == name)
    } else {
        None
    }
}

/// Whether the character at `pos` follows an unpaired backslash.
pub open spec fn escaped(path: Seq<char>, pos: int) -> bool
    decreases pos,
{
    if pos <= 0 {
        false
    } else {
        path[pos - 1] == '\\' && !escaped(path, pos - 1)
    }
}

/// Whether the character at `pos` is a dot that separates path segments.
pub open spec fn is_split_dot(path: Seq<char>, pos: int) -> bool {
    0 <= pos < path.len() && path[pos] == '.' && !escaped(path, pos)
}

impl Schema {
    /// Field names are unique.
    pub open spec fn wf(&self) -> bool {
        forall|i: int, j: int|
            0 <= i < j < self.fields@.len() ==> (#[trigger] self.fields@[i]).name@
                != (#[trigger] self.fields@[j]).name@
    }

    pub open spec fn lookup(&self, name: Seq<char>) -> Option<int> {
        field_named(self.fields@, name)
    }

    pub fn new() -> (r: Schema)
        ensures
            r.fields@.len() == 0,
            r.wf(),
    {
        Schema { fields: Vec::new() }
    }

    /// Adds a field; a name that is already taken leaves the schema as it
    /// was and returns `false`.
    pub fn add_field(&mut self, entry: FieldEntry) -> (added: bool)
        requires
            old(self).wf(),
        ensures
            final(self).wf(),
            added == (old(self).lookup(entry.name@) is None),
            added ==> final(self).fields@ == old(self).fields@.push(entry),
            !added ==> final(self).fields@ == old(self).fields@,
    {
        match self.get_field(entry.name.as_str()) {
            Some(_) => false,
            None => {
                self.fields.push(entry);
                true
            },
        }
    }

    /// The field named exactly `name`.
    pub fn get_field(&self, name: &str) -> (r: Option<usize>)
        requires
            self.wf(),
        ensures
            r matches Some(i) ==> i < self.fields@.len() && self.fields@[i as int].name@ == name@,
            r == (match self.lookup(name@) {
                Some(i) => Some(i as usize),
                None => None::<usize>,
            }),
    {
        let key = name.to_string();
        let mut i: usize = 0;
        while i < self.fields.len()
            invariant
                self.wf(),
                key@ == name@,
                i <= self.fields@.len(),
                forall|j: int| 0 <= j < i ==> (#[trigger] self.fields@[j]).name@ != name@,
            decreases self.fields@.len() - i,
        {
            if self.fields[i].name == key {
                assert forall|j: int|
                    0 <= j < self.fields@.len() && (#[trigger] self.fields@[j]).name@
                        == name@ implies j == i by {
                    if j > i {
                        assert(self.fields@[i as int].name@ != self.fields@[j].name@);
                    }
                };
                return Some(i);
            }
            i = i + 1;
        }
        None
    }
}

/// The positions of the dots of `path` that separate segments, in increasing
/// order.
pub fn locate_splitting_dots(path: &str) -> (r: Vec<usize>)
    ensures
        forall|a: int, b: int| 0 <= a < b < r@.len() ==> r@[a] < r@[b],
        forall|a: int| 0 <= a < r@.len() ==> is_split_dot(path@, #[trigger] r@[a] as int),
        forall|p: int| is_split_dot(path@, p) ==> exists|a: int| 0 <= a < r@.len() && #[trigger] r@[a] == p,
{
    let len = path.unicode_len();
    let mut dots: Vec<usize> = Vec::new();
    let mut escape_state = false;
    let mut i: usize = 0;
    while i < len
        invariant
            len == path@.len(),
            i <= len,
            escape_state == escaped(path@, i as int),
            forall|a: int, b: int| 0 <= a < b < dots@.len() ==> dots@[a] < dots@[b],
            forall|a: int| 0 <= a < dots@.len() ==> dots@[a] < i,
            forall|a: int| 0 <= a < dots@.len() ==> is_split_dot(path@, #[trigger] dots@[a] as int),
            forall|p: int| 0 <= p < i && is_split_dot(path@, p) ==> exists|a: int| 0 <= a < dots@.len() && #[trigger] dots@[a] == p,
        decreases len - i,
    {
        let c = path.get_char(i);
        let ghost before = dots@;
        if escape_state {
            escape_state = false;
        } else if c == '\\' {
            escape_state = true;
        } else if c == '.' {
            dots.push(i);
            assert(dots@[dots@.len() - 1] == i);
        }
        proof {
            assert(escaped(path@, i + 1) == (path@[i as int] == '\\' && !escaped(path@, i as int)));
            assert forall|p: int| 0 <= p < i + 1 && is_split_dot(path@, p) implies exists|a: int| 0 <= a < dots@.len() && #[trigger] dots@[a] == p by {
                if p == i {
                    assert(dots@[dots@.len() - 1] == p);
                } else {
                    let a = choose|a: int| 0 <= a < before.len() && #[trigger] before[a] == p;
                    assert(dots@[a] == p);
                }
            };
        }
        i = i + 1;
    }
    dots
}

/// `path` resolves to a field through the split dot at `pos`: the text
/// before the dot names a field.
pub open spec fn resolves_at(schema: &Schema, path: Seq<char>, pos: int) -> bool {
    is_split_dot(path, pos) && schema.lookup(path.subrange(0, pos)) is Some
}

impl Schema {
    /// Resolves `full_path` to a field and the sub-path that follows it: the
    /// whole path when it names a field, else the longest prefix ending
    /// before a separating dot that names one.
    pub fn find_field<'a>(&self, full_path: &'a str) -> (r: Option<(usize, &'a str)>)
        requires
            self.wf(),
        ensures
            self.lookup(full_path@) matches Some(f) ==> r matches Some((g, rest)) && g == f
                && rest@.len() == 0,
            self.lookup(full_path@) is None ==> match r {
                Some((f, rest)) => exists|p: int|
                    {
                        &&& resolves_at(self, full_path@, p)
                        &&& self.lookup(full_path@.subrange(0, p)) == Some(f as int)
                        &&& rest@ == full_path@.subrange(p + 1, full_path@.len() as int)
                        &&& forall|q: int| p < q ==> !resolves_at(self, full_path@, q)
                    },
                None => forall|q: int| !resolves_at(self, full_path@, q),
            },
            r matches Some((f, _)) ==> f < self.fields@.len(),
    {
        if let Some(field) = self.get_field(full_path) {
            return Some((field, full_path.substring_char(0, 0)));
        }
        let mut dots = locate_splitting_dots(full_path);
        let ghost all = dots@;
        let len = full_path.unicode_len();
        while dots.len() > 0
            invariant
                self.wf(),
                self.lookup(full_path@) is None,
                len == full_path@.len(),
                dots@ == all.subrange(0, dots@.len() as int),
                dots@.len() <= all.len(),
                forall|a: int, b: int| 0 <= a < b < all.len() ==> all[a] < all[b],
                forall|a: int| 0 <= a < all.len() ==> is_split_dot(full_path@, #[trigger] all[a] as int),
                forall|p: int| is_split_dot(full_path@, p) ==> exists|a: int| 0 <= a < all.len() && #[trigger] all[a] == p,
                forall|a: int| dots@.len() <= a < all.len() ==> !resolves_at(self, full_path@, #[trigger] all[a] as int),
            decreases dots@.len(),
        {
            let pos = dots.pop().unwrap();
            let ghost k = dots@.len() as int;
            assert(all[k] == pos);
            let prefix = full_path.substring_char(0, pos);
            if let Some(field) = self.get_field(prefix) {
                let rest = full_path.substring_char(pos + 1, len);
                proof {
                    assert forall|q: int| pos < q implies !resolves_at(self, full_path@, q) by {
                        if is_split_dot(full_path@, q) {
                            let a = choose|a: int| 0 <= a < all.len() && #[trigger] all[a] == q;
                            if a <= k {
                                if a < k {
                                    assert(all[a] < all[k]);
                                }
                            }
                        }
                    };
                    assert(resolves_at(self, full_path@, pos as int));
                }
                return Some((field, rest));
            }
        }
        proof {
            assert forall|q: int| !resolves_at(self, full_path@, q) by {
                if is_split_dot(full_path@, q) {
                    let a = choose|a: int| 0 <= a < all.len() && #[trigger] all[a] == q;
                }
            };
        }
        None
    }
}

/// `pos` is the last separating dot through which `path` resolves.
pub open spec fn resolves_last_at(schema: &Schema, path: Seq<char>, pos: int) -> bool {
    resolves_at(schema, path, pos) && forall|q: int| pos < q ==> !resolves_at(schema, path, q)
}

/// The field a path lands on and the sub-path into it: the field the whole
/// path names; else the longest named prefix; else the catch-all field with
/// the whole path.
pub open spec fn landing(schema: &Schema, path: Seq<char>) -> Option<(int, Seq<char>)> {
    match schema.lookup(path) {
        Some(f) => Some((f, Seq::empty())),
        None => if exists|p: int| resolves_last_at(schema, path, p) {
            let p = choose|p: int| resolves_last_at(schema, path, p);
            Some((schema.lookup(path.subrange(0, p))->0, path.subrange(p + 1, path.len() as int)))
        } else {
            match schema.lookup(DYNAMIC_FIELD_NAME@) {
                Some(d) => Some((d, path)),
                None => None,
            }
        },
    }
}

/// Resolution of a path: only a JSON object field takes a sub-path, and
/// it needs one.
pub open spec fn resolve(schema: &Schema, path: Seq<char>) -> Result<(int, Seq<char>), QueryError> {
    match landing(schema, path) {
        None => Err(QueryError::FieldDoesNotExist { full_path: path }),
        Some((f, rest)) => {
            let is_json = schema.fields@[f].field_type.is_json();
            if rest.len() == 0 && is_json {
                Err(QueryError::JsonFieldRootNotSearchable { full_path: path })
            } else if rest.len() != 0 && !is_json {
                Err(QueryError::FieldDoesNotExist { full_path: path })
            } else {
                Ok((f, rest))
            }
        },
    }
}

proof fn lemma_last_unique(schema: &Schema, path: Seq<char>, p: int, q: int)
    requires
        resolves_last_at(schema, path, p),
        resolves_last_at(schema, path, q),
    ensures
        p == q,
{
    if p < q {
        assert(!resolves_at(schema, path, q));
    } else if q < p {
        assert(!resolves_at(schema, path, p));
    }
}

/// Resolves `full_path` to a field, its entry and the sub-path into it,
/// falling back to the catch-all field for paths the schema does not map.
pub fn find_field_or_hit_dynamic<'a>(full_path: &'a str, schema: &'a Schema) -> (r: Result<
    (usize, &'a FieldEntry, &'a str),
    InvalidQuery,
>)
    requires
        schema.wf(),
    ensures
        match r {
            Ok((f, entry, rest)) => {
                &&& resolve(schema, full_path@) == Ok::<(int, Seq<char>), QueryError>((f as int, rest@))
                &&& f < schema.fields@.len()
                &&& *entry == schema.fields@[f as int]
            },
            Err(e) => resolve(schema, full_path@) == Err::<(int, Seq<char>), QueryError>(e@),
        },
{
    let (field, path) = match schema.find_field(full_path) {
        Some((field, path)) => {
            proof {
                if schema.lookup(full_path@) is Some {
                    assert(path@ =~= Seq::<char>::empty());
                }
                if schema.lookup(full_path@) is None {
                    let p2 = choose|p: int|
                        {
                            &&& resolves_at(schema, full_path@, p)
                            &&& schema.lookup(full_path@.subrange(0, p)) == Some(field as int)
                            &&& path@ == full_path@.subrange(p + 1, full_path@.len() as int)
                            &&& forall|q: int| p < q ==> !resolves_at(schema, full_path@, q)
                        };
                    assert(resolves_last_at(schema, full_path@, p2));
                    let p = choose|p: int| resolves_last_at(schema, full_path@, p);
                    lemma_last_unique(schema, full_path@, p, p2);
                }
            }
            (field, path)
        },
        None => {
            match schema.get_field(DYNAMIC_FIELD_NAME) {
                Some(dynamic_field) => (dynamic_field, full_path),
                None => {
                    return Err(InvalidQuery::FieldDoesNotExist { full_path: full_path.to_string() });
                },
            }
        },
    };
    let field_entry = &schema.fields[field];
    let is_json = match field_entry.field_type {
        FieldType::JsonObject(_) => true,
        _ => false,
    };
    let path_is_empty = path.unicode_len() == 0;
    if path_is_empty && is_json {
        return Err(InvalidQuery::JsonFieldRootNotSearchable { full_path: full_path.to_string() });
    }
    if !path_is_empty && !is_json {
        return Err(InvalidQuery::FieldDoesNotExist { full_path: full_path.to_string() });
    }
    Ok((field, field_entry, path))
}

} // verus!
