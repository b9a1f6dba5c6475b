use vstd::prelude::*;

use crate::error::Error;

verus! {

/// The logical type of the values of a column.
#[derive(Clone, Copy, Debug, PartialEq, Eq, Structural)]
pub enum DataType {
    Boolean,
    Int32,
    Int64,
    Utf8,
}

/// A named, typed column description, optionally qualified by the name of
/// the table it comes from.
#[derive(Debug, PartialEq, Eq)]
pub struct Field {
    pub name: String,
    pub qualifier: Option<String>,
    pub data_type: DataType,
    pub nullable: bool,
}

/// The qualified name of a field: `qualifier.name`, or `name` alone.
pub open spec fn qualified_name(f: Field) -> Seq<char> {
    match f.qualifier {
        Some(q) => q@ + seq!['.'] + f.name@,
        None => f.name@,
    }
}

/// Whether field `f` answers to the (optionally qualified) name `q`.`n`.
/// Without a qualifier only the unqualified name is compared.
pub open spec fn name_matches(f: Field, q: Option<Seq<char>>, n: Seq<char>) -> bool {
    &&& f.name@ == n
    &&& match q {
        Some(qs) => f.qualifier is Some && f.qualifier->Some_0@ == qs,
        None => true,
    }
}

/// The position of the one field of `fields` that answers to `q`.`n`: a
/// not-found error where none does, an ambiguity error where several do.
pub open spec fn resolve_name(fields: Seq<Field>, q: Option<Seq<char>>, n: Seq<char>) -> Result<
    usize,
    Error,
> {
    if exists|j: int, k: int|
        0 <= j < k < fields.len() && name_matches(#[trigger] fields[j], q, n) && name_matches(
            #[trigger] fields[k],
            q,
            n,
        ) {
        Err(Error::AmbiguousName)
    } else if exists|j: int| 0 <= j < fields.len() && name_matches(#[trigger] fields[j], q, n) {
        Ok((choose|j: int| 0 <= j < fields.len() && name_matches(#[trigger] fields[j], q, n)) as usize)
    } else {
        Err(Error::NotFound)
    }
}

/// The view of an optional string.
pub open spec fn opt_view(o: Option<String>) -> Option<Seq<char>> {
    match o {
        Some(s) => Some(s@),
        None => None,
    }
}

/// Every ordinal of `indices` designates one of `n` positions.
pub open spec fn indices_in_range(indices: Seq<usize>, n: nat) -> bool {
    forall|k: int| 0 <= k < indices.len() ==> (#[trigger] indices[k]) < n
}

/// The items of `s` at the positions `indices`, in that order; a position
/// that repeats yields its item again.
pub open spec fn project_seq<T>(s: Seq<T>, indices: Seq<usize>) -> Seq<T> {
    Seq::new(indices.len(), |k: int| s[indices[k] as int])
}

/// Projecting a schema by valid ordinals yields as many fields as there are
/// ordinals, field `i` of the result being the field at ordinal `i` of the
/// projection.
pub proof fn lemma_project_fields(fields: Seq<Field>, indices: Seq<usize>)
    requires
        indices_in_range(indices, fields.len()),
    ensures
        project_seq(fields, indices).len() == indices.len(),
        forall|i: int|
            0 <= i < indices.len() ==> #[trigger] project_seq(fields, indices)[i]
                == fields[indices[i] as int],
{
}

impl Field {
    pub fn new(name: String, qualifier: Option<String>, data_type: DataType, nullable: bool) -> (r:
        Field)
        ensures
            r.name == name,
            r.qualifier == qualifier,
            r.data_type == data_type,
            r.nullable == nullable,
    {
        Field { name, qualifier, data_type, nullable }
    }

    /// A copy of this field.
    pub fn copy(&self) -> (r: Field)
        ensures
            r == *self,
    {
        let qualifier = match &self.qualifier {
            Some(q) => Some(q.clone()),
            None => None,
        };
        Field {
            name: self.name.clone(),
            qualifier,
            data_type: self.data_type,
            nullable: self.nullable,
        }
    }
}

impl Clone for Field {
    fn clone(&self) -> (r: Field)
        ensures
            r == *self,
    {
        self.copy()
    }
}

/// An ordered sequence of fields; the position of a field is the position
/// of its column in every batch that conforms to the schema.
#[derive(Debug, PartialEq, Eq)]
pub struct NaiveSchema {
    pub fields: Vec<Field>,
}

impl View for NaiveSchema {
    type V = Seq<Field>;

    open spec fn view(&self) -> Seq<Field> {
        self.fields@
    }
}

impl NaiveSchema {
    pub fn new(fields: Vec<Field>) -> (r: NaiveSchema)
        ensures
            r@ == fields@,
    {
        NaiveSchema { fields }
    }

    pub fn empty() -> (r: NaiveSchema)
        ensures
            r@ == Seq::<Field>::empty(),
    {
        NaiveSchema { fields: Vec::new() }
    }

    pub fn fields(&self) -> (r: &Vec<Field>)
        ensures
            r@ == self@,
    {
        &self.fields
    }

    pub fn len(&self) -> (r: usize)
        ensures
            r == self@.len(),
    {
        self.fields.len()
    }

    /// The field at ordinal `i`.
    pub fn field(&self, i: usize) -> (r: Result<&Field, Error>)
        ensures
            i < self@.len() ==> r == Ok::<&Field, Error>(&self@[i as int]),
            i >= self@.len() ==> r == Err::<&Field, Error>(Error::Index),
    {
        if i < self.fields.len() {
            Ok(&self.fields[i])
        } else {
            Err(Error::Index)
        }
    }

    /// A field-by-field copy of this schema.
    pub fn copy(&self) -> (r: NaiveSchema)
        ensures
            r@ == self@,
    {
        let mut fields: Vec<Field> = Vec::new();
        let mut i: usize = 0;
        while i < self.fields.len()
            invariant
                i <= self@.len(),
                fields@ == self@.subrange(0, i as int),
            decreases self@.len() - i,
        {
            fields.push(self.fields[i].copy());
            i = i + 1;
        }
        assert(fields@ =~= self@);
        NaiveSchema { fields }
    }

    /// The position of the one field that answers to `name`, qualified by
    /// `qualifier` where one is given.
    pub fn index_of_name(&self, qualifier: &Option<String>, name: &String) -> (r: Result<
        usize,
        Error,
    >)
        ensures
            match r {
                Ok(i) => {
                    &&& i < self@.len()
                    &&& name_matches(self@[i as int], opt_view(*qualifier), name@)
                    &&& forall|j: int|
                        0 <= j < self@.len() && j != i ==> !name_matches(
                            #[trigger] self@[j],
                            opt_view(*qualifier),
                            name@,
                        )
                },
                Err(e) => e == Error::NotFound || e == Error::AmbiguousName,
            },
            r == Err::<usize, Error>(Error::NotFound) <==> forall|j: int|
                0 <= j < self@.len() ==> !name_matches(
                    #[trigger] self@[j],
                    opt_view(*qualifier),
                    name@,
                ),
            r == Err::<usize, Error>(Error::AmbiguousName) <==> exists|j: int, k: int|
                0 <= j < k < self@.len() && name_matches(
                    #[trigger] self@[j],
                    opt_view(*qualifier),
                    name@,
                ) && name_matches(#[trigger] self@[k], opt_view(*qualifier), name@),
            r == resolve_name(self@, opt_view(*qualifier), name@),
    {
        let mut found: Option<usize> = None;
        let mut i: usize = 0;
        while i < self.fields.len()
            invariant
                i <= self@.len(),
                match found {
                    Some(f) => {
                        &&& f < i
                        &&& name_matches(self@[f as int], opt_view(*qualifier), name@)
                        &&& forall|j: int|
                            0 <= j < i && j != f ==> !name_matches(
                                #[trigger] self@[j],
                                opt_view(*qualifier),
                                name@,
                            )
                    },
                    None => forall|j: int|
                        0 <= j < i ==> !name_matches(
                            #[trigger] self@[j],
                            opt_view(*qualifier),
                            name@,
                        ),
                },
            decreases self@.len() - i,
        {
            let f = &self.fields[i];
            let mut hit = f.name == *name;
            match qualifier {
                Some(q) => {
                    match &f.qualifier {
                        Some(fq) => {
                            hit = hit && *fq == *q;
                        },
                        None => {
                            hit = false;
                        },
                    }
                },
                None => {},
            }
            assert(hit == name_matches(self@[i as int], opt_view(*qualifier), name@));
            if hit {
                match found {
                    Some(_) => {
                        return Err(Error::AmbiguousName);
                    },
                    None => {
                        found = Some(i);
                    },
                }
            }
            i = i + 1;
        }
        match found {
            Some(f) => {
                proof {
                    let q = opt_view(*qualifier);
                    assert(name_matches(self@[f as int], q, name@));
                    let c = choose|j: int| 0 <= j < self@.len() && name_matches(#[trigger] self@[j], q, name@);
                    assert(c == f);
                    assert(!exists|j: int, k: int|
                        0 <= j < k < self@.len() && name_matches(#[trigger] self@[j], q, name@)
                            && name_matches(#[trigger] self@[k], q, name@));
                }
                Ok(f)
            },
            None => Err(Error::NotFound),
        }
    }

    /// The schema made of the fields at the positions `indices`, in that
    /// order; positions may repeat.
    pub fn project(&self, indices: &Vec<usize>) -> (r: Result<NaiveSchema, Error>)
        ensures
            indices_in_range(indices@, self@.len()) <==> r is Ok,
            r is Err ==> r == Err::<NaiveSchema, Error>(Error::Index),
            r matches Ok(s) ==> s@ == project_seq(self@, indices@),
    {
        let mut fields: Vec<Field> = Vec::new();
        let mut k: usize = 0;
        while k < indices.len()
            invariant
                k <= indices@.len(),
                indices_in_range(indices@.subrange(0, k as int), self@.len()),
                fields@ == project_seq(self@, indices@.subrange(0, k as int)),
            decreases indices@.len() - k,
        {
            let i = indices[k];
            if i >= self.fields.len() {
                assert(!indices_in_range(indices@, self@.len()));
                return Err(Error::Index);
            }
            fields.push(self.fields[i].copy());
            proof {
                assert(indices@.subrange(0, k + 1) =~= indices@.subrange(0, k as int).push(i));
                assert(fields@ =~= project_seq(self@, indices@.subrange(0, k + 1)));
            }
            k = k + 1;
            assert(indices_in_range(indices@.subrange(0, k as int), self@.len()));
        }
        assert(indices@.subrange(0, k as int) =~= indices@);
        Ok(NaiveSchema { fields })
    }
}

} // verus!
