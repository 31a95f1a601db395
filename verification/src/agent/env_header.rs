//! Header of a serialized environment: the file version and the numbers of
//! nodes and triples, together with any fields this version does not know.

use vstd::prelude::*;

use crate::env::environment::{lemma_all_triples_len, Environment};
use crate::primitive::Symbol;
use crate::sexp::Sexp;
use crate::text::str_eq;

verus! {

broadcast use vstd::string::group_string_axioms;

/// Version of the file format that headers are written in.
pub open spec fn current_version() -> Seq<char> {
    "0.0.3"@
}

#[derive(Debug)]
pub struct EnvHeader {
    file_version: String,
    node_count: usize,
    triple_count: usize,
    unrecognized: Vec<(Symbol, Sexp)>,
}

/// A field of a header, as named by its key.
#[derive(Debug, PartialEq, Eq)]
pub enum HeaderField {
    Version,
    NodeCount,
    TripleCount,
    Unrecognized(String),
}

/// Why a header could not be read.
#[derive(Clone, Copy, Debug, PartialEq, Eq)]
pub enum HeaderError {
    /// A field occurs twice; holds the field's key.
    DuplicateField(&'static str),
    /// A field is missing; holds the field's key.
    MissingField(&'static str),
    /// A sequence of fields ended after the given number of elements.
    InvalidLength(usize),
}

/// The key of each known field.
pub open spec fn field_key(f: HeaderField) -> Seq<char> {
    match f {
        HeaderField::Version => "version"@,
        HeaderField::NodeCount => "node-count"@,
        HeaderField::TripleCount => "triple-count"@,
        HeaderField::Unrecognized(k) => k@,
    }
}

/// The keys of the known fields are distinct.
pub proof fn lemma_field_keys_distinct()
    ensures
        "version"@ != "node-count"@,
        "version"@ != "triple-count"@,
        "node-count"@ != "triple-count"@,
{
    reveal_strlit("version");
    reveal_strlit("node-count");
    reveal_strlit("triple-count");
    assert("version"@.len() != "node-count"@.len());
    assert("version"@.len() != "triple-count"@.len());
    assert("node-count"@.len() != "triple-count"@.len());
}

/// The field that a key names.
pub fn field_from_key(key: &str) -> (res: HeaderField)
    ensures
        key@ == "version"@ ==> res == HeaderField::Version,
        key@ == "node-count"@ ==> res == HeaderField::NodeCount,
        key@ == "triple-count"@ ==> res == HeaderField::TripleCount,
        key@ != "version"@ && key@ != "node-count"@ && key@ != "triple-count"@ ==> (
        res matches HeaderField::Unrecognized(k) && k@ == key@),
        field_key(res) == key@,
{
    proof {
        lemma_field_keys_distinct();
    }
    if str_eq(key, "version") {
        HeaderField::Version
    } else if str_eq(key, "node-count") {
        HeaderField::NodeCount
    } else if str_eq(key, "triple-count") {
        HeaderField::TripleCount
    } else {
        HeaderField::Unrecognized(key.to_owned())
    }
}

impl EnvHeader {
    pub closed spec fn spec_version(&self) -> Seq<char> {
        self.file_version@
    }

    pub closed spec fn spec_node_count(&self) -> usize {
        self.node_count
    }

    pub closed spec fn spec_triple_count(&self) -> usize {
        self.triple_count
    }

    /// The fields of the header that have no meaning here, in order.
    pub closed spec fn spec_unrecognized(&self) -> Seq<(Seq<char>, Sexp)> {
        self.unrecognized@.map_values(|p: (Symbol, Sexp)| (p.0@, p.1))
    }

    /// The header of an environment as it stands.
    pub fn from_env<E: Environment>(env: &E) -> (res: Self)
        requires
            env.wf(),
        ensures
            res.spec_version() == current_version(),
            res.spec_node_count() == env.model().nodes.len(),
            res.spec_triple_count() == env.model().triples.len(),
            res.spec_unrecognized() == Seq::<(Seq<char>, Sexp)>::empty(),
    {
        let node_count = env.all_nodes().len();
        let triples = env.match_all();
        proof {
            env.lemma_wf_bounds();
            lemma_all_triples_len(env.model());
        }
        let triple_count = triples.len();
        let res = Self {
            file_version: "0.0.3".to_owned(),
            node_count,
            triple_count,
            unrecognized: Vec::new(),
        };
        assert(res.spec_unrecognized() =~= Seq::<(Seq<char>, Sexp)>::empty());
        res
    }

    /// A header with the given fields.
    pub fn new(
        file_version: String,
        node_count: usize,
        triple_count: usize,
        unrecognized: Vec<(Symbol, Sexp)>,
    ) -> (res: Self)
        ensures
            res.spec_version() == file_version@,
            res.spec_node_count() == node_count,
            res.spec_triple_count() == triple_count,
            res.spec_unrecognized() == unrecognized@.map_values(|p: (Symbol, Sexp)| (p.0@, p.1)),
    {
        Self { file_version, node_count, triple_count, unrecognized }
    }

    pub fn file_version(&self) -> (res: &String)
        ensures
            res@ == self.spec_version(),
    {
        &self.file_version
    }

    pub fn node_count(&self) -> (res: usize)
        ensures
            res == self.spec_node_count(),
    {
        self.node_count
    }

    pub fn triple_count(&self) -> (res: usize)
        ensures
            res == self.spec_triple_count(),
    {
        self.triple_count
    }

    /// The fields of the header that have no meaning here, in order.
    pub fn unrecognized(&self) -> (res: &Vec<(Symbol, Sexp)>)
        ensures
            res@.map_values(|p: (Symbol, Sexp)| (p.0@, p.1)) == self.spec_unrecognized(),
    {
        &self.unrecognized
    }

    /// The header whose fields are given in order (version, node count,
    /// triple count). A missing version is reported as a length of 0, and a
    /// missing count, the node count or the triple count alike, as a length
    /// of 1.
    pub fn from_elements(
        version: Option<String>,
        node_count: Option<usize>,
        triple_count: Option<usize>,
    ) -> (res: Result<Self, HeaderError>)
        ensures
            version is None ==> res == Err::<Self, HeaderError>(HeaderError::InvalidLength(0)),
            version is Some && node_count is None ==> res == Err::<Self, HeaderError>(
                HeaderError::InvalidLength(1),
            ),
            version is Some && node_count is Some && triple_count is None ==> res == Err::<
                Self,
                HeaderError,
            >(HeaderError::InvalidLength(1)),
            version matches Some(v) ==> (node_count matches Some(n) ==> (triple_count matches Some(
                t,
            ) ==> (res matches Ok(h) && h.spec_version() == v@ && h.spec_node_count() == n
                && h.spec_triple_count() == t && h.spec_unrecognized().len() == 0))),
    {
        let version = match version {
            Some(v) => v,
            None => return Err(HeaderError::InvalidLength(0)),
        };
        let node_count = match node_count {
            Some(n) => n,
            None => return Err(HeaderError::InvalidLength(1)),
        };
        let triple_count = match triple_count {
            Some(t) => t,
            None => return Err(HeaderError::InvalidLength(1)),
        };
        Ok(Self::new(version, node_count, triple_count, Vec::new()))
    }
}

/// The fields of a header read so far, field by field.
pub struct HeaderBuilder {
    pub version: Option<String>,
    pub node_count: Option<usize>,
    pub triple_count: Option<usize>,
    pub unrecognized: Vec<(Symbol, Sexp)>,
}

impl HeaderBuilder {
    pub fn new() -> (res: Self)
        ensures
            res.version is None,
            res.node_count is None,
            res.triple_count is None,
            res.unrecognized@.len() == 0,
    {
        Self { version: None, node_count: None, triple_count: None, unrecognized: Vec::new() }
    }

    /// Whether the value of `field` may be read next: a known field may
    /// occur only once.
    pub fn check_field(&self, field: &HeaderField) -> (res: Result<(), HeaderError>)
        ensures
            *field == HeaderField::Version && self.version is Some ==> res == Err::<(), HeaderError>(
                HeaderError::DuplicateField("version"),
            ),
            *field == HeaderField::NodeCount && self.node_count is Some ==> res == Err::<
                (),
                HeaderError,
            >(HeaderError::DuplicateField("node-count")),
            *field == HeaderField::TripleCount && self.triple_count is Some ==> res == Err::<
                (),
                HeaderError,
            >(HeaderError::DuplicateField("triple-count")),
            !(*field == HeaderField::Version && self.version is Some) && !(*field
                == HeaderField::NodeCount && self.node_count is Some) && !(*field
                == HeaderField::TripleCount && self.triple_count is Some) ==> res is Ok,
    {
        match field {
            HeaderField::Version => if self.version.is_some() {
                return Err(HeaderError::DuplicateField("version"));
            },
            HeaderField::NodeCount => if self.node_count.is_some() {
                return Err(HeaderError::DuplicateField("node-count"));
            },
            HeaderField::TripleCount => if self.triple_count.is_some() {
                return Err(HeaderError::DuplicateField("triple-count"));
            },
            HeaderField::Unrecognized(_) => {},
        }
        Ok(())
    }

    /// Records an unrecognized field; a later value for the same key
    /// replaces an earlier one, which keeps its place.
    pub fn insert_unrecognized(&mut self, key: Symbol, value: Sexp)
        ensures
            final(self).version == old(self).version,
            final(self).node_count == old(self).node_count,
            final(self).triple_count == old(self).triple_count,
            (exists|i: int|
                0 <= i < old(self).unrecognized@.len() && old(self).unrecognized@[i].0@ == key@)
                ==> final(self).unrecognized@.len() == old(self).unrecognized@.len() && forall|
                i: int|
                0 <= i < old(self).unrecognized@.len() ==> (#[trigger] final(self).unrecognized@[i])
                    == (if old(self).unrecognized@[i].0@ == key@ {
                    (old(self).unrecognized@[i].0, value)
                } else {
                    old(self).unrecognized@[i]
                }),
            !(exists|i: int|
                0 <= i < old(self).unrecognized@.len() && old(self).unrecognized@[i].0@ == key@)
                ==> final(self).unrecognized@ == old(self).unrecognized@.push((key, value)),
    {
        let n = self.unrecognized.len();
        let mut i: usize = 0;
        let mut found = false;
        let ghost orig = self.unrecognized@;
        while i < n
            invariant
                n == orig.len(),
                i <= n,
                self.unrecognized@.len() == n,
                self.version == old(self).version,
                self.node_count == old(self).node_count,
                self.triple_count == old(self).triple_count,
                orig == old(self).unrecognized@,
                found == (exists|k: int| 0 <= k < i && orig[k].0@ == key@),
                forall|k: int|
                    0 <= k < n ==> (#[trigger] self.unrecognized@[k]) == (if k < i
                        && orig[k].0@ == key@ {
                        (orig[k].0, value)
                    } else {
                        orig[k]
                    }),
            decreases n - i,
        {
            if str_eq(self.unrecognized[i].0.as_str(), key.as_str()) {
                let name = self.unrecognized[i].0.clone();
                self.unrecognized.set(i, (name, crate::sexp::clone_sexp(&value)));
                found = true;
            }
            i = i + 1;
        }
        if !found {
            self.unrecognized.push((key, value));
        }
    }

    /// The header holding the fields read, or the first known field that is
    /// missing.
    pub fn finish(self) -> (res: Result<EnvHeader, HeaderError>)
        ensures
            self.version is None ==> res == Err::<EnvHeader, HeaderError>(
                HeaderError::MissingField("version"),
            ),
            self.version is Some && self.node_count is None ==> res == Err::<
                EnvHeader,
                HeaderError,
            >(HeaderError::MissingField("node-count")),
            self.version is Some && self.node_count is Some && self.triple_count is None ==> res
                == Err::<EnvHeader, HeaderError>(HeaderError::MissingField("triple-count")),
            self.version matches Some(v) ==> (self.node_count matches Some(n) ==> (
            self.triple_count matches Some(t) ==> (res matches Ok(h) && h.spec_version() == v@
                && h.spec_node_count() == n && h.spec_triple_count() == t
                && h.spec_unrecognized() == self.unrecognized@.map_values(
                |p: (Symbol, Sexp)| (p.0@, p.1),
            )))),
    {
        let version = match self.version {
            Some(v) => v,
            None => return Err(HeaderError::MissingField("version")),
        };
        let node_count = match self.node_count {
            Some(n) => n,
            None => return Err(HeaderError::MissingField("node-count")),
        };
        let triple_count = match self.triple_count {
            Some(t) => t,
            None => return Err(HeaderError::MissingField("triple-count")),
        };
        Ok(EnvHeader::new(version, node_count, triple_count, self.unrecognized))
    }
}

} // verus!
