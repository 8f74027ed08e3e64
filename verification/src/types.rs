use vstd::prelude::*;

verus! {

// ---------------------------------------------------------------------------
// The well-known ids every dictionary is born with: the primitive
// scalars, and the wire-type descriptor that bootstraps type
// definitions.
// ---------------------------------------------------------------------------
pub const BOOL_ID: i64 = 1;

pub const INT_ID: i64 = 2;

pub const UINT_ID: i64 = 3;

pub const FLOAT_ID: i64 = 4;

pub const BYTES_ID: i64 = 5;

pub const STRING_ID: i64 = 6;

pub const COMPLEX_ID: i64 = 7;

pub const INTERFACE_ID: i64 = 8;

pub const WIRE_TYPE_ID: i64 = 16;

/// True of the ids the dictionary is seeded with.
pub open spec fn is_builtin_id(id: i64) -> bool {
    ||| id == BOOL_ID
    ||| id == INT_ID
    ||| id == UINT_ID
    ||| id == FLOAT_ID
    ||| id == BYTES_ID
    ||| id == STRING_ID
    ||| id == COMPLEX_ID
    ||| id == INTERFACE_ID
    ||| id == WIRE_TYPE_ID
}

/// The name and id every wire type carries.
#[derive(Debug, PartialEq, Eq)]
pub struct CommonType {
    pub name: Vec<u8>,
    pub id: i64,
}

/// One struct field: its name and the id of its type.
#[derive(Debug, PartialEq, Eq)]
pub struct FieldType {
    pub name: Vec<u8>,
    pub id: i64,
}

/// A resolved type descriptor, the value side of the dictionary.
#[derive(Debug, PartialEq, Eq)]
pub enum WireType {
    /// A predefined scalar, or the descriptor type itself.
    Builtin(CommonType),
    /// A fixed-length sequence of one element type.
    Array { common: CommonType, elem: i64, len: i64 },
    /// A variable-length sequence of one element type.
    Slice { common: CommonType, elem: i64 },
    /// A key-to-value mapping.
    Mapping { common: CommonType, key: i64, elem: i64 },
    /// An ordered list of named fields.
    Struct { common: CommonType, fields: Vec<FieldType> },
}

impl WireType {
    pub open spec fn common_spec(self) -> CommonType {
        match self {
            WireType::Builtin(c) => c,
            WireType::Array { common, .. } => common,
            WireType::Slice { common, .. } => common,
            WireType::Mapping { common, .. } => common,
            WireType::Struct { common, .. } => common,
        }
    }

    /// The id this descriptor is (or will be) filed under.
    pub open spec fn id(self) -> i64 {
        self.common_spec().id
    }

    pub fn common(&self) -> (r: &CommonType)
        ensures
            *r == self.common_spec(),
    {
        match self {
            WireType::Builtin(c) => c,
            WireType::Array { common, .. } => common,
            WireType::Slice { common, .. } => common,
            WireType::Mapping { common, .. } => common,
            WireType::Struct { common, .. } => common,
        }
    }
}

/// The first entry of `s` filed under `id`, if any.
pub open spec fn first_with_id(s: Seq<WireType>, id: i64) -> Option<WireType>
    decreases s.len(),
{
    if s.len() == 0 {
        None
    } else if s[0].id() == id {
        Some(s[0])
    } else {
        first_with_id(s.drop_first(), id)
    }
}

/// Appending never disturbs an id already filed; a fresh id becomes
/// visible exactly when the new entry carries it.
pub proof fn lemma_first_with_id_push(s: Seq<WireType>, w: WireType, id: i64)
    ensures
        first_with_id(s.push(w), id) == (match first_with_id(s, id) {
            Some(t) => Some(t),
            None => {
                if w.id() == id {
                    Some(w)
                } else {
                    None
                }
            },
        }),
    decreases s.len(),
{
    if s.len() == 0 {
        assert(s.push(w).drop_first() =~= Seq::<WireType>::empty().push(w).drop_first());
        assert(s.push(w).drop_first().len() == 0);
    } else {
        assert(s.push(w).drop_first() =~= s.drop_first().push(w));
        lemma_first_with_id_push(s.drop_first(), w, id);
    }
}

/// The per-stream type dictionary: positive type ids resolved to their
/// descriptors, seeded with the built-in entries, growing only as
/// type-definition sections arrive, never shrinking or rewriting.
pub struct Types {
    pub entries: Vec<WireType>,
}

impl Types {
    /// What `id` resolves to.
    pub open spec fn lookup_spec(self, id: i64) -> Option<WireType> {
        first_with_id(self.entries@, id)
    }

    /// What the entries become when `w` is filed: unchanged when its
    /// id is already live, extended at the tail otherwise.
    pub open spec fn insert_entries(self, w: WireType) -> Seq<WireType> {
        if self.lookup_spec(w.id()) is Some {
            self.entries@
        } else {
            self.entries@.push(w)
        }
    }

    /// A dictionary holding exactly the built-in entries.
    pub fn new() -> (r: Types)
        ensures
            forall|id: i64|
                is_builtin_id(id) ==> ((#[trigger] r.lookup_spec(id)) matches Some(w) && w
                    is Builtin && w.id() == id),
            forall|id: i64| !is_builtin_id(id) ==> (#[trigger] r.lookup_spec(id)) is None,
    {
        let mut t = Types { entries: Vec::new() };
        t.insert(builtin_entry("bool", BOOL_ID));
        t.insert(builtin_entry("int", INT_ID));
        t.insert(builtin_entry("uint", UINT_ID));
        t.insert(builtin_entry("float", FLOAT_ID));
        t.insert(builtin_entry("bytes", BYTES_ID));
        t.insert(builtin_entry("string", STRING_ID));
        t.insert(builtin_entry("complex", COMPLEX_ID));
        t.insert(builtin_entry("interface", INTERFACE_ID));
        t.insert(builtin_entry("wireType", WIRE_TYPE_ID));
        t
    }

    /// Resolve `id`. Borrowers see exactly what `lookup_spec` says.
    pub fn lookup(&self, id: i64) -> (r: Option<&WireType>)
        ensures
            match r {
                Some(w) => self.lookup_spec(id) == Some(*w),
                None => self.lookup_spec(id) is None,
            },
    {
        let n = self.entries.len();
        proof {
            assert(self.entries@.subrange(0, n as int) =~= self.entries@);
        }
        let mut i: usize = 0;
        while i < n
            invariant
                i <= n == self.entries@.len(),
                first_with_id(self.entries@, id) == first_with_id(
                    self.entries@.subrange(i as int, n as int),
                    id,
                ),
            decreases n - i,
        {
            proof {
                assert(self.entries@.subrange(i as int, n as int)[0] == self.entries@[i as int]);
                assert(self.entries@.subrange(i as int, n as int).drop_first()
                    =~= self.entries@.subrange(i + 1 as int, n as int));
            }
            if self.entries[i].common().id == id {
                return Some(&self.entries[i]);
            }
            i = i + 1;
        }
        proof {
            assert(self.entries@.subrange(n as int, n as int).len() == 0);
        }
        None
    }

    /// File `w` under its own id. An id already live is left exactly
    /// as it was: the dictionary never replaces and never removes.
    pub fn insert(&mut self, w: WireType)
        ensures
            final(self).entries@ == old(self).insert_entries(w),
            forall|id: i64|
                old(self).lookup_spec(id) is Some ==> #[trigger] final(self).lookup_spec(id) == old(
                    self,
                ).lookup_spec(id),
            final(self).lookup_spec(w.id()) is Some,
            old(self).lookup_spec(w.id()) is None ==> final(self).lookup_spec(w.id()) == Some(w),
            forall|id: i64|
                id != w.id() ==> #[trigger] final(self).lookup_spec(id) == old(self).lookup_spec(
                    id,
                ),
    {
        let ghost s = self.entries@;
        let id = w.common().id;
        let live = match self.lookup(id) {
            Some(_) => true,
            None => false,
        };
        if !live {
            self.entries.push(w);
            proof {
                assert forall|q: i64| #[trigger]
                    first_with_id(s.push(w), q) == (match first_with_id(s, q) {
                        Some(t) => Some(t),
                        None => {
                            if w.id() == q {
                                Some(w)
                            } else {
                                None
                            }
                        },
                    }) by {
                    lemma_first_with_id_push(s, w, q);
                }
            }
        }
    }
}

/// A seeded entry: one of the well-known scalar or descriptor types.
fn builtin_entry(name: &str, id: i64) -> (r: WireType)
    ensures
        r.id() == id,
        r is Builtin,
{
    WireType::Builtin(CommonType { name: vstd::slice::slice_to_vec(name.as_bytes()), id })
}

/// Once an id resolves, it resolves to the same descriptor after any
/// later insertion: lookups are monotone over the stream's lifetime.
pub proof fn lemma_lookup_monotone(t: Types, w: WireType, id: i64)
    requires
        t.lookup_spec(id) is Some,
    ensures
        first_with_id(t.insert_entries(w), id) == t.lookup_spec(id),
{
    if t.lookup_spec(w.id()) is None {
        lemma_first_with_id_push(t.entries@, w, id);
    }
}

} // verus!
