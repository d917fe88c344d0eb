//! The address set: interface element definitions and their numeric
//! values, and their extraction from the enumerations of a header.

use vstd::prelude::*;
use crate::c_model::{Declaration, Enumerator, InitDeclarator};
use crate::constant::{expression_value, value_from_discriminant, ConstantError};
use crate::naming::{
    control_indicator_name_from_full, decode_type_identifier, element_name, enum_name_to_types,
    kind_rank, AddressKind,
};
use crate::text::{chars_of, is_prefix, slice_chars, starts_with, string_of};

verus! {

/// The model of a definition: its kind, name and data type tag.
pub type DefinitionKey = (AddressKind, Seq<char>, Seq<char>);

/// The model of an address set: its entries in iteration order.
pub type Entries = Seq<(DefinitionKey, u32)>;

/// One interface element: its kind, its bare name and its data type tag.
#[derive(Debug, Clone, PartialEq, Eq, Hash)]
pub struct LocationDefinition {
    pub kind: AddressKind,
    pub name: String,
    pub datatype: String,
}

impl View for LocationDefinition {
    type V = DefinitionKey;

    open spec fn view(&self) -> DefinitionKey {
        (self.kind, self.name@, self.datatype@)
    }
}

impl LocationDefinition {
    /// Whether two definitions agree in all three fields.
    pub fn same_as(&self, other: &LocationDefinition) -> (r: bool)
        ensures
            r == (self@ == other@),
    {
        self.kind == other.kind && self.name == other.name && self.datatype == other.datatype
    }
}

/// The lexicographic order of character sequences.
pub open spec fn seq_lt(a: Seq<char>, b: Seq<char>) -> bool
    decreases a.len(),
{
    if a.len() == 0 {
        b.len() > 0
    } else if b.len() == 0 {
        false
    } else if a[0] != b[0] {
        a[0] < b[0]
    } else {
        seq_lt(a.drop_first(), b.drop_first())
    }
}

/// The order of definitions: by kind, then name, then data type.
pub open spec fn key_lt(a: DefinitionKey, b: DefinitionKey) -> bool {
    kind_rank(a.0) < kind_rank(b.0) || (kind_rank(a.0) == kind_rank(b.0) && (seq_lt(a.1, b.1) || (a.1
        == b.1 && seq_lt(a.2, b.2))))
}

/// The entries are in strictly increasing order of their definitions.
pub open spec fn sorted(s: Entries) -> bool {
    forall|i: int, j: int| 0 <= i < j < s.len() ==> key_lt(#[trigger] s[i].0, #[trigger] s[j].0)
}

proof fn lemma_seq_lt_irreflexive(a: Seq<char>)
    ensures
        !seq_lt(a, a),
    decreases a.len(),
{
    if a.len() > 0 {
        lemma_seq_lt_irreflexive(a.drop_first());
    }
}

proof fn lemma_seq_lt_transitive(a: Seq<char>, b: Seq<char>, c: Seq<char>)
    requires
        seq_lt(a, b),
        seq_lt(b, c),
    ensures
        seq_lt(a, c),
    decreases a.len(),
{
    if a.len() > 0 && b.len() > 0 && c.len() > 0 && a[0] == b[0] && b[0] == c[0] {
        lemma_seq_lt_transitive(a.drop_first(), b.drop_first(), c.drop_first());
    }
}

proof fn lemma_seq_lt_total(a: Seq<char>, b: Seq<char>)
    ensures
        a != b ==> seq_lt(a, b) || seq_lt(b, a),
    decreases a.len(),
{
    if a.len() > 0 && b.len() > 0 && a[0] == b[0] {
        lemma_seq_lt_total(a.drop_first(), b.drop_first());
        if a.drop_first() == b.drop_first() {
            assert(a =~= seq![a[0]] + a.drop_first());
            assert(b =~= seq![b[0]] + b.drop_first());
        }
    } else if a.len() == 0 && b.len() == 0 {
        assert(a =~= b);
    }
}

/// The order of definitions is a strict total order.
pub proof fn lemma_key_order(a: DefinitionKey, b: DefinitionKey, c: DefinitionKey)
    ensures
        !key_lt(a, a),
        key_lt(a, b) && key_lt(b, c) ==> key_lt(a, c),
        a != b ==> key_lt(a, b) || key_lt(b, a),
        key_lt(a, b) ==> !key_lt(b, a),
{
    lemma_seq_lt_irreflexive(a.1);
    lemma_seq_lt_irreflexive(a.2);
    lemma_seq_lt_total(a.1, b.1);
    lemma_seq_lt_total(a.2, b.2);
    if seq_lt(a.1, b.1) && seq_lt(b.1, c.1) {
        lemma_seq_lt_transitive(a.1, b.1, c.1);
    }
    if seq_lt(a.2, b.2) && seq_lt(b.2, c.2) {
        lemma_seq_lt_transitive(a.2, b.2, c.2);
    }
    if seq_lt(a.1, b.1) && seq_lt(b.1, a.1) {
        lemma_seq_lt_transitive(a.1, b.1, a.1);
    }
    if seq_lt(a.2, b.2) && seq_lt(b.2, a.2) {
        lemma_seq_lt_transitive(a.2, b.2, a.2);
    }
    if a != b && kind_rank(a.0) == kind_rank(b.0) && a.1 == b.1 && a.2 == b.2 {
        assert(a.0 == b.0);
    }
}

proof fn lemma_sorted_unique(s: Entries)
    requires
        sorted(s),
    ensures
        keys_unique(s),
{
    assert forall|i: int, j: int| 0 <= i < s.len() && 0 <= j < s.len() && i != j implies s[i].0 != s[j].0 by {
        lemma_key_order(s[i].0, s[j].0, s[i].0);
        if i < j {
            assert(key_lt(s[i].0, s[j].0));
        } else {
            assert(key_lt(s[j].0, s[i].0));
        }
    }
}

/// `p` lies after the definitions smaller than `k` and before the larger.
pub open spec fn is_insert_position(s: Entries, k: DefinitionKey, p: int) -> bool {
    0 <= p <= s.len() && (forall|i: int| 0 <= i < p ==> key_lt(#[trigger] s[i].0, k)) && (forall|i: int|
        p <= i < s.len() ==> key_lt(k, #[trigger] s[i].0))
}

/// Where a new definition goes: after the smaller ones, before the larger.
pub open spec fn insert_position(s: Entries, k: DefinitionKey) -> int {
    choose|p: int| is_insert_position(s, k, p)
}

/// No two entries share a definition.
pub open spec fn keys_unique(s: Entries) -> bool {
    forall|i: int, j: int| 0 <= i < s.len() && 0 <= j < s.len() && i != j ==> s[i].0 != s[j].0
}

pub open spec fn has_key(s: Entries, k: DefinitionKey) -> bool {
    exists|i: int| 0 <= i < s.len() && s[i].0 == k
}

/// The value stored for a definition.
pub open spec fn lookup(s: Entries, k: DefinitionKey) -> Option<u32> {
    if has_key(s, k) {
        Some(s[choose|i: int| 0 <= i < s.len() && s[i].0 == k].1)
    } else {
        None
    }
}

/// Stores a value for a definition: an existing entry takes the new value,
/// a new definition goes to its place in the order.
pub open spec fn insert_entry(s: Entries, k: DefinitionKey, v: u32) -> Entries {
    if has_key(s, k) {
        s.update(choose|i: int| 0 <= i < s.len() && s[i].0 == k, (k, v))
    } else {
        s.insert(insert_position(s, k), (k, v))
    }
}

/// An ordered mapping from definitions to values, kept sorted by kind,
/// name and data type, so that iteration does not depend on the order of
/// insertion.
#[derive(Debug, Clone)]
pub struct AddressSet {
    entries: Vec<(LocationDefinition, u32)>,
}

impl View for AddressSet {
    type V = Entries;

    closed spec fn view(&self) -> Entries {
        self.entries@.map_values(|e: (LocationDefinition, u32)| (e.0@, e.1))
    }
}

impl AddressSet {
    /// The entries are sorted by definition, so no two share one.
    pub open spec fn wf(&self) -> bool {
        sorted(self@)
    }

    /// An empty set.
    pub fn new() -> (r: Self)
        ensures
            r.wf(),
            r@ == Seq::<(DefinitionKey, u32)>::empty(),
    {
        let r = AddressSet { entries: Vec::new() };
        assert(r@ =~= Seq::<(DefinitionKey, u32)>::empty());
        r
    }

    /// The number of definitions.
    pub fn len(&self) -> (r: usize)
        ensures
            r == self@.len(),
    {
        self.entries.len()
    }

    pub fn is_empty(&self) -> (r: bool)
        ensures
            r == (self@.len() == 0),
    {
        self.entries.len() == 0
    }

    /// The entries in iteration order.
    pub fn entries(&self) -> (r: &[(LocationDefinition, u32)])
        ensures
            r@.len() == self@.len(),
            forall|i: int| 0 <= i < r@.len() ==> (#[trigger] r@[i].0@, r@[i].1) == self@[i],
    {
        self.entries.as_slice()
    }

    fn position(&self, def: &LocationDefinition) -> (r: Option<usize>)
        requires
            self.wf(),
        ensures
            match r {
                Some(i) => i < self@.len() && self@[i as int].0 == def@,
                None => !has_key(self@, def@),
            },
    {
        let mut i: usize = 0;
        while i < self.entries.len()
            invariant
                i <= self@.len(),
                self@.len() == self.entries@.len(),
                forall|j: int| 0 <= j < i ==> self@[j].0 != def@,
            decreases self.entries@.len() - i,
        {
            if self.entries[i].0.same_as(def) {
                return Some(i);
            }
            i = i + 1;
        }
        None
    }

    /// The value stored for a definition.
    pub fn get(&self, def: &LocationDefinition) -> (r: Option<u32>)
        requires
            self.wf(),
        ensures
            r == lookup(self@, def@),
    {
        match self.position(def) {
            Some(i) => {
                proof {
                    lemma_sorted_unique(self@);
                }
                assert(has_key(self@, def@));
                let ghost c = choose|j: int| 0 <= j < self@.len() && self@[j].0 == def@;
                assert(c == i);
                Some(self.entries[i].1)
            },
            None => None,
        }
    }

    /// Stores a value for a definition, replacing the value of an equal
    /// definition and keeping the entries sorted.
    pub fn insert(&mut self, def: LocationDefinition, value: u32)
        requires
            old(self).wf(),
        ensures
            final(self).wf(),
            final(self)@ == insert_entry(old(self)@, def@, value),
    {
        let ghost k = def@;
        let ghost s = self@;
        let mut i: usize = 0;
        while i < self.entries.len() && compare_definitions(&self.entries[i].0, &def) < 0
            invariant
                forall|j: int| 0 <= j < s.len() ==> #[trigger] s[j].0 == self.entries@[j].0@,
                s == self@,
                sorted(s),
                k == def@,
                i <= s.len(),
                s.len() == self.entries@.len(),
                forall|j: int| 0 <= j < i ==> key_lt(#[trigger] s[j].0, k),
            decreases s.len() - i,
        {
            i = i + 1;
        }
        if i < self.entries.len() && compare_definitions(&self.entries[i].0, &def) == 0 {
            proof {
                lemma_sorted_unique(s);
                assert(s[i as int].0 == self.entries@[i as int].0@);
                assert(s[i as int].0 == k);
                assert(has_key(s, k));
                let c = choose|j: int| 0 <= j < s.len() && s[j].0 == k;
                assert(c == i);
            }
            self.entries.set(i, (def, value));
            assert(self@ =~= insert_entry(s, k, value));
            assert forall|a: int, b: int| 0 <= a < b < self@.len() implies key_lt(#[trigger] self@[a].0, #[trigger] self@[b].0) by {
                assert(key_lt(s[a].0, s[b].0));
            }
        } else {
            proof {
                if i < s.len() {
                    lemma_key_order(k, s[i as int].0, k);
                    assert(key_lt(k, s[i as int].0));
                }
                assert forall|j: int| i <= j < s.len() implies key_lt(k, #[trigger] s[j].0) by {
                    if j > i {
                        lemma_key_order(k, s[i as int].0, s[j].0);
                    }
                }
                assert forall|j: int| 0 <= j < s.len() implies #[trigger] s[j].0 != k by {
                    lemma_key_order(s[j].0, k, s[j].0);
                }
                assert(!has_key(s, k));
                assert(is_insert_position(s, k, i as int));
                let p = insert_position(s, k);
                assert(is_insert_position(s, k, p));
                if p < i {
                    lemma_key_order(s[p].0, k, s[p].0);
                    assert(key_lt(s[p].0, k));
                }
                if p > i {
                    lemma_key_order(s[i as int].0, k, s[i as int].0);
                    assert(key_lt(s[i as int].0, k));
                }
                assert(p == i);
                s.insert_ensures(i as int, (k, value));
            }
            let ghost before = self.entries@;
            self.entries.insert(i, (def, value));
            proof {
                before.insert_ensures(i as int, (def, value));
                assert(self@.len() == s.len() + 1);
                assert forall|x: int| 0 <= x < self@.len() implies #[trigger] self@[x] == s.insert(i as int, (k, value))[x] by {
                    if x < i {
                    } else if x == i {
                    } else {
                        assert(self.entries@[x] == before[x - 1]);
                    }
                }
                assert(self@ =~= s.insert(i as int, (k, value)));
                let t = self@;
                assert forall|a: int, b: int| 0 <= a < b < t.len() implies key_lt(#[trigger] t[a].0, #[trigger] t[b].0) by {
                    if b < i {
                        assert(t[a] == s[a] && t[b] == s[b]);
                    } else if b == i {
                        assert(t[a] == s[a]);
                    } else if a < i {
                        assert(t[a] == s[a] && t[b] == s[b - 1]);
                        lemma_key_order(s[a].0, k, s[b - 1].0);
                    } else if a == i {
                        assert(t[b] == s[b - 1]);
                    } else {
                        assert(t[a] == s[a - 1] && t[b] == s[b - 1]);
                    }
                }
            }
        }
    }
}

fn compare_chars(a: &[char], b: &[char]) -> (r: i8)
    ensures
        r < 0 <==> seq_lt(a@, b@),
        r == 0 <==> a@ == b@,
        r > 0 <==> seq_lt(b@, a@),
{
    let mut i: usize = 0;
    assert(a@.skip(0) =~= a@);
    assert(b@.skip(0) =~= b@);
    while i < a.len() && i < b.len() && a[i] == b[i]
        invariant
            i <= a@.len(),
            i <= b@.len(),
            forall|j: int| 0 <= j < i ==> a@[j] == b@[j],
            seq_lt(a@, b@) == seq_lt(a@.skip(i as int), b@.skip(i as int)),
            seq_lt(b@, a@) == seq_lt(b@.skip(i as int), a@.skip(i as int)),
        decreases a@.len() - i,
    {
        proof {
            assert(a@.skip(i as int).drop_first() =~= a@.skip(i + 1));
            assert(b@.skip(i as int).drop_first() =~= b@.skip(i + 1));
        }
        i = i + 1;
    }
    proof {
        lemma_seq_lt_irreflexive(a@);
        lemma_seq_lt_total(a@, b@);
        if i < a@.len() && i < b@.len() {
            assert(a@.skip(i as int)[0] == a@[i as int]);
            assert(b@.skip(i as int)[0] == b@[i as int]);
            assert(a@ != b@);
        } else if i == a@.len() && i == b@.len() {
            assert(a@ =~= b@);
        } else {
            assert(a@ != b@);
        }
    }
    if i == a.len() && i == b.len() {
        0
    } else if i == a.len() {
        -1
    } else if i == b.len() {
        1
    } else if a[i] < b[i] {
        -1
    } else {
        1
    }
}

/// Compares two definitions by kind, name and data type.
pub fn compare_definitions(a: &LocationDefinition, b: &LocationDefinition) -> (r: i8)
    ensures
        r < 0 <==> key_lt(a@, b@),
        r == 0 <==> a@ == b@,
        r > 0 <==> key_lt(b@, a@),
{
    proof {
        lemma_key_order(a@, b@, a@);
    }
    let ra = a.kind.rank();
    let rb = b.kind.rank();
    if ra < rb {
        return -1;
    }
    if ra > rb {
        return 1;
    }
    assert(a.kind == b.kind);
    let an = chars_of(a.name.as_str());
    let bn = chars_of(b.name.as_str());
    let c = compare_chars(an.as_slice(), bn.as_slice());
    if c != 0 {
        return c;
    }
    let ad = chars_of(a.datatype.as_str());
    let bd = chars_of(b.datatype.as_str());
    compare_chars(ad.as_slice(), bd.as_slice())
}

/// Another name for the address visitor, for callers that speak of
/// register definitions.
pub type RegisterDefinitionsVisitor = AddressDefinitionsVisitor;

/// The identifier of the first declarator that has one.
pub open spec fn first_identifier(ds: Seq<InitDeclarator>) -> Option<Seq<char>>
    decreases ds.len(),
{
    if ds.len() == 0 {
        None
    } else {
        match ds[0].identifier {
            Some(name) => Some(name@),
            None => first_identifier(ds.drop_first()),
        }
    }
}

/// Inserts the enumerators of one enumeration, in order.
pub open spec fn insert_enumerators(
    kind: AddressKind,
    ty: Seq<char>,
    es: Seq<Enumerator>,
    s: Entries,
) -> Result<Entries, ConstantError>
    decreases es.len(),
{
    if es.len() == 0 {
        Ok(s)
    } else {
        let value = match es[0].expression {
            Some(e) => expression_value(e),
            None => Err(ConstantError::Missing),
        };
        match value {
            Err(e) => Err(e),
            Ok(v) => insert_enumerators(
                kind,
                ty,
                es.drop_first(),
                insert_entry(s, (kind, element_name(es[0].identifier@), ty), v),
            ),
        }
    }
}

/// Processes one enumeration named `enum_name`: ignored unless the name
/// carries the file-level prefix and the rest decodes into a kind.
pub open spec fn process_enum(
    prefix: Seq<char>,
    enum_name: Seq<char>,
    es: Seq<Enumerator>,
    s: Entries,
) -> Result<Entries, ConstantError> {
    if !is_prefix(prefix, enum_name) {
        Ok(s)
    } else {
        match decode_type_identifier(enum_name.subrange(prefix.len() as int, enum_name.len() as int)) {
            None => Ok(s),
            Some((kind, ty)) => insert_enumerators(kind, ty, es, s),
        }
    }
}

pub open spec fn process_enums(
    prefix: Seq<char>,
    enum_name: Seq<char>,
    enums: Seq<Vec<Enumerator>>,
    s: Entries,
) -> Result<Entries, ConstantError>
    decreases enums.len(),
{
    if enums.len() == 0 {
        Ok(s)
    } else {
        match process_enum(prefix, enum_name, enums[0]@, s) {
            Err(e) => Err(e),
            Ok(s1) => process_enums(prefix, enum_name, enums.drop_first(), s1),
        }
    }
}

/// Processes one declaration: only a typedef with a name is looked at.
pub open spec fn process_declaration(prefix: Seq<char>, d: Declaration, s: Entries) -> Result<
    Entries,
    ConstantError,
> {
    if d.is_typedef {
        match first_identifier(d.declarators@) {
            None => Ok(s),
            Some(name) => process_enums(prefix, name, d.enums@, s),
        }
    } else {
        Ok(s)
    }
}

/// Processes declarations in order, starting from the entries `s`.
pub open spec fn process_declarations(prefix: Seq<char>, ds: Seq<Declaration>, s: Entries) -> Result<
    Entries,
    ConstantError,
>
    decreases ds.len(),
{
    if ds.len() == 0 {
        Ok(s)
    } else {
        match process_declaration(prefix, ds[0], s) {
            Err(e) => Err(e),
            Ok(s1) => process_declarations(prefix, ds.drop_first(), s1),
        }
    }
}

/// The file-level prefix of an interface: `NiFpga_<name>_`.
pub open spec fn interface_prefix(interface_name: Seq<char>) -> Seq<char> {
    "NiFpga_"@ + interface_name + "_"@
}

/// The address set of an interface's declarations.
pub open spec fn extracted_entries(interface_name: Seq<char>, ds: Seq<Declaration>) -> Result<
    Entries,
    ConstantError,
> {
    process_declarations(interface_prefix(interface_name), ds, Seq::empty())
}

/// Collects the definitions of one interface from the typedef'd
/// enumerations of a header.
pub struct AddressDefinitionsVisitor {
    pub registers: AddressSet,
    pub prefix: Vec<char>,
}

impl AddressDefinitionsVisitor {
    pub open spec fn prefix_spec(&self) -> Seq<char> {
        self.prefix@
    }

    /// A visitor for the interface `interface_name` (for a header named
    /// `NiFpga_Main.h` the name is `Main`).
    pub fn new(interface_name: &str) -> (r: Self)
        ensures
            r.registers.wf(),
            r.registers@ == Seq::<(DefinitionKey, u32)>::empty(),
            r.prefix_spec() == interface_prefix(interface_name@),
    {
        let mut prefix = chars_of("NiFpga_");
        let name = chars_of(interface_name);
        let mut i: usize = 0;
        while i < name.len()
            invariant
                i <= name@.len(),
                name@ == interface_name@,
                prefix@ == "NiFpga_"@ + name@.take(i as int),
            decreases name@.len() - i,
        {
            prefix.push(name[i]);
            proof {
                assert(name@.take(i + 1) =~= name@.take(i as int).push(name@[i as int]));
                assert(("NiFpga_"@ + name@.take(i + 1)) =~= ("NiFpga_"@ + name@.take(i as int)).push(name@[i as int]));
            }
            i = i + 1;
        }
        prefix.push('_');
        proof {
            reveal_strlit("_");
            assert(name@.take(name@.len() as int) =~= name@);
            assert(prefix@ =~= interface_prefix(interface_name@));
        }
        AddressDefinitionsVisitor { registers: AddressSet::new(), prefix }
    }

    fn insert_enumerators(
        &mut self,
        kind: AddressKind,
        ty: &Vec<char>,
        es: &Vec<Enumerator>,
    ) -> (r: Result<(), ConstantError>)
        requires
            old(self).registers.wf(),
        ensures
            final(self).registers.wf(),
            final(self).prefix == old(self).prefix,
            match r {
                Ok(()) => insert_enumerators(kind, ty@, es@, old(self).registers@) == Ok::<Entries, ConstantError>(final(self).registers@),
                Err(e) => insert_enumerators(kind, ty@, es@, old(self).registers@) == Err::<Entries, ConstantError>(e),
            },
    {
        let mut i: usize = 0;
        assert(es@.subrange(0, es@.len() as int) =~= es@);
        while i < es.len()
            invariant
                i <= es@.len(),
                self.registers.wf(),
                self.prefix == old(self).prefix,
                insert_enumerators(kind, ty@, es@, old(self).registers@)
                    == insert_enumerators(kind, ty@, es@.subrange(i as int, es@.len() as int), self.registers@),
            decreases es@.len() - i,
        {
            let en = &es[i];
            proof {
                assert(es@.subrange(i as int, es@.len() as int).drop_first() =~= es@.subrange(i + 1, es@.len() as int));
                assert(es@.subrange(i as int, es@.len() as int)[0] == es@[i as int]);
            }
            let value = match &en.expression {
                Some(e) => value_from_discriminant(e),
                None => Err(ConstantError::Missing),
            };
            match value {
                Err(e) => {
                    return Err(e);
                },
                Ok(v) => {
                    let ident = chars_of(en.identifier.as_str());
                    let name = control_indicator_name_from_full(ident.as_slice());
                    let def = LocationDefinition {
                        kind,
                        name: string_of(name.as_slice()),
                        datatype: string_of(ty.as_slice()),
                    };
                    self.registers.insert(def, v);
                },
            }
            i = i + 1;
        }
        Ok(())
    }

    fn process_enum_type(&mut self, es: &Vec<Enumerator>, enum_name: &str) -> (r: Result<(), ConstantError>)
        requires
            old(self).registers.wf(),
        ensures
            final(self).registers.wf(),
            final(self).prefix == old(self).prefix,
            match r {
                Ok(()) => process_enum(old(self).prefix@, enum_name@, es@, old(self).registers@) == Ok::<Entries, ConstantError>(final(self).registers@),
                Err(e) => process_enum(old(self).prefix@, enum_name@, es@, old(self).registers@) == Err::<Entries, ConstantError>(e),
            },
    {
        let name = chars_of(enum_name);
        if !starts_with(name.as_slice(), self.prefix.as_slice()) {
            return Ok(());
        }
        let short = slice_chars(name.as_slice(), self.prefix.len(), name.len());
        match enum_name_to_types(short.as_slice()) {
            None => Ok(()),
            Some((kind, ty)) => self.insert_enumerators(kind, &ty, es),
        }
    }

    /// Processes one declaration: a typedef'd enumeration whose name
    /// carries the interface prefix adds its enumerators; anything else
    /// is passed over.
    pub fn visit_declaration(&mut self, declaration: &Declaration) -> (r: Result<(), ConstantError>)
        requires
            old(self).registers.wf(),
        ensures
            final(self).registers.wf(),
            final(self).prefix_spec() == old(self).prefix_spec(),
            match r {
                Ok(()) => process_declaration(old(self).prefix_spec(), *declaration, old(self).registers@) == Ok::<Entries, ConstantError>(final(self).registers@),
                Err(e) => process_declaration(old(self).prefix_spec(), *declaration, old(self).registers@) == Err::<Entries, ConstantError>(e),
            },
    {
        if !declaration.is_typedef {
            return Ok(());
        }
        let name = match get_typedef_name(&declaration.declarators) {
            None => {
                return Ok(());
            },
            Some(name) => name,
        };
        let enums = &declaration.enums;
        let mut i: usize = 0;
        assert(enums@.subrange(0, enums@.len() as int) =~= enums@);
        while i < enums.len()
            invariant
                i <= enums@.len(),
                self.registers.wf(),
                self.prefix == old(self).prefix,
                declaration.is_typedef,
                enums@ == declaration.enums@,
                first_identifier(declaration.declarators@) == Some(name@),
                process_enums(self.prefix@, name@, enums@, old(self).registers@)
                    == process_enums(self.prefix@, name@, enums@.subrange(i as int, enums@.len() as int), self.registers@),
            decreases enums@.len() - i,
        {
            proof {
                assert(enums@.subrange(i as int, enums@.len() as int).drop_first() =~= enums@.subrange(i + 1, enums@.len() as int));
                assert(enums@.subrange(i as int, enums@.len() as int)[0] == enums@[i as int]);
            }
            match self.process_enum_type(&enums[i], name.as_str()) {
                Err(e) => {
                    return Err(e);
                },
                Ok(()) => {},
            }
            i = i + 1;
        }
        Ok(())
    }

    /// Processes the declarations of a header in order.
    pub fn visit_declarations(&mut self, declarations: &Vec<Declaration>) -> (r: Result<(), ConstantError>)
        requires
            old(self).registers.wf(),
        ensures
            final(self).registers.wf(),
            final(self).prefix_spec() == old(self).prefix_spec(),
            match r {
                Ok(()) => process_declarations(old(self).prefix_spec(), declarations@, old(self).registers@) == Ok::<Entries, ConstantError>(final(self).registers@),
                Err(e) => process_declarations(old(self).prefix_spec(), declarations@, old(self).registers@) == Err::<Entries, ConstantError>(e),
            },
    {
        let mut i: usize = 0;
        assert(declarations@.subrange(0, declarations@.len() as int) =~= declarations@);
        while i < declarations.len()
            invariant
                i <= declarations@.len(),
                self.registers.wf(),
                self.prefix@ == old(self).prefix@,
                process_declarations(self.prefix@, declarations@, old(self).registers@)
                    == process_declarations(self.prefix@, declarations@.subrange(i as int, declarations@.len() as int), self.registers@),
            decreases declarations@.len() - i,
        {
            proof {
                assert(declarations@.subrange(i as int, declarations@.len() as int).drop_first() =~= declarations@.subrange(i + 1, declarations@.len() as int));
                assert(declarations@.subrange(i as int, declarations@.len() as int)[0] == declarations@[i as int]);
            }
            match self.visit_declaration(&declarations[i]) {
                Err(e) => {
                    return Err(e);
                },
                Ok(()) => {},
            }
            i = i + 1;
        }
        Ok(())
    }
}

/// The identifier of the first declarator that has one.
pub fn get_typedef_name(declarators: &Vec<InitDeclarator>) -> (r: Option<String>)
    ensures
        match r {
            None => first_identifier(declarators@) is None,
            Some(name) => first_identifier(declarators@) == Some(name@),
        },
{
    let mut i: usize = 0;
    assert(declarators@.subrange(0, declarators@.len() as int) =~= declarators@);
    while i < declarators.len()
        invariant
            i <= declarators@.len(),
            first_identifier(declarators@) == first_identifier(declarators@.subrange(i as int, declarators@.len() as int)),
        decreases declarators@.len() - i,
    {
        proof {
            assert(declarators@.subrange(i as int, declarators@.len() as int).drop_first() =~= declarators@.subrange(i + 1, declarators@.len() as int));
            assert(declarators@.subrange(i as int, declarators@.len() as int)[0] == declarators@[i as int]);
        }
        match &declarators[i].identifier {
            Some(name) => {
                return Some(name.clone());
            },
            None => {},
        }
        i = i + 1;
    }
    None
}

/// The address set of the interface `interface_name` in a header's
/// declarations.
pub fn extract_addresses(interface_name: &str, declarations: &Vec<Declaration>) -> (r: Result<
    AddressSet,
    ConstantError,
>)
    ensures
        match r {
            Ok(set) => set.wf() && extracted_entries(interface_name@, declarations@) == Ok::<Entries, ConstantError>(set@),
            Err(e) => extracted_entries(interface_name@, declarations@) == Err::<Entries, ConstantError>(e),
        },
{
    let mut visitor = AddressDefinitionsVisitor::new(interface_name);
    match visitor.visit_declarations(declarations) {
        Ok(()) => Ok(visitor.registers),
        Err(e) => Err(e),
    }
}

} // verus!
