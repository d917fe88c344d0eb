//! Registers of custom types (fixed-point numbers), described by groups of
//! constants named `<Prefix><Class>_<Name>_<Field>` rather than by
//! enumerations.
//!
//! Each constant adds one field to the record of its element name; the
//! records are checked for completeness only when the registers are
//! requested.

use vstd::prelude::*;
use crate::c_model::{Declaration, Expression, Initializer, ListItem};
use crate::constant::{expression_value, value_from_discriminant, ConstantError};
use crate::addresses::first_identifier;
use crate::text::{chars_eq, chars_of, is_prefix, slice_chars, starts_with, string_of};

verus! {

/// Why the custom type registers could not be read.
#[derive(Debug, Clone, PartialEq, Eq)]
pub enum CustomTypeVisitorError {
    /// The named element has type information but no address.
    MissingAddress(String),
    /// The named element has no type information.
    MissingTypeInfo(String),
    /// A constant has no declarator to take an initializer from.
    MissingDeclaratorForInitializer,
    /// A constant has no initializer.
    MissingInitializer,
    /// An item of a type information list is itself a list.
    UnexpectedNestingInFxpItem,
    /// A type information list has fewer than three items.
    InsufficientItemsInFxpInitializer,
    /// Type information is not initialized by a list.
    FxpInitializerNotList,
    /// An address is not initialized by an expression.
    AddressNotExpression,
    /// A value could not be evaluated.
    Constant(ConstantError),
}

/// The model of an error, with element names as character sequences.
pub enum CustomTypeFailure {
    MissingAddress(Seq<char>),
    MissingTypeInfo(Seq<char>),
    MissingDeclaratorForInitializer,
    MissingInitializer,
    UnexpectedNestingInFxpItem,
    InsufficientItemsInFxpInitializer,
    FxpInitializerNotList,
    AddressNotExpression,
    Constant(ConstantError),
}

impl View for CustomTypeVisitorError {
    type V = CustomTypeFailure;

    open spec fn view(&self) -> CustomTypeFailure {
        match self {
            CustomTypeVisitorError::MissingAddress(n) => CustomTypeFailure::MissingAddress(n@),
            CustomTypeVisitorError::MissingTypeInfo(n) => CustomTypeFailure::MissingTypeInfo(n@),
            CustomTypeVisitorError::MissingDeclaratorForInitializer => CustomTypeFailure::MissingDeclaratorForInitializer,
            CustomTypeVisitorError::MissingInitializer => CustomTypeFailure::MissingInitializer,
            CustomTypeVisitorError::UnexpectedNestingInFxpItem => CustomTypeFailure::UnexpectedNestingInFxpItem,
            CustomTypeVisitorError::InsufficientItemsInFxpInitializer => CustomTypeFailure::InsufficientItemsInFxpInitializer,
            CustomTypeVisitorError::FxpInitializerNotList => CustomTypeFailure::FxpInitializerNotList,
            CustomTypeVisitorError::AddressNotExpression => CustomTypeFailure::AddressNotExpression,
            CustomTypeVisitorError::Constant(e) => CustomTypeFailure::Constant(*e),
        }
    }
}

/// The shape of a fixed-point number.
#[derive(Debug, Clone, Copy, PartialEq, Eq, Structural, Hash)]
pub struct FxpTypeInfo {
    pub signed: bool,
    pub word_length: u32,
    pub integer_word_length: u32,
}

/// A fixed-point register: its name, shape and address.
#[derive(Debug, Clone, PartialEq, Eq, Hash)]
pub struct FxpRegister {
    pub name: String,
    pub fxp_type_info: FxpTypeInfo,
    pub address: u32,
}

/// A cluster register: its type, address and packed size in bytes.
#[derive(Debug, Clone, PartialEq, Eq, Hash)]
pub struct ClusterRegister {
    pub cluster_type: String,
    pub address: u32,
    pub packed_size: u32,
}

/// What has been found so far for one element name.
#[derive(Debug, Clone, Copy, PartialEq, Eq, Structural, Default)]
pub struct CustomTypeData {
    pub address: Option<u32>,
    pub fxp_type_info: Option<FxpTypeInfo>,
}

/// The parts of a constant name `<Prefix><Class>_<Name>_<Field>`.
#[derive(Debug, Clone, PartialEq, Eq, Hash)]
pub struct ConstantType {
    pub control_type: String,
    pub control_name: String,
    pub suffix: String,
}

/// The position of the first `c` in `s`, or -1 where there is none.
pub open spec fn first_index_of(s: Seq<char>, c: char) -> int
    decreases s.len(),
{
    if s.len() == 0 {
        -1
    } else if s[0] == c {
        0
    } else {
        let r = first_index_of(s.drop_first(), c);
        if r < 0 {
            -1
        } else {
            r + 1
        }
    }
}

/// `s` split at underscores into exactly three parts, if it has exactly
/// two underscores.
pub open spec fn three_parts(s: Seq<char>) -> Option<(Seq<char>, Seq<char>, Seq<char>)> {
    let i = first_index_of(s, '_');
    if i < 0 {
        None
    } else {
        let rest = s.skip(i + 1);
        let j = first_index_of(rest, '_');
        if j < 0 {
            None
        } else {
            let last = rest.skip(j + 1);
            if first_index_of(last, '_') >= 0 {
                None
            } else {
                Some((s.take(i), rest.take(j), last))
            }
        }
    }
}

/// The parts of a constant name that starts with `prefix`.
pub open spec fn constant_parts(prefix: Seq<char>, name: Seq<char>) -> Option<(Seq<char>, Seq<char>, Seq<char>)> {
    if is_prefix(prefix, name) {
        three_parts(name.skip(prefix.len() as int))
    } else {
        None
    }
}

proof fn lemma_first_index(s: Seq<char>, c: char, k: int)
    requires
        0 <= k <= s.len(),
        forall|i: int| 0 <= i < k ==> s[i] != c,
    ensures
        k < s.len() && s[k] == c ==> first_index_of(s, c) == k,
        k == s.len() ==> first_index_of(s, c) == -1,
    decreases k,
{
    if k > 0 {
        lemma_first_index(s.drop_first(), c, k - 1);
    }
}

proof fn lemma_first_index_bounds(s: Seq<char>, c: char)
    ensures
        -1 <= first_index_of(s, c) < s.len(),
        first_index_of(s, c) >= 0 ==> s[first_index_of(s, c)] == c,
    decreases s.len(),
{
    if s.len() > 0 && s[0] != c {
        lemma_first_index_bounds(s.drop_first(), c);
    }
}

/// The position of the first `c` in `s`.
fn find_char(s: &[char], c: char) -> (r: Option<usize>)
    ensures
        match r {
            Some(i) => first_index_of(s@, c) == i as int,
            None => first_index_of(s@, c) == -1,
        },
{
    let mut i: usize = 0;
    while i < s.len()
        invariant
            i <= s@.len(),
            forall|k: int| 0 <= k < i ==> s@[k] != c,
        decreases s@.len() - i,
    {
        if s[i] == c {
            proof {
                lemma_first_index(s@, c, i as int);
            }
            return Some(i);
        }
        i = i + 1;
    }
    proof {
        lemma_first_index(s@, c, i as int);
    }
    None
}

/// Splits a constant name into its class, element name and field, if it
/// starts with `prefix` and the rest has exactly three parts.
pub fn get_constant_type_from_name(prefix: &str, name: &str) -> (r: Option<ConstantType>)
    ensures
        match constant_parts(prefix@, name@) {
            None => r is None,
            Some((t, n, f)) => r matches Some(ct) && ct.control_type@ == t && ct.control_name@ == n
                && ct.suffix@ == f,
        },
{
    let p = chars_of(prefix);
    let s = chars_of(name);
    if !starts_with(s.as_slice(), p.as_slice()) {
        return None;
    }
    let short = slice_chars(s.as_slice(), p.len(), s.len());
    assert(short@ =~= name@.skip(prefix@.len() as int));
    let i = match find_char(short.as_slice(), '_') {
        None => {
            return None;
        },
        Some(i) => i,
    };
    proof {
        lemma_first_index_bounds(short@, '_');
    }
    let rest = slice_chars(short.as_slice(), i + 1, short.len());
    assert(rest@ =~= short@.skip(i + 1));
    let j = match find_char(rest.as_slice(), '_') {
        None => {
            return None;
        },
        Some(j) => j,
    };
    proof {
        lemma_first_index_bounds(rest@, '_');
    }
    let last = slice_chars(rest.as_slice(), j + 1, rest.len());
    assert(last@ =~= rest@.skip(j + 1));
    match find_char(last.as_slice(), '_') {
        Some(_) => {
            proof {
                lemma_first_index_bounds(last@, '_');
            }
            None
        },
        None => {
            let control_type = slice_chars(short.as_slice(), 0, i);
            let control_name = slice_chars(rest.as_slice(), 0, j);
            assert(control_type@ =~= short@.take(i as int));
            assert(control_name@ =~= rest@.take(j as int));
            Some(
                ConstantType {
                    control_type: string_of(control_type.as_slice()),
                    control_name: string_of(control_name.as_slice()),
                    suffix: string_of(last.as_slice()),
                },
            )
        },
    }
}

/// The initializer of the first declarator of a declaration.
pub open spec fn first_initializer(d: Declaration) -> Result<Initializer, CustomTypeFailure> {
    if d.declarators@.len() == 0 {
        Err(CustomTypeFailure::MissingDeclaratorForInitializer)
    } else {
        match d.declarators@[0].initializer {
            None => Err(CustomTypeFailure::MissingInitializer),
            Some(init) => Ok(init),
        }
    }
}

/// The number a constant is initialized with.
pub open spec fn init_value_number(d: Declaration) -> Result<u32, CustomTypeFailure> {
    match first_initializer(d) {
        Err(e) => Err(e),
        Ok(Initializer::Expression(e)) => match expression_value(e) {
            Err(e) => Err(CustomTypeFailure::Constant(e)),
            Ok(v) => Ok(v),
        },
        Ok(_) => Err(CustomTypeFailure::AddressNotExpression),
    }
}

/// The values of the items of an initializer list, in order; the first
/// failing item decides the error.
pub open spec fn list_values(items: Seq<ListItem>) -> Result<Seq<u32>, CustomTypeFailure>
    decreases items.len(),
{
    if items.len() == 0 {
        Ok(Seq::empty())
    } else {
        match list_values(items.drop_last()) {
            Err(e) => Err(e),
            Ok(vs) => match items.last() {
                ListItem::Nested => Err(CustomTypeFailure::UnexpectedNestingInFxpItem),
                ListItem::Expression(e) => match expression_value(e) {
                    Err(e) => Err(CustomTypeFailure::Constant(e)),
                    Ok(v) => Ok(vs.push(v)),
                },
            },
        }
    }
}

/// The fixed-point shape a constant is initialized with: a list whose
/// first three values are signedness, word length and integer word length.
pub open spec fn init_fixed_type(d: Declaration) -> Result<FxpTypeInfo, CustomTypeFailure> {
    match first_initializer(d) {
        Err(e) => Err(e),
        Ok(Initializer::List(items)) => match list_values(items@) {
            Err(e) => Err(e),
            Ok(vs) => if vs.len() < 3 {
                Err(CustomTypeFailure::InsufficientItemsInFxpInitializer)
            } else {
                Ok(FxpTypeInfo { signed: vs[0] != 0, word_length: vs[1], integer_word_length: vs[2] })
            },
        },
        Ok(_) => Err(CustomTypeFailure::FxpInitializerNotList),
    }
}

fn get_initializer(d: &Declaration) -> (r: Result<&Initializer, CustomTypeVisitorError>)
    ensures
        match first_initializer(*d) {
            Err(e) => r matches Err(x) && x@ == e,
            Ok(init) => r matches Ok(i) && *i == init,
        },
{
    if d.declarators.len() == 0 {
        return Err(CustomTypeVisitorError::MissingDeclaratorForInitializer);
    }
    match &d.declarators[0].initializer {
        None => Err(CustomTypeVisitorError::MissingInitializer),
        Some(init) => Ok(init),
    }
}

/// The number a constant is initialized with.
pub fn read_init_value_number(d: &Declaration) -> (r: Result<u32, CustomTypeVisitorError>)
    ensures
        match init_value_number(*d) {
            Ok(v) => r == Ok::<u32, CustomTypeVisitorError>(v),
            Err(e) => r matches Err(x) && x@ == e,
        },
{
    match get_initializer(d) {
        Err(e) => Err(e),
        Ok(Initializer::Expression(e)) => match value_from_discriminant(e) {
            Err(e) => Err(CustomTypeVisitorError::Constant(e)),
            Ok(v) => Ok(v),
        },
        Ok(_) => Err(CustomTypeVisitorError::AddressNotExpression),
    }
}

/// The fixed-point shape a constant is initialized with.
pub fn read_init_fixed_type(d: &Declaration) -> (r: Result<FxpTypeInfo, CustomTypeVisitorError>)
    ensures
        match init_fixed_type(*d) {
            Ok(t) => r == Ok::<FxpTypeInfo, CustomTypeVisitorError>(t),
            Err(e) => r matches Err(x) && x@ == e,
        },
{
    let items = match get_initializer(d) {
        Err(e) => {
            return Err(e);
        },
        Ok(Initializer::List(items)) => items,
        Ok(_) => {
            return Err(CustomTypeVisitorError::FxpInitializerNotList);
        },
    };
    let mut values: Vec<u32> = Vec::new();
    let mut i: usize = 0;
    while i < items.len()
        invariant
            i <= items@.len(),
            first_initializer(*d) matches Ok(Initializer::List(its)) && its@ == items@,
            list_values(items@.take(i as int)) == Ok::<Seq<u32>, CustomTypeFailure>(values@),
        decreases items@.len() - i,
    {
        proof {
            assert(items@.take(i + 1).drop_last() =~= items@.take(i as int));
            assert(items@.take(i + 1).last() == items@[i as int]);
        }
        match &items[i] {
            ListItem::Nested => {
                proof {
                    lemma_list_values_err(items@, i + 1);
                }
                return Err(CustomTypeVisitorError::UnexpectedNestingInFxpItem);
            },
            ListItem::Expression(e) => match value_from_discriminant(e) {
                Err(e) => {
                    proof {
                        lemma_list_values_err(items@, i + 1);
                    }
                    return Err(CustomTypeVisitorError::Constant(e));
                },
                Ok(v) => {
                    values.push(v);
                },
            },
        }
        i = i + 1;
    }
    assert(items@.take(items@.len() as int) =~= items@);
    if values.len() < 3 {
        return Err(CustomTypeVisitorError::InsufficientItemsInFxpInitializer);
    }
    Ok(FxpTypeInfo { signed: values[0] != 0, word_length: values[1], integer_word_length: values[2] })
}

proof fn lemma_list_values_err(items: Seq<ListItem>, k: int)
    requires
        0 <= k <= items.len(),
        list_values(items.take(k)) is Err,
    ensures
        list_values(items) == list_values(items.take(k)),
    decreases items.len() - k,
{
    if k < items.len() {
        assert(items.take(k + 1).drop_last() =~= items.take(k));
        lemma_list_values_err(items, k + 1);
    } else {
        assert(items.take(k) =~= items);
    }
}

/// The model of the records: element names and what was found for them,
/// in order of first appearance.
pub type Records = Seq<(Seq<char>, CustomTypeData)>;

pub open spec fn record_index(rs: Records, name: Seq<char>) -> int
    decreases rs.len(),
{
    if rs.len() == 0 {
        -1
    } else if rs.last().0 == name {
        rs.len() - 1
    } else {
        record_index(rs.drop_last(), name)
    }
}

proof fn lemma_record_index_bounds(rs: Records, name: Seq<char>)
    ensures
        -1 <= record_index(rs, name) < rs.len(),
    decreases rs.len(),
{
    if rs.len() > 0 && rs.last().0 != name {
        lemma_record_index_bounds(rs.drop_last(), name);
    }
}

/// The records with the record of `name` set to `data` (added at the
/// end where there is none).
pub open spec fn update_record(rs: Records, name: Seq<char>, data: CustomTypeData) -> Records {
    let i = record_index(rs, name);
    if i < 0 {
        rs.push((name, data))
    } else {
        rs.update(i, (name, data))
    }
}

pub open spec fn current_record(rs: Records, name: Seq<char>) -> CustomTypeData {
    let i = record_index(rs, name);
    if i < 0 {
        CustomTypeData { address: None, fxp_type_info: None }
    } else {
        rs[i].1
    }
}

/// The records after visiting one declaration: a `const` declaration
/// named `<prefix><Class>_<Name>_<Field>` sets the address (field
/// `Resource`) or the type information (field `TypeInfo`) of `<Name>`;
/// any other field only creates the record.
pub open spec fn visit_constant(prefix: Seq<char>, d: Declaration, rs: Records) -> Result<Records, CustomTypeFailure> {
    if !d.is_const {
        Ok(rs)
    } else {
        match first_identifier(d.declarators@) {
            None => Ok(rs),
            Some(name) => match constant_parts(prefix, name) {
                None => Ok(rs),
                Some((_, control, field)) => {
                    let data = current_record(rs, control);
                    if field == "Resource"@ {
                        match init_value_number(d) {
                            Err(e) => Err(e),
                            Ok(v) => Ok(update_record(rs, control, CustomTypeData { address: Some(v), ..data })),
                        }
                    } else if field == "TypeInfo"@ {
                        match init_fixed_type(d) {
                            Err(e) => Err(e),
                            Ok(t) => Ok(update_record(rs, control, CustomTypeData { fxp_type_info: Some(t), ..data })),
                        }
                    } else {
                        Ok(update_record(rs, control, data))
                    }
                },
            },
        }
    }
}

/// The fixed-point registers of the records, in order: each record needs
/// both its type information and its address.
pub open spec fn fxp_registers(rs: Records) -> Result<Seq<(Seq<char>, FxpTypeInfo, u32)>, CustomTypeFailure>
    decreases rs.len(),
{
    if rs.len() == 0 {
        Ok(Seq::empty())
    } else {
        match fxp_registers(rs.drop_last()) {
            Err(e) => Err(e),
            Ok(regs) => match (rs.last().1.fxp_type_info, rs.last().1.address) {
                (None, _) => Err(CustomTypeFailure::MissingTypeInfo(rs.last().0)),
                (Some(_), None) => Err(CustomTypeFailure::MissingAddress(rs.last().0)),
                (Some(t), Some(a)) => Ok(regs.push((rs.last().0, t, a))),
            },
        }
    }
}

/// Collects the custom type registers of one interface.
pub struct CustomTypeVisitor {
    pub prefix: Vec<char>,
    pub types: Vec<(String, CustomTypeData)>,
}

impl CustomTypeVisitor {
    pub open spec fn records(&self) -> Records {
        self.types@.map_values(|e: (String, CustomTypeData)| (e.0@, e.1))
    }

    /// A visitor for the interface `interface_name`, with no records.
    pub fn new(interface_name: &str) -> (r: Self)
        ensures
            r.prefix@ == "NiFpga_"@ + interface_name@ + "_"@,
            r.records() == Records::empty(),
    {
        let mut prefix = chars_of("NiFpga_");
        let mut name = chars_of(interface_name);
        prefix.append(&mut name);
        prefix.push('_');
        proof {
            reveal_strlit("_");
        }
        let r = CustomTypeVisitor { prefix, types: Vec::new() };
        assert(r.prefix@ =~= "NiFpga_"@ + interface_name@ + "_"@);
        assert(r.records() =~= Records::empty());
        r
    }

    fn find_record(&self, name: &[char]) -> (r: Option<usize>)
        ensures
            match r {
                Some(i) => record_index(self.records(), name@) == i as int && i < self.types@.len(),
                None => record_index(self.records(), name@) == -1,
            },
    {
        let mut i: usize = self.types.len();
        let ghost rs = self.records();
        assert(rs.subrange(0, i as int) =~= rs);
        while i > 0
            invariant
                i <= rs.len(),
                rs == self.records(),
                rs.len() == self.types@.len(),
                record_index(rs, name@) == record_index(rs.subrange(0, i as int), name@),
            decreases i,
        {
            let key = chars_of(self.types[i - 1].0.as_str());
            proof {
                assert(rs.subrange(0, i as int).drop_last() =~= rs.subrange(0, i - 1));
                assert(rs.subrange(0, i as int).last() == rs[i - 1]);
            }
            if chars_eq(key.as_slice(), name) {
                proof {
                    lemma_record_index_bounds(rs, name@);
                }
                return Some(i - 1);
            }
            i = i - 1;
        }
        None
    }

    fn set_record(&mut self, name: &[char], data: CustomTypeData)
        ensures
            final(self).prefix == old(self).prefix,
            final(self).records() == update_record(old(self).records(), name@, data),
    {
        match self.find_record(name) {
            Some(i) => {
                self.types.set(i, (string_of(name), data));
            },
            None => {
                self.types.push((string_of(name), data));
            },
        }
        assert(self.records() =~= update_record(old(self).records(), name@, data));
    }

    fn record(&self, name: &[char]) -> (r: CustomTypeData)
        ensures
            r == current_record(self.records(), name@),
    {
        match self.find_record(name) {
            Some(i) => self.types[i].1,
            None => CustomTypeData { address: None, fxp_type_info: None },
        }
    }

    /// Visits one declaration, adding what a matching constant holds to
    /// the record of its element.
    pub fn visit_declaration(&mut self, d: &Declaration) -> (r: Result<(), CustomTypeVisitorError>)
        ensures
            final(self).prefix == old(self).prefix,
            match visit_constant(old(self).prefix@, *d, old(self).records()) {
                Ok(rs) => r is Ok && final(self).records() == rs,
                Err(e) => r matches Err(x) && x@ == e && final(self).records() == old(self).records(),
            },
    {
        if !d.is_const {
            return Ok(());
        }
        let name = match crate::addresses::get_typedef_name(&d.declarators) {
            None => {
                return Ok(());
            },
            Some(name) => name,
        };
        let prefix = string_of(self.prefix.as_slice());
        let parts = match get_constant_type_from_name(prefix.as_str(), name.as_str()) {
            None => {
                return Ok(());
            },
            Some(parts) => parts,
        };
        let control = chars_of(parts.control_name.as_str());
        let field = chars_of(parts.suffix.as_str());
        let data = self.record(control.as_slice());
        let resource = chars_of("Resource");
        let type_info = chars_of("TypeInfo");
        if chars_eq(field.as_slice(), resource.as_slice()) {
            match read_init_value_number(d) {
                Err(e) => Err(e),
                Ok(v) => {
                    self.set_record(control.as_slice(), CustomTypeData { address: Some(v), ..data });
                    Ok(())
                },
            }
        } else if chars_eq(field.as_slice(), type_info.as_slice()) {
            match read_init_fixed_type(d) {
                Err(e) => Err(e),
                Ok(t) => {
                    self.set_record(control.as_slice(), CustomTypeData { fxp_type_info: Some(t), ..data });
                    Ok(())
                },
            }
        } else {
            self.set_record(control.as_slice(), data);
            Ok(())
        }
    }

    /// The fixed-point registers found, in order of first appearance, and
    /// the cluster registers (none are read yet). Every record needs its
    /// type information and its address.
    pub fn get_registers(&self) -> (r: Result<(Vec<FxpRegister>, Vec<ClusterRegister>), CustomTypeVisitorError>)
        ensures
            match fxp_registers(self.records()) {
                Err(e) => r matches Err(x) && x@ == e,
                Ok(regs) => r matches Ok((fxp, clusters)) && clusters@.len() == 0 && fxp@.len() == regs.len()
                    && forall|i: int| 0 <= i < regs.len() ==> (#[trigger] fxp@[i]).name@ == regs[i].0
                        && fxp@[i].fxp_type_info == regs[i].1 && fxp@[i].address == regs[i].2,
            },
    {
        let ghost rs = self.records();
        let mut fxp_regs: Vec<FxpRegister> = Vec::new();
        let mut i: usize = 0;
        while i < self.types.len()
            invariant
                rs == self.records(),
                rs.len() == self.types@.len(),
                i <= rs.len(),
                fxp_registers(rs.take(i as int)) matches Ok(regs) && fxp_regs@.len() == regs.len()
                    && forall|k: int| 0 <= k < regs.len() ==> (#[trigger] fxp_regs@[k]).name@ == regs[k].0
                        && fxp_regs@[k].fxp_type_info == regs[k].1 && fxp_regs@[k].address == regs[k].2,
            decreases rs.len() - i,
        {
            proof {
                assert(rs.take(i + 1).drop_last() =~= rs.take(i as int));
                assert(rs.take(i + 1).last() == rs[i as int]);
            }
            let entry = &self.types[i];
            let info = match entry.1.fxp_type_info {
                None => {
                    proof {
                        lemma_fxp_registers_err(rs, i + 1);
                    }
                    return Err(CustomTypeVisitorError::MissingTypeInfo(entry.0.clone()));
                },
                Some(t) => t,
            };
            let address = match entry.1.address {
                None => {
                    proof {
                        lemma_fxp_registers_err(rs, i + 1);
                    }
                    return Err(CustomTypeVisitorError::MissingAddress(entry.0.clone()));
                },
                Some(a) => a,
            };
            fxp_regs.push(FxpRegister { name: entry.0.clone(), fxp_type_info: info, address });
            i = i + 1;
        }
        assert(rs.take(rs.len() as int) =~= rs);
        Ok((fxp_regs, Vec::new()))
    }
}

proof fn lemma_fxp_registers_err(rs: Records, k: int)
    requires
        0 <= k <= rs.len(),
        fxp_registers(rs.take(k)) is Err,
    ensures
        fxp_registers(rs) == fxp_registers(rs.take(k)),
    decreases rs.len() - k,
{
    if k < rs.len() {
        assert(rs.take(k + 1).drop_last() =~= rs.take(k));
        lemma_fxp_registers_err(rs, k + 1);
    } else {
        assert(rs.take(k) =~= rs);
    }
}

} // verus!
