//! Generation of source declarations for the registers and FIFOs of an
//! address set.

use vstd::prelude::*;
use crate::addresses::{lookup, AddressSet, DefinitionKey, Entries, LocationDefinition};
use crate::naming::{kind_is_fifo, kind_with_size, AddressKind};
use crate::text::{chars_eq, chars_of, push_all, push_str};

verus! {

/// The target numeric types that the data type tags map to.
#[derive(Debug, Clone, Copy, PartialEq, Eq, Structural)]
pub enum TargetType {
    U8,
    U16,
    U32,
    U64,
    I8,
    I16,
    I32,
    I64,
    F32,
    F64,
}

/// Why generation failed.
#[derive(Debug, Clone, Copy, PartialEq, Eq, Structural)]
pub enum GenerationError {
    /// A data type tag outside the mapping table.
    UnknownType,
    /// An array element without its size definition.
    ArraySizeNotFound,
}

/// The fixed mapping from data type tags to target types.
pub open spec fn target_type_of(tag: Seq<char>) -> Option<TargetType> {
    if tag == "U8"@ {
        Some(TargetType::U8)
    } else if tag == "U16"@ {
        Some(TargetType::U16)
    } else if tag == "U32"@ {
        Some(TargetType::U32)
    } else if tag == "U64"@ {
        Some(TargetType::U64)
    } else if tag == "I8"@ {
        Some(TargetType::I8)
    } else if tag == "I16"@ {
        Some(TargetType::I16)
    } else if tag == "I32"@ {
        Some(TargetType::I32)
    } else if tag == "I64"@ {
        Some(TargetType::I64)
    } else if tag == "Sgl"@ {
        Some(TargetType::F32)
    } else if tag == "Dbl"@ {
        Some(TargetType::F64)
    } else {
        None
    }
}

/// The name of a target type in generated source.
pub open spec fn type_text(t: TargetType) -> Seq<char> {
    match t {
        TargetType::U8 => "u8"@,
        TargetType::U16 => "u16"@,
        TargetType::U32 => "u32"@,
        TargetType::U64 => "u64"@,
        TargetType::I8 => "i8"@,
        TargetType::I16 => "i16"@,
        TargetType::I32 => "i32"@,
        TargetType::I64 => "i64"@,
        TargetType::F32 => "f32"@,
        TargetType::F64 => "f64"@,
    }
}

impl TargetType {
    /// The name of the type in generated source.
    pub fn rust_name(&self) -> (r: &'static str)
        ensures
            r@ == type_text(*self),
    {
        match self {
            TargetType::U8 => "u8",
            TargetType::U16 => "u16",
            TargetType::U32 => "u32",
            TargetType::U64 => "u64",
            TargetType::I8 => "i8",
            TargetType::I16 => "i16",
            TargetType::I32 => "i32",
            TargetType::I64 => "i64",
            TargetType::F32 => "f32",
            TargetType::F64 => "f64",
        }
    }
}

fn tag_is(tag: &[char], literal: &str) -> (r: bool)
    ensures
        r == (tag@ == literal@),
{
    let lit = chars_of(literal);
    chars_eq(tag, lit.as_slice())
}

/// Maps a data type tag to its target type.
pub fn type_string_to_type(tag: &[char]) -> (r: Option<TargetType>)
    ensures
        r == target_type_of(tag@),
{
    if tag_is(tag, "U8") {
        Some(TargetType::U8)
    } else if tag_is(tag, "U16") {
        Some(TargetType::U16)
    } else if tag_is(tag, "U32") {
        Some(TargetType::U32)
    } else if tag_is(tag, "U64") {
        Some(TargetType::U64)
    } else if tag_is(tag, "I8") {
        Some(TargetType::I8)
    } else if tag_is(tag, "I16") {
        Some(TargetType::I16)
    } else if tag_is(tag, "I32") {
        Some(TargetType::I32)
    } else if tag_is(tag, "I64") {
        Some(TargetType::I64)
    } else if tag_is(tag, "Sgl") {
        Some(TargetType::F32)
    } else if tag_is(tag, "Dbl") {
        Some(TargetType::F64)
    } else {
        None
    }
}

/// The character of a digit below 16, upper case for letters.
pub open spec fn digit_char(d: nat) -> char {
    if d < 10 {
        ('0' as nat + d) as char
    } else {
        ('A' as nat + d - 10) as char
    }
}

/// The digits of `n` in a radix, most significant first, without
/// leading zeros (zero itself is one digit).
pub open spec fn radix_digits(n: nat, radix: nat) -> Seq<char>
    recommends
        2 <= radix <= 16,
    decreases n
    via radix_digits_decreases
{
    if n < radix || radix < 2 {
        seq![digit_char(n % radix)]
    } else {
        radix_digits(n / radix, radix).push(digit_char(n % radix))
    }
}

#[via_fn]
proof fn radix_digits_decreases(n: nat, radix: nat) {
    if !(n < radix || radix < 2) {
        assert(n / radix < n) by (nonlinear_arith)
            requires
                n >= radix,
                radix >= 2,
        ;
    }
}

/// An address as written in generated source: upper-case hexadecimal
/// with a `0x` prefix.
pub open spec fn hex_text(n: u32) -> Seq<char> {
    "0x"@ + radix_digits(n as nat, 16)
}

/// A count as written in generated source: decimal.
pub open spec fn decimal_text(n: u32) -> Seq<char> {
    radix_digits(n as nat, 10)
}

fn push_digits(out: &mut String, n: u32, radix: u32)
    requires
        2 <= radix <= 16,
    ensures
        final(out)@ == old(out)@ + radix_digits(n as nat, radix as nat),
    decreases n,
{
    if n >= radix {
        assert(n / radix < n) by (nonlinear_arith)
            requires
                n >= radix,
                radix >= 2,
        ;
        push_digits(out, n / radix, radix);
    }
    let d = n % radix;
    let c = if d < 10 {
        (('0' as u8) + (d as u8)) as char
    } else {
        (('A' as u8) + (d as u8) - 10) as char
    };
    out.push(c);
    proof {
        assert(c == digit_char((n % radix) as nat));
        if n >= radix {
            assert(n as nat / radix as nat == (n / radix) as nat);
        }
    }
    assert(final(out)@ =~= old(out)@ + radix_digits(n as nat, radix as nat));
}

/// A binding of one interface element: its kind, name, target type,
/// address and, for arrays, element count.
pub type BindingView = (AddressKind, Seq<char>, TargetType, u32, Option<u32>);

/// The type constructor that declares an element of a kind.
pub open spec fn constructor_text(kind: AddressKind) -> Seq<char> {
    match kind {
        AddressKind::ControlArray | AddressKind::IndicatorArray => "ArrayRegister"@,
        AddressKind::HostToTargetFifo => "WriteFifo"@,
        AddressKind::TargetToHostFifo => "ReadFifo"@,
        _ => "Register"@,
    }
}

/// The declaration generated for one binding: a constant named after
/// the element, of the kind's type over the target type (and, for arrays,
/// the element count), built from the address.
pub open spec fn binding_text(b: BindingView) -> Seq<char> {
    let (kind, name, ty, address, size) = b;
    let count = match kind {
        AddressKind::ControlArray | AddressKind::IndicatorArray => ", "@ + decimal_text(
            match size {
                Some(n) => n,
                None => 0,
            },
        ),
        _ => Seq::empty(),
    };
    match kind {
        AddressKind::ControlArraySize | AddressKind::IndicatorArraySize => Seq::empty(),
        _ => "    pub const "@ + name + ": "@ + constructor_text(kind) + "<"@ + type_text(ty) + count
            + "> = "@ + constructor_text(kind) + "::new("@ + hex_text(address) + ");\n"@,
    }
}

/// The declarations of a sequence of bindings, in order.
pub open spec fn bindings_text(bs: Seq<BindingView>) -> Seq<char>
    decreases bs.len(),
{
    if bs.len() == 0 {
        Seq::empty()
    } else {
        bindings_text(bs.drop_last()) + binding_text(bs.last())
    }
}

/// The declaration for one definition, given the element count of an
/// array; size definitions give no declaration.
pub open spec fn address_definition(
    def: DefinitionKey,
    address: u32,
    array_size: Option<u32>,
) -> Result<Option<BindingView>, GenerationError> {
    let (kind, name, datatype) = def;
    match kind {
        AddressKind::ControlArraySize | AddressKind::IndicatorArraySize => Ok(None),
        AddressKind::ControlArray | AddressKind::IndicatorArray => match array_size {
            None => Err(GenerationError::ArraySizeNotFound),
            Some(n) => match target_type_of(datatype) {
                None => Err(GenerationError::UnknownType),
                Some(t) => Ok(Some((kind, name, t, address, Some(n)))),
            },
        },
        _ => match target_type_of(datatype) {
            None => Err(GenerationError::UnknownType),
            Some(t) => Ok(Some((kind, name, t, address, None))),
        },
    }
}

/// The binding a definition contributes to the registers group: scalars
/// bind directly, arrays take their count from the matching size
/// definition in `all`, sizes and FIFOs contribute nothing.
pub open spec fn register_binding(e: (DefinitionKey, u32), all: Entries) -> Result<
    Option<BindingView>,
    GenerationError,
> {
    let ((kind, name, datatype), address) = e;
    match kind {
        AddressKind::Control | AddressKind::Indicator => address_definition(e.0, address, None),
        AddressKind::ControlArray | AddressKind::IndicatorArray => address_definition(
            e.0,
            address,
            lookup(all, (kind_with_size(kind), name, datatype)),
        ),
        _ => Ok(None),
    }
}

/// The binding a definition contributes to the FIFOs group.
pub open spec fn fifo_binding(e: (DefinitionKey, u32)) -> Result<Option<BindingView>, GenerationError> {
    match e.0.0 {
        AddressKind::HostToTargetFifo | AddressKind::TargetToHostFifo => address_definition(
            e.0,
            e.1,
            None,
        ),
        _ => Ok(None),
    }
}

pub open spec fn add_binding(acc: Seq<BindingView>, b: Option<BindingView>) -> Seq<BindingView> {
    match b {
        Some(b) => acc.push(b),
        None => acc,
    }
}

/// The registers group's bindings for the entries `es`, after `acc`.
pub open spec fn register_bindings(es: Entries, all: Entries, acc: Seq<BindingView>) -> Result<
    Seq<BindingView>,
    GenerationError,
>
    decreases es.len(),
{
    if es.len() == 0 {
        Ok(acc)
    } else {
        match register_binding(es[0], all) {
            Err(e) => Err(e),
            Ok(b) => register_bindings(es.drop_first(), all, add_binding(acc, b)),
        }
    }
}

/// The FIFOs group's bindings for the entries `es`, after `acc`.
pub open spec fn fifo_bindings(es: Entries, acc: Seq<BindingView>) -> Result<
    Seq<BindingView>,
    GenerationError,
>
    decreases es.len(),
{
    if es.len() == 0 {
        Ok(acc)
    } else {
        match fifo_binding(es[0]) {
            Err(e) => Err(e),
            Ok(b) => fifo_bindings(es.drop_first(), add_binding(acc, b)),
        }
    }
}

pub open spec fn registers_header() -> Seq<char> {
    "#[allow(non_upper_case_globals)]\n#[allow(dead_code)]\npub mod registers {\n    use ni_fpga_interface::registers::{ArrayRegister, Register};\n"@
}

pub open spec fn fifos_header() -> Seq<char> {
    "#[allow(non_upper_case_globals)]\n#[allow(dead_code)]\npub mod fifos {\n    use ni_fpga_interface::fifos::{ReadFifo, WriteFifo};\n"@
}

/// The registers module generated for an address set.
pub open spec fn register_module_text(s: Entries) -> Result<Seq<char>, GenerationError> {
    match register_bindings(s, s, Seq::empty()) {
        Err(e) => Err(e),
        Ok(bs) => Ok(registers_header() + bindings_text(bs) + "}\n"@),
    }
}

/// The FIFOs module generated for an address set.
pub open spec fn fifo_module_text(s: Entries) -> Result<Seq<char>, GenerationError> {
    match fifo_bindings(s, Seq::empty()) {
        Err(e) => Err(e),
        Ok(bs) => Ok(fifos_header() + bindings_text(bs) + "}\n"@),
    }
}

fn constructor(kind: AddressKind) -> (r: &'static str)
    ensures
        r@ == constructor_text(kind),
{
    match kind {
        AddressKind::ControlArray | AddressKind::IndicatorArray => "ArrayRegister",
        AddressKind::HostToTargetFifo => "WriteFifo",
        AddressKind::TargetToHostFifo => "ReadFifo",
        _ => "Register",
    }
}

fn push_binding(out: &mut String, b: (AddressKind, &[char], TargetType, u32, Option<u32>))
    ensures
        final(out)@ == old(out)@ + binding_text((b.0, b.1@, b.2, b.3, b.4)),
{
    let (kind, name, ty, address, size) = b;
    match kind {
        AddressKind::ControlArraySize | AddressKind::IndicatorArraySize => {
            assert(final(out)@ =~= old(out)@ + binding_text((b.0, b.1@, b.2, b.3, b.4)));
            return;
        },
        _ => {},
    }
    push_str(out, "    pub const ");
    push_all(out, name);
    push_str(out, ": ");
    let constructor = constructor(kind);
    push_str(out, constructor);
    push_str(out, "<");
    push_str(out, ty.rust_name());
    match kind {
        AddressKind::ControlArray | AddressKind::IndicatorArray => {
            push_str(out, ", ");
            let n = match size {
                Some(n) => n,
                None => 0,
            };
            push_digits(out, n, 10);
        },
        _ => {},
    }
    push_str(out, "> = ");
    push_str(out, constructor);
    push_str(out, "::new(");
    push_str(out, "0x");
    push_digits(out, address, 16);
    push_str(out, ");\n");
    assert(final(out)@ =~= old(out)@ + binding_text((b.0, b.1@, b.2, b.3, b.4)));
}

/// Generates the declaration for one definition, given the element count
/// of an array. Size definitions give no declaration.
pub fn generate_address_definition(
    definition: &LocationDefinition,
    address: u32,
    array_size: Option<u32>,
) -> (r: Result<String, GenerationError>)
    ensures
        match address_definition(definition@, address, array_size) {
            Err(e) => r == Err::<String, GenerationError>(e),
            Ok(None) => r matches Ok(s) && s@.len() == 0,
            Ok(Some(b)) => r matches Ok(s) && s@ == binding_text(b),
        },
{
    let mut out = String::new();
    match emit_definition(&mut out, definition, address, array_size) {
        Err(e) => Err(e),
        Ok(_) => Ok(out),
    }
}

fn emit_definition(
    out: &mut String,
    definition: &LocationDefinition,
    address: u32,
    array_size: Option<u32>,
) -> (r: Result<Ghost<Option<BindingView>>, GenerationError>)
    ensures
        match r {
            Err(e) => address_definition(definition@, address, array_size) == Err::<Option<BindingView>, GenerationError>(e) && final(out)@ == old(out)@,
            Ok(b) => address_definition(definition@, address, array_size) == Ok::<Option<BindingView>, GenerationError>(b@)
                && final(out)@ == old(out)@ + match b@ {
                    Some(b) => binding_text(b),
                    None => Seq::empty(),
                },
        },
{
    assert(old(out)@ =~= old(out)@ + Seq::<char>::empty());
    let kind = definition.kind;
    match kind {
        AddressKind::ControlArraySize | AddressKind::IndicatorArraySize => {
            return Ok(Ghost(None));
        },
        AddressKind::ControlArray | AddressKind::IndicatorArray => {
            if array_size.is_none() {
                return Err(GenerationError::ArraySizeNotFound);
            }
        },
        _ => {},
    }
    let datatype = chars_of(definition.datatype.as_str());
    let ty = match type_string_to_type(datatype.as_slice()) {
        None => {
            return Err(GenerationError::UnknownType);
        },
        Some(t) => t,
    };
    let name = chars_of(definition.name.as_str());
    let size = match kind {
        AddressKind::ControlArray | AddressKind::IndicatorArray => array_size,
        _ => None,
    };
    push_binding(out, (kind, name.as_slice(), ty, address, size));
    Ok(Ghost(Some((kind, definition.name@, ty, address, size))))
}

proof fn lemma_bindings_text_add(acc: Seq<BindingView>, b: Option<BindingView>)
    ensures
        bindings_text(add_binding(acc, b)) == bindings_text(acc) + match b {
            Some(b) => binding_text(b),
            None => Seq::empty(),
        },
{
    match b {
        Some(x) => {
            assert(acc.push(x).drop_last() =~= acc);
        },
        None => {
            assert(bindings_text(acc) =~= bindings_text(acc) + Seq::<char>::empty());
        },
    }
}

/// Generates the registers module of an address set: one declaration for
/// each scalar and each array element, in the set's order. FIFOs and size
/// definitions contribute no declaration.
pub fn generate_register_module(registers: &AddressSet) -> (r: Result<String, GenerationError>)
    requires
        registers.wf(),
    ensures
        match register_module_text(registers@) {
            Ok(t) => r matches Ok(s) && s@ == t,
            Err(e) => r == Err::<String, GenerationError>(e),
        },
{
    let mut out = String::new();
    push_str(
        &mut out,
        "#[allow(non_upper_case_globals)]\n#[allow(dead_code)]\npub mod registers {\n    use ni_fpga_interface::registers::{ArrayRegister, Register};\n",
    );
    let entries = registers.entries();
    let ghost all = registers@;
    let ghost mut acc: Seq<BindingView> = Seq::empty();
    assert(out@ =~= registers_header() + bindings_text(acc));
    assert(all.subrange(0, all.len() as int) =~= all);
    let mut i: usize = 0;
    while i < entries.len()
        invariant
            registers.wf(),
            all == registers@,
            entries@.len() == all.len(),
            forall|j: int| 0 <= j < entries@.len() ==> (#[trigger] entries@[j].0@, entries@[j].1) == all[j],
            i <= all.len(),
            out@ == registers_header() + bindings_text(acc),
            register_bindings(all, all, Seq::empty()) == register_bindings(all.subrange(i as int, all.len() as int), all, acc),
        decreases all.len() - i,
    {
        let ghost sub = all.subrange(i as int, all.len() as int);
        proof {
            assert(sub.drop_first() =~= all.subrange(i + 1, all.len() as int));
            assert(sub[0] == all[i as int]);
            assert((entries@[i as int].0@, entries@[i as int].1) == all[i as int]);
        }
        let def = &entries[i].0;
        let address = entries[i].1;
        let result = match def.kind {
            AddressKind::Control | AddressKind::Indicator => emit_definition(&mut out, def, address, None),
            AddressKind::ControlArray | AddressKind::IndicatorArray => {
                let size_def = LocationDefinition {
                    kind: def.kind.with_size(),
                    name: def.name.clone(),
                    datatype: def.datatype.clone(),
                };
                let size = registers.get(&size_def);
                emit_definition(&mut out, def, address, size)
            },
            _ => Ok(Ghost(None)),
        };
        match result {
            Err(e) => {
                return Err(e);
            },
            Ok(b) => {
                proof {
                    lemma_bindings_text_add(acc, b@);
                    assert(out@ =~= registers_header() + bindings_text(add_binding(acc, b@)));
                    acc = add_binding(acc, b@);
                }
            },
        }
        i = i + 1;
    }
    push_str(&mut out, "}\n");
    proof {
        assert(all.subrange(i as int, all.len() as int) =~= Seq::<(DefinitionKey, u32)>::empty());
    }
    Ok(out)
}

/// Generates the FIFOs module of an address set: a write accessor for
/// each host-to-target FIFO and a read accessor for each target-to-host
/// FIFO, in the set's order; other kinds contribute nothing.
pub fn generate_fifo_module(addresses: &AddressSet) -> (r: Result<String, GenerationError>)
    ensures
        match fifo_module_text(addresses@) {
            Ok(t) => r matches Ok(s) && s@ == t,
            Err(e) => r == Err::<String, GenerationError>(e),
        },
{
    let mut out = String::new();
    push_str(
        &mut out,
        "#[allow(non_upper_case_globals)]\n#[allow(dead_code)]\npub mod fifos {\n    use ni_fpga_interface::fifos::{ReadFifo, WriteFifo};\n",
    );
    let entries = addresses.entries();
    let ghost all = addresses@;
    let ghost mut acc: Seq<BindingView> = Seq::empty();
    assert(out@ =~= fifos_header() + bindings_text(acc));
    assert(all.subrange(0, all.len() as int) =~= all);
    let mut i: usize = 0;
    while i < entries.len()
        invariant
            all == addresses@,
            entries@.len() == all.len(),
            forall|j: int| 0 <= j < entries@.len() ==> (#[trigger] entries@[j].0@, entries@[j].1) == all[j],
            i <= all.len(),
            out@ == fifos_header() + bindings_text(acc),
            fifo_bindings(all, Seq::empty()) == fifo_bindings(all.subrange(i as int, all.len() as int), acc),
        decreases all.len() - i,
    {
        let ghost sub = all.subrange(i as int, all.len() as int);
        proof {
            assert(sub.drop_first() =~= all.subrange(i + 1, all.len() as int));
            assert(sub[0] == all[i as int]);
            assert((entries@[i as int].0@, entries@[i as int].1) == all[i as int]);
        }
        let def = &entries[i].0;
        let address = entries[i].1;
        let result = match def.kind {
            AddressKind::HostToTargetFifo | AddressKind::TargetToHostFifo => emit_definition(&mut out, def, address, None),
            _ => Ok(Ghost(None)),
        };
        match result {
            Err(e) => {
                return Err(e);
            },
            Ok(b) => {
                proof {
                    lemma_bindings_text_add(acc, b@);
                    assert(out@ =~= fifos_header() + bindings_text(add_binding(acc, b@)));
                    acc = add_binding(acc, b@);
                }
            },
        }
        i = i + 1;
    }
    push_str(&mut out, "}\n");
    proof {
        assert(all.subrange(i as int, all.len() as int) =~= Seq::<(DefinitionKey, u32)>::empty());
    }
    Ok(out)
}

proof fn lemma_register_bindings_not_fifo(es: Entries, all: Entries, acc: Seq<BindingView>)
    requires
        forall|i: int| 0 <= i < acc.len() ==> !kind_is_fifo(#[trigger] acc[i].0),
    ensures
        register_bindings(es, all, acc) matches Ok(bs) ==> forall|i: int|
            0 <= i < bs.len() ==> !kind_is_fifo(#[trigger] bs[i].0),
    decreases es.len(),
{
    if es.len() > 0 {
        match register_binding(es[0], all) {
            Err(_) => {},
            Ok(b) => {
                let next = add_binding(acc, b);
                assert forall|i: int| 0 <= i < next.len() implies !kind_is_fifo(#[trigger] next[i].0) by {
                    if i < acc.len() {
                        assert(next[i] == acc[i]);
                    }
                }
                lemma_register_bindings_not_fifo(es.drop_first(), all, next);
            },
        }
    }
}

proof fn lemma_fifo_bindings_only_fifo(es: Entries, acc: Seq<BindingView>)
    requires
        forall|i: int| 0 <= i < acc.len() ==> kind_is_fifo(#[trigger] acc[i].0),
    ensures
        fifo_bindings(es, acc) matches Ok(bs) ==> forall|i: int|
            0 <= i < bs.len() ==> kind_is_fifo(#[trigger] bs[i].0),
    decreases es.len(),
{
    if es.len() > 0 {
        match fifo_binding(es[0]) {
            Err(_) => {},
            Ok(b) => {
                let next = add_binding(acc, b);
                assert forall|i: int| 0 <= i < next.len() implies kind_is_fifo(#[trigger] next[i].0) by {
                    if i < acc.len() {
                        assert(next[i] == acc[i]);
                    }
                }
                lemma_fifo_bindings_only_fifo(es.drop_first(), next);
            },
        }
    }
}

/// The kinds the registers group declares: scalars and arrays.
pub open spec fn declares_register(kind: AddressKind) -> bool {
    kind == AddressKind::Control || kind == AddressKind::Indicator || kind == AddressKind::ControlArray
        || kind == AddressKind::IndicatorArray
}

/// The number of entries whose kind satisfies the registers group.
pub open spec fn count_register_elements(es: Entries) -> nat
    decreases es.len(),
{
    if es.len() == 0 {
        0
    } else {
        (if declares_register(es[0].0.0) { 1nat } else { 0nat }) + count_register_elements(es.drop_first())
    }
}

/// The number of FIFO entries.
pub open spec fn count_fifo_elements(es: Entries) -> nat
    decreases es.len(),
{
    if es.len() == 0 {
        0
    } else {
        (if kind_is_fifo(es[0].0.0) { 1nat } else { 0nat }) + count_fifo_elements(es.drop_first())
    }
}

proof fn lemma_register_bindings_count(es: Entries, all: Entries, acc: Seq<BindingView>)
    ensures
        register_bindings(es, all, acc) matches Ok(bs) ==> bs.len() == acc.len() + count_register_elements(es),
    decreases es.len(),
{
    if es.len() > 0 {
        match register_binding(es[0], all) {
            Err(_) => {},
            Ok(b) => {
                assert(declares_register(es[0].0.0) <==> b is Some);
                lemma_register_bindings_count(es.drop_first(), all, add_binding(acc, b));
            },
        }
    }
}

proof fn lemma_fifo_bindings_count(es: Entries, acc: Seq<BindingView>)
    ensures
        fifo_bindings(es, acc) matches Ok(bs) ==> bs.len() == acc.len() + count_fifo_elements(es),
    decreases es.len(),
{
    if es.len() > 0 {
        match fifo_binding(es[0]) {
            Err(_) => {},
            Ok(b) => {
                assert(kind_is_fifo(es[0].0.0) <==> b is Some);
                lemma_fifo_bindings_count(es.drop_first(), add_binding(acc, b));
            },
        }
    }
}

/// The registers group never declares a FIFO and declares one accessor
/// for each scalar and array definition; the FIFOs group declares nothing
/// but FIFOs, one accessor for each FIFO definition.
pub proof fn lemma_fifo_exclusion(entries: Entries)
    ensures
        register_bindings(entries, entries, Seq::empty()) matches Ok(bs) ==> (forall|i: int|
            0 <= i < bs.len() ==> !kind_is_fifo(#[trigger] bs[i].0)) && bs.len() == count_register_elements(entries),
        fifo_bindings(entries, Seq::empty()) matches Ok(bs) ==> (forall|i: int|
            0 <= i < bs.len() ==> kind_is_fifo(#[trigger] bs[i].0)) && bs.len() == count_fifo_elements(entries),
{
    lemma_register_bindings_not_fifo(entries, entries, Seq::empty());
    lemma_fifo_bindings_only_fifo(entries, Seq::empty());
    lemma_register_bindings_count(entries, entries, Seq::empty());
    lemma_fifo_bindings_count(entries, Seq::empty());
}

/// The kinds that give a declaration of their own.
pub open spec fn kind_declares(kind: AddressKind) -> bool {
    kind != AddressKind::ControlArraySize && kind != AddressKind::IndicatorArraySize
}

proof fn lemma_register_bindings_fail(es: Entries, all: Entries, acc: Seq<BindingView>, i: int)
    requires
        0 <= i < es.len(),
        kind_declares(es[i].0.0),
        !kind_is_fifo(es[i].0.0),
        target_type_of(es[i].0.2) is None,
    ensures
        register_bindings(es, all, acc) is Err,
    decreases es.len(),
{
    match register_binding(es[0], all) {
        Err(_) => {},
        Ok(b) => {
            if i == 0 {
                assert(false);
            } else {
                lemma_register_bindings_fail(es.drop_first(), all, add_binding(acc, b), i - 1);
            }
        },
    }
}

proof fn lemma_fifo_bindings_fail(es: Entries, acc: Seq<BindingView>, i: int)
    requires
        0 <= i < es.len(),
        kind_is_fifo(es[i].0.0),
        target_type_of(es[i].0.2) is None,
    ensures
        fifo_bindings(es, acc) is Err,
    decreases es.len(),
{
    match fifo_binding(es[0]) {
        Err(_) => {},
        Ok(b) => {
            if i == 0 {
                assert(false);
            } else {
                lemma_fifo_bindings_fail(es.drop_first(), add_binding(acc, b), i - 1);
            }
        },
    }
}

/// A definition that declares something and whose data type tag is
/// outside the mapping table makes generation fail: the group it belongs
/// to cannot be generated.
pub proof fn lemma_unknown_type_fails(entries: Entries, i: int)
    requires
        0 <= i < entries.len(),
        kind_declares(entries[i].0.0),
        target_type_of(entries[i].0.2) is None,
    ensures
        kind_is_fifo(entries[i].0.0) ==> fifo_module_text(entries) is Err,
        !kind_is_fifo(entries[i].0.0) ==> register_module_text(entries) is Err,
{
    if kind_is_fifo(entries[i].0.0) {
        lemma_fifo_bindings_fail(entries, Seq::empty(), i);
    } else {
        lemma_register_bindings_fail(entries, entries, Seq::empty(), i);
    }
}

proof fn lemma_register_bindings_extend(es: Entries, all: Entries, acc: Seq<BindingView>)
    ensures
        register_bindings(es, all, acc) matches Ok(bs) ==> bs.len() >= acc.len() && forall|k: int|
            0 <= k < acc.len() ==> #[trigger] bs[k] == acc[k],
    decreases es.len(),
{
    if es.len() > 0 {
        match register_binding(es[0], all) {
            Err(_) => {},
            Ok(b) => {
                let next = add_binding(acc, b);
                lemma_register_bindings_extend(es.drop_first(), all, next);
                assert forall|k: int| 0 <= k < acc.len() implies #[trigger] next[k] == acc[k] by {}
            },
        }
    }
}

proof fn lemma_register_bindings_hold(es: Entries, all: Entries, acc: Seq<BindingView>, i: int, b: BindingView)
    requires
        0 <= i < es.len(),
        register_binding(es[i], all) == Ok::<Option<BindingView>, GenerationError>(Some(b)),
    ensures
        register_bindings(es, all, acc) matches Ok(bs) ==> exists|j: int| 0 <= j < bs.len() && #[trigger] bs[j] == b,
    decreases es.len(),
{
    match register_binding(es[0], all) {
        Err(_) => {},
        Ok(first) => {
            let next = add_binding(acc, first);
            if i == 0 {
                lemma_register_bindings_extend(es.drop_first(), all, next);
                if let Ok(bs) = register_bindings(es, all, acc) {
                    assert(bs[acc.len() as int] == next[acc.len() as int]);
                }
            } else {
                lemma_register_bindings_hold(es.drop_first(), all, next, i - 1, b);
            }
        },
    }
}

/// An array element whose size definition is in the set is declared with
/// that element count and its own address, whenever the registers group
/// can be generated.
pub proof fn lemma_array_size_resolution(entries: Entries, i: int, count: u32)
    requires
        0 <= i < entries.len(),
        entries[i].0.0 == AddressKind::ControlArray || entries[i].0.0 == AddressKind::IndicatorArray,
        lookup(entries, (kind_with_size(entries[i].0.0), entries[i].0.1, entries[i].0.2)) == Some(count),
    ensures
        register_bindings(entries, entries, Seq::empty()) matches Ok(bs) ==> exists|j: int|
            0 <= j < bs.len() && #[trigger] bs[j] == (
                entries[i].0.0,
                entries[i].0.1,
                target_type_of(entries[i].0.2)->0,
                entries[i].1,
                Some(count),
            ),
{
    if register_bindings(entries, entries, Seq::empty()) is Ok {
        lemma_register_bindings_succeed_at(entries, entries, Seq::empty(), i);
        let b = (entries[i].0.0, entries[i].0.1, target_type_of(entries[i].0.2)->0, entries[i].1, Some(count));
        lemma_register_bindings_hold(entries, entries, Seq::empty(), i, b);
    }
}

proof fn lemma_register_bindings_succeed_at(es: Entries, all: Entries, acc: Seq<BindingView>, i: int)
    requires
        0 <= i < es.len(),
        register_bindings(es, all, acc) is Ok,
    ensures
        register_binding(es[i], all) is Ok,
    decreases es.len(),
{
    match register_binding(es[0], all) {
        Err(_) => {},
        Ok(first) => {
            if i > 0 {
                lemma_register_bindings_succeed_at(es.drop_first(), all, add_binding(acc, first), i - 1);
            }
        },
    }
}


/// A character that may start an identifier.
pub open spec fn is_ident_start(c: char) -> bool {
    ('a' <= c <= 'z') || ('A' <= c <= 'Z') || c == '_'
}

/// A character that may continue an identifier.
pub open spec fn is_ident_continue(c: char) -> bool {
    is_ident_start(c) || ('0' <= c <= '9')
}

/// The keywords of Rust, strict and reserved.
pub open spec fn is_rust_keyword(s: Seq<char>) -> bool {
    s == seq!['a', 's']
        || s == seq!['b', 'r', 'e', 'a', 'k']
        || s == seq!['c', 'o', 'n', 's', 't']
        || s == seq!['c', 'o', 'n', 't', 'i', 'n', 'u', 'e']
        || s == seq!['c', 'r', 'a', 't', 'e']
        || s == seq!['e', 'l', 's', 'e']
        || s == seq!['e', 'n', 'u', 'm']
        || s == seq!['e', 'x', 't', 'e', 'r', 'n']
        || s == seq!['f', 'a', 'l', 's', 'e']
        || s == seq!['f', 'n']
        || s == seq!['f', 'o', 'r']
        || s == seq!['i', 'f']
        || s == seq!['i', 'm', 'p', 'l']
        || s == seq!['i', 'n']
        || s == seq!['l', 'e', 't']
        || s == seq!['l', 'o', 'o', 'p']
        || s == seq!['m', 'a', 't', 'c', 'h']
        || s == seq!['m', 'o', 'd']
        || s == seq!['m', 'o', 'v', 'e']
        || s == seq!['m', 'u', 't']
        || s == seq!['p', 'u', 'b']
        || s == seq!['r', 'e', 'f']
        || s == seq!['r', 'e', 't', 'u', 'r', 'n']
        || s == seq!['s', 'e', 'l', 'f']
        || s == seq!['S', 'e', 'l', 'f']
        || s == seq!['s', 't', 'a', 't', 'i', 'c']
        || s == seq!['s', 't', 'r', 'u', 'c', 't']
        || s == seq!['s', 'u', 'p', 'e', 'r']
        || s == seq!['t', 'r', 'a', 'i', 't']
        || s == seq!['t', 'r', 'u', 'e']
        || s == seq!['t', 'y', 'p', 'e']
        || s == seq!['u', 'n', 's', 'a', 'f', 'e']
        || s == seq!['u', 's', 'e']
        || s == seq!['w', 'h', 'e', 'r', 'e']
        || s == seq!['w', 'h', 'i', 'l', 'e']
        || s == seq!['a', 's', 'y', 'n', 'c']
        || s == seq!['a', 'w', 'a', 'i', 't']
        || s == seq!['d', 'y', 'n']
        || s == seq!['a', 'b', 's', 't', 'r', 'a', 'c', 't']
        || s == seq!['b', 'e', 'c', 'o', 'm', 'e']
        || s == seq!['b', 'o', 'x']
        || s == seq!['d', 'o']
        || s == seq!['f', 'i', 'n', 'a', 'l']
        || s == seq!['m', 'a', 'c', 'r', 'o']
        || s == seq!['o', 'v', 'e', 'r', 'r', 'i', 'd', 'e']
        || s == seq!['p', 'r', 'i', 'v']
        || s == seq!['t', 'y', 'p', 'e', 'o', 'f']
        || s == seq!['u', 'n', 's', 'i', 'z', 'e', 'd']
        || s == seq!['v', 'i', 'r', 't', 'u', 'a', 'l']
        || s == seq!['y', 'i', 'e', 'l', 'd']
        || s == seq!['t', 'r', 'y']
}

/// A plain Rust identifier: ASCII letters, digits and underscores, not
/// starting with a digit, not a lone underscore and not a keyword.
pub open spec fn is_plain_identifier(s: Seq<char>) -> bool {
    &&& s.len() > 0
    &&& is_ident_start(s[0])
    &&& forall|i: int| 1 <= i < s.len() ==> is_ident_continue(#[trigger] s[i])
    &&& s != seq!['_']
    &&& !is_rust_keyword(s)
}

/// Every definition of the set is named by a plain identifier.
pub open spec fn names_plain(entries: Entries) -> bool {
    forall|i: int| 0 <= i < entries.len() ==> is_plain_identifier(#[trigger] entries[i].0.1)
}

fn is_keyword(name: &[char]) -> (r: bool)
    ensures
        r == is_rust_keyword(name@),
{
    chars_eq(name, &['a', 's'])
        || chars_eq(name, &['b', 'r', 'e', 'a', 'k'])
        || chars_eq(name, &['c', 'o', 'n', 's', 't'])
        || chars_eq(name, &['c', 'o', 'n', 't', 'i', 'n', 'u', 'e'])
        || chars_eq(name, &['c', 'r', 'a', 't', 'e'])
        || chars_eq(name, &['e', 'l', 's', 'e'])
        || chars_eq(name, &['e', 'n', 'u', 'm'])
        || chars_eq(name, &['e', 'x', 't', 'e', 'r', 'n'])
        || chars_eq(name, &['f', 'a', 'l', 's', 'e'])
        || chars_eq(name, &['f', 'n'])
        || chars_eq(name, &['f', 'o', 'r'])
        || chars_eq(name, &['i', 'f'])
        || chars_eq(name, &['i', 'm', 'p', 'l'])
        || chars_eq(name, &['i', 'n'])
        || chars_eq(name, &['l', 'e', 't'])
        || chars_eq(name, &['l', 'o', 'o', 'p'])
        || chars_eq(name, &['m', 'a', 't', 'c', 'h'])
        || chars_eq(name, &['m', 'o', 'd'])
        || chars_eq(name, &['m', 'o', 'v', 'e'])
        || chars_eq(name, &['m', 'u', 't'])
        || chars_eq(name, &['p', 'u', 'b'])
        || chars_eq(name, &['r', 'e', 'f'])
        || chars_eq(name, &['r', 'e', 't', 'u', 'r', 'n'])
        || chars_eq(name, &['s', 'e', 'l', 'f'])
        || chars_eq(name, &['S', 'e', 'l', 'f'])
        || chars_eq(name, &['s', 't', 'a', 't', 'i', 'c'])
        || chars_eq(name, &['s', 't', 'r', 'u', 'c', 't'])
        || chars_eq(name, &['s', 'u', 'p', 'e', 'r'])
        || chars_eq(name, &['t', 'r', 'a', 'i', 't'])
        || chars_eq(name, &['t', 'r', 'u', 'e'])
        || chars_eq(name, &['t', 'y', 'p', 'e'])
        || chars_eq(name, &['u', 'n', 's', 'a', 'f', 'e'])
        || chars_eq(name, &['u', 's', 'e'])
        || chars_eq(name, &['w', 'h', 'e', 'r', 'e'])
        || chars_eq(name, &['w', 'h', 'i', 'l', 'e'])
        || chars_eq(name, &['a', 's', 'y', 'n', 'c'])
        || chars_eq(name, &['a', 'w', 'a', 'i', 't'])
        || chars_eq(name, &['d', 'y', 'n'])
        || chars_eq(name, &['a', 'b', 's', 't', 'r', 'a', 'c', 't'])
        || chars_eq(name, &['b', 'e', 'c', 'o', 'm', 'e'])
        || chars_eq(name, &['b', 'o', 'x'])
        || chars_eq(name, &['d', 'o'])
        || chars_eq(name, &['f', 'i', 'n', 'a', 'l'])
        || chars_eq(name, &['m', 'a', 'c', 'r', 'o'])
        || chars_eq(name, &['o', 'v', 'e', 'r', 'r', 'i', 'd', 'e'])
        || chars_eq(name, &['p', 'r', 'i', 'v'])
        || chars_eq(name, &['t', 'y', 'p', 'e', 'o', 'f'])
        || chars_eq(name, &['u', 'n', 's', 'i', 'z', 'e', 'd'])
        || chars_eq(name, &['v', 'i', 'r', 't', 'u', 'a', 'l'])
        || chars_eq(name, &['y', 'i', 'e', 'l', 'd'])
        || chars_eq(name, &['t', 'r', 'y'])
}

/// Whether a name is a plain Rust identifier.
pub fn is_plain_identifier_name(name: &[char]) -> (r: bool)
    ensures
        r == is_plain_identifier(name@),
{
    if name.len() == 0 {
        return false;
    }
    let c = name[0];
    if !(('a' <= c && c <= 'z') || ('A' <= c && c <= 'Z') || c == '_') {
        return false;
    }
    let mut i: usize = 1;
    while i < name.len()
        invariant
            1 <= i <= name@.len(),
            forall|j: int| 1 <= j < i ==> is_ident_continue(#[trigger] name@[j]),
        decreases name@.len() - i,
    {
        let c = name[i];
        if !(('a' <= c && c <= 'z') || ('A' <= c && c <= 'Z') || c == '_' || ('0' <= c && c <= '9')) {
            return false;
        }
        i = i + 1;
    }
    if name.len() == 1 && name[0] == '_' {
        assert(name@ =~= seq!['_']);
        return false;
    }
    assert(name@ != seq!['_']) by {
        if name@ == seq!['_'] {
            assert(name@.len() == 1 && name@[0] == '_');
        }
    }
    !is_keyword(name)
}

/// Whether every definition of the set is named by a plain identifier.
pub fn names_are_plain(set: &AddressSet) -> (r: bool)
    ensures
        r == names_plain(set@),
{
    let entries = set.entries();
    let mut i: usize = 0;
    while i < entries.len()
        invariant
            i <= entries@.len(),
            entries@.len() == set@.len(),
            forall|j: int| 0 <= j < entries@.len() ==> (#[trigger] entries@[j].0@, entries@[j].1) == set@[j],
            forall|j: int| 0 <= j < i ==> is_plain_identifier(#[trigger] set@[j].0.1),
        decreases entries@.len() - i,
    {
        let name = chars_of(entries[i].0.name.as_str());
        assert((entries@[i as int].0@, entries@[i as int].1) == set@[i as int]);
        if !is_plain_identifier_name(name.as_slice()) {
            assert(!is_plain_identifier(set@[i as int].0.1));
            return false;
        }
        i = i + 1;
    }
    true
}

} // verus!
