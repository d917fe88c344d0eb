//! The naming conventions that identify interface elements in the
//! identifiers of a generated C header.

use vstd::prelude::*;
use crate::text::{chars_of, ends_with, is_prefix, is_suffix, slice_chars, starts_with};

verus! {

/// The kind of interface element a declaration describes.
#[derive(Debug, Clone, Copy, PartialEq, Eq, Structural, Hash)]
pub enum AddressKind {
    Control,
    Indicator,
    ControlArray,
    IndicatorArray,
    ControlArraySize,
    IndicatorArraySize,
    HostToTargetFifo,
    TargetToHostFifo,
}

/// The place of a kind in the order of definitions: the order in which
/// the kinds are declared.
pub open spec fn kind_rank(kind: AddressKind) -> nat {
    match kind {
        AddressKind::Control => 0,
        AddressKind::Indicator => 1,
        AddressKind::ControlArray => 2,
        AddressKind::IndicatorArray => 3,
        AddressKind::ControlArraySize => 4,
        AddressKind::IndicatorArraySize => 5,
        AddressKind::HostToTargetFifo => 6,
        AddressKind::TargetToHostFifo => 7,
    }
}

/// Another name for the element kinds, for callers that speak of
/// register locations.
pub type LocationKind = AddressKind;

/// The identifier prefix of each kind. The size kinds share the prefix
/// of their array kind.
pub open spec fn kind_prefix(kind: AddressKind) -> Seq<char> {
    match kind {
        AddressKind::Control => "Control"@,
        AddressKind::Indicator => "Indicator"@,
        AddressKind::ControlArray => "ControlArray"@,
        AddressKind::IndicatorArray => "IndicatorArray"@,
        AddressKind::ControlArraySize => "ControlArray"@,
        AddressKind::IndicatorArraySize => "IndicatorArray"@,
        AddressKind::TargetToHostFifo => "TargetToHostFifo"@,
        AddressKind::HostToTargetFifo => "HostToTargetFifo"@,
    }
}

pub open spec fn kind_is_array(kind: AddressKind) -> bool {
    match kind {
        AddressKind::ControlArray
        | AddressKind::IndicatorArray
        | AddressKind::ControlArraySize
        | AddressKind::IndicatorArraySize => true,
        _ => false,
    }
}

pub open spec fn kind_with_size(kind: AddressKind) -> AddressKind {
    match kind {
        AddressKind::ControlArray => AddressKind::ControlArraySize,
        AddressKind::IndicatorArray => AddressKind::IndicatorArraySize,
        _ => kind,
    }
}

pub open spec fn kind_is_fifo(kind: AddressKind) -> bool {
    kind == AddressKind::TargetToHostFifo || kind == AddressKind::HostToTargetFifo
}

impl AddressKind {
    /// Whether the kind is one of the array kinds (sizes included).
    pub fn is_array(&self) -> (r: bool)
        ensures
            r == kind_is_array(*self),
    {
        match self {
            AddressKind::ControlArray
            | AddressKind::IndicatorArray
            | AddressKind::ControlArraySize
            | AddressKind::IndicatorArraySize => true,
            _ => false,
        }
    }

    /// The size kind that belongs to an array kind; any other kind is
    /// returned unchanged.
    pub fn with_size(self) -> (r: Self)
        ensures
            r == kind_with_size(self),
    {
        match self {
            AddressKind::ControlArray => AddressKind::ControlArraySize,
            AddressKind::IndicatorArray => AddressKind::IndicatorArraySize,
            _ => self,
        }
    }

    /// The place of the kind in the order of definitions.
    pub fn rank(&self) -> (r: u8)
        ensures
            r as nat == kind_rank(*self),
    {
        match self {
            AddressKind::Control => 0,
            AddressKind::Indicator => 1,
            AddressKind::ControlArray => 2,
            AddressKind::IndicatorArray => 3,
            AddressKind::ControlArraySize => 4,
            AddressKind::IndicatorArraySize => 5,
            AddressKind::HostToTargetFifo => 6,
            AddressKind::TargetToHostFifo => 7,
        }
    }

    /// Whether the kind is one of the two FIFO directions.
    pub fn is_fifo(&self) -> (r: bool)
        ensures
            r == kind_is_fifo(*self),
    {
        match self {
            AddressKind::TargetToHostFifo | AddressKind::HostToTargetFifo => true,
            _ => false,
        }
    }

    /// The prefix that marks this kind in the C identifiers.
    pub fn prefix(&self) -> (r: &'static str)
        ensures
            r@ == kind_prefix(*self),
    {
        match self {
            AddressKind::Control => "Control",
            AddressKind::Indicator => "Indicator",
            AddressKind::ControlArray => "ControlArray",
            AddressKind::IndicatorArray => "IndicatorArray",
            AddressKind::ControlArraySize => "ControlArray",
            AddressKind::IndicatorArraySize => "IndicatorArray",
            AddressKind::TargetToHostFifo => "TargetToHostFifo",
            AddressKind::HostToTargetFifo => "HostToTargetFifo",
        }
    }
}

/// The kinds tried against an identifier, most specific first: the array
/// prefixes extend the scalar ones and must be tried before them. The size
/// kinds are not listed, as they are told apart by a suffix.
pub open spec fn candidate_kinds() -> Seq<AddressKind> {
    seq![
        AddressKind::ControlArray,
        AddressKind::IndicatorArray,
        AddressKind::Control,
        AddressKind::Indicator,
        AddressKind::TargetToHostFifo,
        AddressKind::HostToTargetFifo,
    ]
}

/// The first of `kinds` whose prefix starts `name`.
pub open spec fn first_matching_kind(name: Seq<char>, kinds: Seq<AddressKind>) -> Option<AddressKind>
    decreases kinds.len(),
{
    if kinds.len() == 0 {
        None
    } else if is_prefix(kind_prefix(kinds[0]), name) {
        Some(kinds[0])
    } else {
        first_matching_kind(name, kinds.drop_first())
    }
}

/// An identifier that starts with an array prefix decodes to the array
/// kind, never to the scalar kind whose prefix it also starts with.
pub proof fn lemma_array_prefix_is_preferred(name: Seq<char>)
    ensures
        is_prefix("ControlArray"@, name) ==> kind_of_identifier(name) == Some(AddressKind::ControlArray),
        is_prefix("IndicatorArray"@, name) ==> kind_of_identifier(name) == Some(AddressKind::IndicatorArray),
{
    reveal_strlit("ControlArray");
    reveal_strlit("IndicatorArray");
    let kinds = candidate_kinds();
    assert(kinds[0] == AddressKind::ControlArray);
    assert(kinds.drop_first()[0] == AddressKind::IndicatorArray);
    if is_prefix("IndicatorArray"@, name) {
        assert("IndicatorArray"@[0] == 'I');
        assert(name.subrange(0, 14)[0] == name[0]);
        assert(name[0] == 'I');
        assert(!is_prefix("ControlArray"@, name)) by {
            if is_prefix("ControlArray"@, name) {
                assert("ControlArray"@[0] == 'C');
                assert(name.subrange(0, 12)[0] == name[0]);
            }
        }
        assert(first_matching_kind(name, kinds) == first_matching_kind(name, kinds.drop_first()));
        assert(kind_prefix(kinds.drop_first()[0]) == "IndicatorArray"@);
        assert(first_matching_kind(name, kinds.drop_first()) == Some(AddressKind::IndicatorArray));
    }
}

/// The kind that a short type identifier starts with, if any.
pub open spec fn kind_of_identifier(name: Seq<char>) -> Option<AddressKind> {
    first_matching_kind(name, candidate_kinds())
}

/// A short type identifier decoded into its kind and the type text that
/// follows the kind's prefix; a trailing `Size` on an array kind turns it
/// into the size kind and is taken off the type text.
pub open spec fn decode_type_identifier(name: Seq<char>) -> Option<(AddressKind, Seq<char>)> {
    match kind_of_identifier(name) {
        None => None,
        Some(kind) => {
            let rest = name.subrange(kind_prefix(kind).len() as int, name.len() as int);
            if kind_is_array(kind) && is_suffix("Size"@, rest) {
                Some((kind_with_size(kind), rest.subrange(0, rest.len() - 4)))
            } else {
                Some((kind, rest))
            }
        }
    }
}

proof fn lemma_first_match_is_prefix(name: Seq<char>, kinds: Seq<AddressKind>)
    ensures
        first_matching_kind(name, kinds) matches Some(k) ==> is_prefix(kind_prefix(k), name),
    decreases kinds.len(),
{
    if kinds.len() > 0 && !is_prefix(kind_prefix(kinds[0]), name) {
        lemma_first_match_is_prefix(name, kinds.drop_first());
    }
}

/// The kind that a short type identifier starts with, trying the array
/// kinds before the scalar ones.
pub fn extract_type_from_start(name: &[char]) -> (r: Option<AddressKind>)
    ensures
        r == kind_of_identifier(name@),
{
    let options = [
        AddressKind::ControlArray,
        AddressKind::IndicatorArray,
        AddressKind::Control,
        AddressKind::Indicator,
        AddressKind::TargetToHostFifo,
        AddressKind::HostToTargetFifo,
    ];
    assert(options@ =~= candidate_kinds());
    assert(options@.subrange(0, 6) =~= options@);
    let mut i: usize = 0;
    while i < 6
        invariant
            i <= 6,
            options@ == candidate_kinds(),
            kind_of_identifier(name@) == first_matching_kind(name@, options@.subrange(i as int, 6)),
        decreases 6 - i,
    {
        let kind = options[i];
        let prefix = chars_of(kind.prefix());
        proof {
            assert(options@.subrange(i as int, 6).drop_first() =~= options@.subrange(i + 1, 6));
        }
        if starts_with(name, prefix.as_slice()) {
            return Some(kind);
        }
        i = i + 1;
    }
    None
}

/// Decodes a short type identifier (the type name without the file-level
/// prefix) into its kind and the data type text.
///
/// An identifier that starts with no known kind prefix gives `None`: it
/// is not an interface element.
pub fn enum_name_to_types(name: &[char]) -> (r: Option<(AddressKind, Vec<char>)>)
    ensures
        match r {
            None => decode_type_identifier(name@) is None,
            Some((kind, ty)) => decode_type_identifier(name@) == Some((kind, ty@)),
        },
{
    match extract_type_from_start(name) {
        None => None,
        Some(kind) => {
            let prefix = chars_of(kind.prefix());
            proof {
                lemma_first_match_is_prefix(name@, candidate_kinds());
            }
            let rest = slice_chars(name, prefix.len(), name.len());
            let size_suffix = chars_of("Size");
            proof {
                reveal_strlit("Size");
            }
            if kind.is_array() && ends_with(rest.as_slice(), size_suffix.as_slice()) {
                let ty = slice_chars(rest.as_slice(), 0, rest.len() - 4);
                Some((kind.with_size(), ty))
            } else {
                Some((kind, rest))
            }
        }
    }
}

/// The position of the last `c` in `s`, or -1 where there is none.
pub open spec fn last_index_of(s: Seq<char>, c: char) -> int
    decreases s.len(),
{
    if s.len() == 0 {
        -1
    } else if s.last() == c {
        s.len() - 1
    } else {
        last_index_of(s.drop_last(), c)
    }
}

/// The element name carried by an enumerator identifier: the text after
/// its last underscore, or the whole identifier where it has none.
pub open spec fn element_name(ident: Seq<char>) -> Seq<char> {
    ident.subrange(last_index_of(ident, '_') + 1, ident.len() as int)
}

proof fn lemma_last_index_bounds(s: Seq<char>, c: char)
    ensures
        -1 <= last_index_of(s, c) < s.len(),
    decreases s.len(),
{
    if s.len() > 0 && s.last() != c {
        lemma_last_index_bounds(s.drop_last(), c);
    }
}

/// The text after the last underscore of an enumerator identifier.
pub fn control_indicator_name_from_full(full_name: &[char]) -> (r: Vec<char>)
    ensures
        r@ == element_name(full_name@),
{
    let mut i: usize = full_name.len();
    assert(full_name@.subrange(0, i as int) =~= full_name@);
    while i > 0 && full_name[i - 1] != '_'
        invariant
            i <= full_name@.len(),
            last_index_of(full_name@, '_') == last_index_of(full_name@.subrange(0, i as int), '_'),
        decreases i,
    {
        proof {
            assert(full_name@.subrange(0, i as int).drop_last() =~= full_name@.subrange(0, i - 1));
        }
        i = i - 1;
    }
    proof {
        lemma_last_index_bounds(full_name@, '_');
        if i == 0 {
            assert(full_name@.subrange(0, 0) =~= Seq::<char>::empty());
        }
    }
    slice_chars(full_name, i, full_name.len())
}

} // verus!
