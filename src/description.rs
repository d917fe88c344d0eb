//! The interface description of one header: its signature and its
//! address set, and the source text generated from it.

use vstd::prelude::*;
use crate::addresses::{extract_addresses, extracted_entries, AddressSet, Entries};
use crate::c_model::Declaration;
use crate::constant::ConstantError;
use crate::generator::{
    fifo_module_text, generate_fifo_module, generate_register_module, kind_declares,
    lemma_unknown_type_fails, names_are_plain, names_plain, register_module_text, target_type_of,
    GenerationError,
};
use crate::signature::{find_string_constant, string_constant_value};
use crate::text::{chars_of, push_str};

verus! {

/// Why a header could not be described.
#[derive(Debug, Clone, Copy, PartialEq, Eq, Structural)]
pub enum DescriptionError {
    /// No signature constant was found.
    NoSignature,
    /// A constant could not be evaluated.
    Constant(ConstantError),
}

/// The model of a description: signature and address set.
pub type DescriptionView = (Seq<char>, Entries);

/// What the declarations of a header describe for an interface: a
/// failing constant is reported first, then a missing signature.
pub open spec fn description_of(interface_name: Seq<char>, ds: Seq<Declaration>) -> Result<
    DescriptionView,
    DescriptionError,
> {
    match extracted_entries(interface_name, ds) {
        Err(e) => Err(DescriptionError::Constant(e)),
        Ok(entries) => match string_constant_value(interface_name, "Signature"@, ds) {
            None => Err(DescriptionError::NoSignature),
            Some(sig) => Ok((sig, entries)),
        },
    }
}

/// The Rust string literal that writes the text `s`, quotes and escapes
/// included.
pub uninterp spec fn string_literal_of(s: Seq<char>) -> Seq<char>;

/// Relies on `proc_macro2::Literal::string`, which builds the string
/// literal token for a text (escaping quotes, backslashes and control
/// characters), and on its `Display`, which writes the token out. The
/// literal depends on the text alone.
#[verifier::external_body]
fn string_literal(s: &str) -> (r: String)
    ensures
        r@ == string_literal_of(s@),
{
    proc_macro2::Literal::string(s).to_string()
}

/// The declaration of the signature constant, given its string literal.
pub open spec fn metadata_text(literal: Seq<char>) -> Seq<char> {
    "#[allow(dead_code)]\npub const SIGNATURE: &str = "@ + literal + ";\n"@
}

/// The declaration of the signature constant, given the string literal
/// that writes the signature.
pub fn signature_declaration(literal: &str) -> (r: String)
    ensures
        r@ == metadata_text(literal@),
{
    let mut out = String::new();
    push_str(&mut out, "#[allow(dead_code)]\npub const SIGNATURE: &str = ");
    push_str(&mut out, literal);
    push_str(&mut out, ";\n");
    out
}

/// The source generated for a description, before layout: the signature
/// constant, the registers module and the FIFOs module.
pub open spec fn output_text(signature: Seq<char>, entries: Entries) -> Result<Seq<char>, GenerationError> {
    match register_module_text(entries) {
        Err(e) => Err(e),
        Ok(registers) => match fifo_module_text(entries) {
            Err(e) => Err(e),
            Ok(fifos) => Ok(metadata_text(string_literal_of(signature)) + "\n"@ + registers + "\n"@ + fifos),
        },
    }
}

/// What the Rust source printer makes of a source text: the text laid
/// out anew, or nothing where the text does not parse as a Rust file.
pub uninterp spec fn formatted_source(text: Seq<char>) -> Option<Seq<char>>;

/// A text that this library generates for a set whose definitions are
/// all named by plain identifiers: it holds only attributes, `const`,
/// `mod` and `use` items.
pub open spec fn is_generated_output(text: Seq<char>) -> bool {
    exists|signature: Seq<char>, entries: Entries|
        names_plain(entries) && #[trigger] output_text(signature, entries)
            == Ok::<Seq<char>, GenerationError>(text)
}

/// Relies on `syn::parse_file`, which returns an error where the text does
/// not parse as a Rust source file, and on `prettyplease::unparse`, which
/// prints the parsed file in its own layout. Both depend on the text alone.
/// The printer stops on items it does not know how to print; the texts
/// this library generates hold none of them.
#[verifier::external_body]
fn format_source(text: &str) -> (r: Option<String>)
    requires
        is_generated_output(text@),
    ensures
        match formatted_source(text@) {
            Some(f) => r matches Some(s) && s@ == f,
            None => r is None,
        },
{
    match syn::parse_file(text) {
        Ok(file) => Some(prettyplease::unparse(&file)),
        Err(_) => None,
    }
}

/// Why source text could not be generated for a description.
#[derive(Debug, Clone, Copy, PartialEq, Eq, Structural)]
pub enum OutputError {
    Generation(GenerationError),
    /// A definition's name is not a plain Rust identifier.
    InvalidName,
    /// The generated text does not parse as Rust source.
    InvalidSource,
}

/// One interface: its signature and its address set.
pub struct InterfaceDescription {
    pub signature: String,
    pub registers: AddressSet,
}

impl InterfaceDescription {
    pub open spec fn view_spec(&self) -> DescriptionView {
        (self.signature@, self.registers@)
    }

    /// Describes the interface `interface_name` from the declarations of
    /// its header: the signature is the string constant
    /// `NiFpga_<name>_Signature`, the address set comes from the
    /// typedef'd enumerations.
    pub fn parse_declarations(interface_name: &str, declarations: &Vec<Declaration>) -> (r: Result<
        Self,
        DescriptionError,
    >)
        ensures
            match description_of(interface_name@, declarations@) {
                Ok(d) => r matches Ok(desc) && desc.registers.wf() && desc.view_spec() == d,
                Err(e) => r matches Err(e2) && e2 == e,
            },
    {
        let signature = find_string_constant(interface_name, "Signature", declarations);
        let registers = match extract_addresses(interface_name, declarations) {
            Err(e) => {
                return Err(DescriptionError::Constant(e));
            },
            Ok(set) => set,
        };
        match signature {
            None => Err(DescriptionError::NoSignature),
            Some(signature) => Ok(InterfaceDescription { signature, registers }),
        }
    }

    /// The source text for the description before layout.
    pub fn generate_unformatted_output(&self) -> (r: Result<String, GenerationError>)
        requires
            self.registers.wf(),
        ensures
            match output_text(self.signature@, self.registers@) {
                Ok(t) => r matches Ok(s) && s@ == t,
                Err(e) => r == Err::<String, GenerationError>(e),
            },
    {
        let registers = match generate_register_module(&self.registers) {
            Err(e) => {
                return Err(e);
            },
            Ok(text) => text,
        };
        let fifos = match generate_fifo_module(&self.registers) {
            Err(e) => {
                return Err(e);
            },
            Ok(text) => text,
        };
        let literal = string_literal(self.signature.as_str());
        let mut out = signature_declaration(literal.as_str());
        push_str(&mut out, "\n");
        push_str(&mut out, registers.as_str());
        push_str(&mut out, "\n");
        push_str(&mut out, fifos.as_str());
        assert(out@ =~= metadata_text(string_literal_of(self.signature@)) + "\n"@ + registers@ + "\n"@ + fifos@);
        Ok(out)
    }

    /// The source text for the description, laid out by the Rust source
    /// printer. Every definition must be named by a plain identifier.
    pub fn generate_rust_output(&self) -> (r: Result<String, OutputError>)
        requires
            self.registers.wf(),
        ensures
            !names_plain(self.registers@) ==> r == Err::<String, OutputError>(OutputError::InvalidName),
            names_plain(self.registers@) ==> match output_text(self.signature@, self.registers@) {
                Ok(t) => match formatted_source(t) {
                    Some(f) => r matches Ok(s) && s@ == f,
                    None => r == Err::<String, OutputError>(OutputError::InvalidSource),
                },
                Err(e) => r == Err::<String, OutputError>(OutputError::Generation(e)),
            },
    {
        if !names_are_plain(&self.registers) {
            return Err(OutputError::InvalidName);
        }
        match self.generate_unformatted_output() {
            Err(e) => Err(OutputError::Generation(e)),
            Ok(text) => {
                assert(names_plain(self.registers@) && output_text(self.signature@, self.registers@)
                    == Ok::<Seq<char>, GenerationError>(text@));
                assert(is_generated_output(text@));
                match format_source(text.as_str()) {
                    Some(s) => Ok(s),
                    None => Err(OutputError::InvalidSource),
                }
            },
        }
    }
}

/// Generation is deterministic: describing the same declarations twice
/// gives equal descriptions, and the text generated from equal
/// descriptions is identical, before and after layout.
pub proof fn lemma_generation_is_deterministic(
    interface_name: Seq<char>,
    first: Seq<Declaration>,
    second: Seq<Declaration>,
)
    requires
        first == second,
    ensures
        description_of(interface_name, first) == description_of(interface_name, second),
        description_of(interface_name, first) matches Ok((sig, entries)) ==> (
        description_of(interface_name, second) matches Ok((sig2, entries2)) && output_text(sig, entries) == output_text(sig2, entries2)
            && (output_text(sig, entries) matches Ok(t) ==> output_text(sig2, entries2) matches Ok(t2)
            && formatted_source(t) == formatted_source(t2))),
{
}

/// A declaring definition whose data type tag is outside the mapping
/// table makes the whole generation fail.
pub proof fn lemma_unknown_type_fails_generation(signature: Seq<char>, entries: Entries, i: int)
    requires
        0 <= i < entries.len(),
        kind_declares(entries[i].0.0),
        target_type_of(entries[i].0.2) is None,
    ensures
        output_text(signature, entries) is Err,
{
    lemma_unknown_type_fails(entries, i);
}

} // verus!
