use lang_c::ast;
use lang_c::driver::{parse_preprocessed, Config};
use ni_fpga_interface::addresses::{extract_addresses, AddressDefinitionsVisitor, LocationDefinition};
use ni_fpga_interface::c_model::{
    Declaration, Enumerator, Expression, InitDeclarator, Initializer, IntegerBase, IntegerLiteral,
    ListItem,
};
use ni_fpga_interface::constant::ConstantError;
use ni_fpga_interface::description::{DescriptionError, InterfaceDescription};
use ni_fpga_interface::naming::AddressKind;
use ni_fpga_interface::signature::{find_string_constant, StringConstantVisitor};

fn convert_expression(e: &ast::Expression) -> Expression {
    match e {
        ast::Expression::Constant(c) => match &c.node {
            ast::Constant::Integer(i) => Expression::Integer(IntegerLiteral {
                base: match i.base {
                    ast::IntegerBase::Decimal => IntegerBase::Decimal,
                    ast::IntegerBase::Octal => IntegerBase::Octal,
                    ast::IntegerBase::Hexadecimal => IntegerBase::Hexadecimal,
                    ast::IntegerBase::Binary => IntegerBase::Binary,
                },
                number: i.number.to_string(),
            }),
            _ => Expression::Other,
        },
        ast::Expression::StringLiteral(s) => Expression::StringLiteral(s.node.clone()),
        _ => Expression::Other,
    }
}

fn convert_initializer(i: &ast::Initializer) -> Initializer {
    match i {
        ast::Initializer::Expression(e) => Initializer::Expression(convert_expression(&e.node)),
        ast::Initializer::List(items) => Initializer::List(
            items
                .iter()
                .map(|item| match &item.node.initializer.node {
                    ast::Initializer::Expression(e) => ListItem::Expression(convert_expression(&e.node)),
                    ast::Initializer::List(_) => ListItem::Nested,
                })
                .collect(),
        ),
    }
}

fn convert_declaration(d: &ast::Declaration) -> Declaration {
    let mut is_typedef = false;
    let mut is_const = false;
    let mut enums = Vec::new();
    for specifier in &d.specifiers {
        match &specifier.node {
            ast::DeclarationSpecifier::StorageClass(s) => {
                if s.node == ast::StorageClassSpecifier::Typedef {
                    is_typedef = true;
                }
            }
            ast::DeclarationSpecifier::TypeQualifier(q) => {
                if q.node == ast::TypeQualifier::Const {
                    is_const = true;
                }
            }
            ast::DeclarationSpecifier::TypeSpecifier(t) => {
                if let ast::TypeSpecifier::Enum(e) = &t.node {
                    enums.push(
                        e.node
                            .enumerators
                            .iter()
                            .map(|en| Enumerator {
                                identifier: en.node.identifier.node.name.clone(),
                                expression: en.node.expression.as_ref().map(|x| convert_expression(&x.node)),
                            })
                            .collect(),
                    );
                }
            }
            _ => {}
        }
    }
    let declarators = d
        .declarators
        .iter()
        .map(|id| InitDeclarator {
            identifier: match &id.node.declarator.node.kind.node {
                ast::DeclaratorKind::Identifier(i) => Some(i.node.name.clone()),
                _ => None,
            },
            initializer: id.node.initializer.as_ref().map(|i| convert_initializer(&i.node)),
        })
        .collect();
    Declaration { is_typedef, is_const, enums, declarators }
}

fn declarations_of(content: &str) -> Vec<Declaration> {
    let config = Config::default();
    let parse = parse_preprocessed(&config, content.to_owned()).unwrap();
    parse
        .unit
        .0
        .iter()
        .filter_map(|d| match &d.node {
            ast::ExternalDeclaration::Declaration(d) => Some(convert_declaration(&d.node)),
            _ => None,
        })
        .collect()
}

fn visit_c_code(content: &str, visitor: &mut AddressDefinitionsVisitor) {
    visitor.visit_declarations(&declarations_of(content)).unwrap();
}

fn def(kind: AddressKind, name: &str, datatype: &str) -> LocationDefinition {
    LocationDefinition { kind, name: name.to_owned(), datatype: datatype.to_owned() }
}

fn check(content: &str, interface: &str, expected: Vec<(LocationDefinition, u32)>) {
    let mut visitor = AddressDefinitionsVisitor::new(interface);
    visit_c_code(content, &mut visitor);
    for (key, value) in expected {
        assert_eq!(visitor.registers.get(&key).unwrap(), value);
    }
}

const SIGNATURE_ONLY: &str = r#"

            static const char* const NiFpga_Main_Signature = "E3E0C23C5F01C0DBA61D947AB8A8F489";

        "#;

const BASIC_CONTROL: &str = r#"
        typedef enum
        {
        NiFpga_Main_ControlU8_U8Control = 0x18002,
        } NiFpga_Main_ControlU8;
        "#;

const DIFFERENT_INTERFACE: &str = r#"
        typedef enum
        {
        NiFpga_If_ControlU8_U8Control = 0x18002,
        } NiFpga_If_ControlU8;
        "#;

const TYPE_EXTRACTION: &str = r#"
        typedef enum
        {
        NiFpga_Main_ControlU32_U8Control = 0x18002,
        } NiFpga_Main_ControlU32;
        "#;

const MULTIPLE_OF_SAME_TYPE: &str = r#"
            typedef enum
            {
            NiFpga_Main_ControlU8_U8Control = 0x18002,
            NiFpga_Main_ControlU8_U8Sum = 0x18006,
            } NiFpga_Main_ControlU8;
        "#;

const INDICATORS: &str = r#"
        typedef enum
        {
           NiFpga_Main_IndicatorU8_U8Result = 0x1800A,
        } NiFpga_Main_IndicatorU8;
        "#;

const CONTROL_ARRAYS: &str = r#"
            typedef enum
            {
            NiFpga_Main_ControlArrayU8_U8ControlArray = 0x18014,
            NiFpga_Main_ControlArrayU8_U8SumArray = 0x18010,
            } NiFpga_Main_ControlArrayU8;

            typedef enum
            {
            NiFpga_Main_ControlArrayU8Size_U8ControlArray = 4,
            NiFpga_Main_ControlArrayU8Size_U8SumArray = 4,
            } NiFpga_Main_ControlArrayU8Size;
        "#;

const INDICATOR_ARRAYS: &str = r#"

        typedef enum
        {
           NiFpga_Main_IndicatorArrayU8_U8ResultArray = 0x1800C,
        } NiFpga_Main_IndicatorArrayU8;
        
        typedef enum
        {
           NiFpga_Main_IndicatorArrayU8Size_U8ResultArray = 4,
        } NiFpga_Main_IndicatorArrayU8Size;
        "#;

fn control_arrays_expected() -> Vec<(LocationDefinition, u32)> {
    vec![
        (def(AddressKind::ControlArray, "U8ControlArray", "U8"), 98324),
        (def(AddressKind::ControlArray, "U8SumArray", "U8"), 98320),
        (def(AddressKind::ControlArraySize, "U8ControlArray", "U8"), 4),
        (def(AddressKind::ControlArraySize, "U8SumArray", "U8"), 4),
    ]
}

fn indicator_arrays_expected() -> Vec<(LocationDefinition, u32)> {
    vec![
        (def(AddressKind::IndicatorArray, "U8ResultArray", "U8"), 98316),
        (def(AddressKind::IndicatorArraySize, "U8ResultArray", "U8"), 4),
    ]
}

#[test]
fn address_definitions_visitor_no_definitions_in_use() {
    let mut visitor = AddressDefinitionsVisitor::new("Main");
    visit_c_code(SIGNATURE_ONLY, &mut visitor);
    assert_eq!(visitor.registers.len(), 0);
}

#[test]
fn address_definitions_visitor_test_basic_control_definition() {
    check(BASIC_CONTROL, "Main", vec![(def(AddressKind::Control, "U8Control", "U8"), 98306)]);
}

#[test]
fn address_definitions_visitor_test_different_interface_name() {
    check(DIFFERENT_INTERFACE, "If", vec![(def(AddressKind::Control, "U8Control", "U8"), 98306)]);
}

#[test]
fn address_definitions_visitor_test_type_extraction() {
    check(TYPE_EXTRACTION, "Main", vec![(def(AddressKind::Control, "U8Control", "U32"), 98306)]);
}

#[test]
fn address_definitions_visitor_test_multiple_of_same_type() {
    check(
        MULTIPLE_OF_SAME_TYPE,
        "Main",
        vec![
            (def(AddressKind::Control, "U8Control", "U8"), 98306),
            (def(AddressKind::Control, "U8Sum", "U8"), 98310),
        ],
    );
}

#[test]
fn address_definitions_visitor_test_indicators() {
    check(INDICATORS, "Main", vec![(def(AddressKind::Indicator, "U8Result", "U8"), 98314)]);
}

#[test]
fn address_definitions_visitor_test_control_arrays_multiple() {
    check(CONTROL_ARRAYS, "Main", control_arrays_expected());
}

#[test]
fn address_definitions_visitor_test_indicator_arrays() {
    check(INDICATOR_ARRAYS, "Main", indicator_arrays_expected());
}

#[test]
fn test_host_to_target_fifo_definition() {
    let content = r#"
        typedef enum
        {
        NiFpga_Main_HostToTargetFifoU8_First = 0,
        NiFpga_Main_HostToTargetFifoU8_Second = 1,
        } NiFpga_Main_HostToTargetFifoU8;
        "#;
    check(
        content,
        "Main",
        vec![
            (def(AddressKind::HostToTargetFifo, "First", "U8"), 0),
            (def(AddressKind::HostToTargetFifo, "Second", "U8"), 1),
        ],
    );
}

#[test]
fn test_target_to_host_fifo_definition() {
    let content = r#"
        typedef enum
        {
        NiFpga_Main_TargetToHostFifoU16_First = 0,
        NiFpga_Main_TargetToHostFifoU16_Second = 1,
        } NiFpga_Main_TargetToHostFifoU16;
        "#;
    check(
        content,
        "Main",
        vec![
            (def(AddressKind::TargetToHostFifo, "First", "U16"), 0),
            (def(AddressKind::TargetToHostFifo, "Second", "U16"), 1),
        ],
    );
}

#[test]
fn register_definitions_visitor_no_definitions_in_use() {
    let mut visitor = AddressDefinitionsVisitor::new("Main");
    visit_c_code(SIGNATURE_ONLY, &mut visitor);
    assert_eq!(visitor.registers.len(), 0);
}

#[test]
fn register_definitions_visitor_test_basic_control_definition() {
    check(BASIC_CONTROL, "Main", vec![(def(AddressKind::Control, "U8Control", "U8"), 98306)]);
}

#[test]
fn register_definitions_visitor_test_different_interface_name() {
    check(DIFFERENT_INTERFACE, "If", vec![(def(AddressKind::Control, "U8Control", "U8"), 98306)]);
}

#[test]
fn register_definitions_visitor_test_type_extraction() {
    check(TYPE_EXTRACTION, "Main", vec![(def(AddressKind::Control, "U8Control", "U32"), 98306)]);
}

#[test]
fn register_definitions_visitor_test_multiple_of_same_type() {
    check(
        MULTIPLE_OF_SAME_TYPE,
        "Main",
        vec![
            (def(AddressKind::Control, "U8Control", "U8"), 98306),
            (def(AddressKind::Control, "U8Sum", "U8"), 98310),
        ],
    );
}

#[test]
fn register_definitions_visitor_test_indicators() {
    check(INDICATORS, "Main", vec![(def(AddressKind::Indicator, "U8Result", "U8"), 98314)]);
}

#[test]
fn register_definitions_visitor_test_control_arrays_multiple() {
    check(CONTROL_ARRAYS, "Main", control_arrays_expected());
}

#[test]
fn register_definitions_visitor_test_indicator_arrays() {
    check(INDICATOR_ARRAYS, "Main", indicator_arrays_expected());
}

fn visit_strings(content: &str, visitor: &mut StringConstantVisitor) {
    visitor.visit_declarations(&declarations_of(content));
}

#[test]
fn string_constant_visitor_test_constant_extraction_happy_path() {
    let content = r#"
        static const char* const NiFpga_Main_Signature = "E3E0C23C5F01C0DBA61D947AB8A8F489";

        "#;
    let mut visitor = StringConstantVisitor::new("Main", "Signature");
    visit_strings(content, &mut visitor);
    assert_eq!(&visitor.value.unwrap(), "E3E0C23C5F01C0DBA61D947AB8A8F489");
}

#[test]
fn string_constant_visitor_test_ignores_if_prefix_doesnt_match() {
    let content = r#"
        static const char* const Signature = "E3E0C23C5F01C0DBA61D947AB8A8F489";


        "#;
    let mut visitor = StringConstantVisitor::new("Main", "Signature");
    visit_strings(content, &mut visitor);
    assert_eq!(visitor.value, None);
}

#[test]
fn string_constant_visitor_test_ignores_if_name_doesnt_match() {
    let content = r#"
        static const char* const NiFpga_Main_Test = "E3E0C23C5F01C0DBA61D947AB8A8F489";

        "#;
    let mut visitor = StringConstantVisitor::new("Main", "Signature");
    visit_strings(content, &mut visitor);
    assert_eq!(visitor.value, None);
}

#[test]
fn bindings_parser_test_signature_extraction() {
    let content = r#"
        const char* NiFpga_Main_Signature = "E3E0C23C5F01C0DBA61D947AB8A8F489";
        "#;
    let description = InterfaceDescription::parse_declarations("Main", &declarations_of(content)).unwrap();
    assert_eq!(description.signature, "E3E0C23C5F01C0DBA61D947AB8A8F489");
}

#[test]
fn literal_example_decodes_to_one_control() {
    let content = "typedef enum { NiFpga_Main_ControlU8_U8Control = 0x18002 } NiFpga_Main_ControlU8;";
    let set = extract_addresses("Main", &declarations_of(content)).unwrap();
    assert_eq!(set.len(), 1);
    assert_eq!(set.entries()[0].0, def(AddressKind::Control, "U8Control", "U8"));
    assert_eq!(set.entries()[0].1, 98306);
}

#[test]
fn two_enumerators_give_two_entries() {
    let set = extract_addresses("Main", &declarations_of(MULTIPLE_OF_SAME_TYPE)).unwrap();
    assert_eq!(set.len(), 2);
    assert_eq!(set.get(&def(AddressKind::Control, "U8Control", "U8")), Some(98306));
    assert_eq!(set.get(&def(AddressKind::Control, "U8Sum", "U8")), Some(98310));
}

#[test]
fn array_prefix_wins_over_scalar_prefix() {
    let set = extract_addresses("Main", &declarations_of(CONTROL_ARRAYS)).unwrap();
    assert!(set.entries().iter().all(|(d, _)| d.kind != AddressKind::Control));
    assert_eq!(set.get(&def(AddressKind::ControlArray, "U8ControlArray", "U8")), Some(0x18014));
}

#[test]
fn signature_is_taken_without_quotes_and_only_under_its_name() {
    let content = r#"
        const char* NiFpga_Main_Test = "AAAA";
        const char* NiFpga_Main_Signature = "E3E0C23C5F01C0DBA61D947AB8A8F489";
        const char* NiFpga_Main_Signature = "BBBB";
        "#;
    let sig = find_string_constant("Main", "Signature", &declarations_of(content));
    assert_eq!(sig.as_deref(), Some("E3E0C23C5F01C0DBA61D947AB8A8F489"));
    let other = find_string_constant("Main", "Test", &declarations_of(content));
    assert_eq!(other.as_deref(), Some("AAAA"));
}

#[test]
fn missing_signature_is_reported() {
    let result = InterfaceDescription::parse_declarations("Main", &declarations_of(BASIC_CONTROL));
    assert!(matches!(result, Err(DescriptionError::NoSignature)));
}

#[test]
fn non_literal_enumerator_value_is_reported() {
    let content = r#"
        typedef enum
        {
        NiFpga_Main_ControlU8_U8Control = 1 + 2,
        } NiFpga_Main_ControlU8;
        "#;
    let result = extract_addresses("Main", &declarations_of(content));
    assert!(matches!(result, Err(ConstantError::NotAnInteger)));
}

#[test]
fn enumerator_without_value_is_reported() {
    let content = r#"
        typedef enum
        {
        NiFpga_Main_ControlU8_U8Control,
        } NiFpga_Main_ControlU8;
        "#;
    let result = extract_addresses("Main", &declarations_of(content));
    assert!(matches!(result, Err(ConstantError::Missing)));
}

#[test]
fn unknown_prefixes_and_plain_enums_are_ignored() {
    let content = r#"
        typedef enum { NiFpga_Main_WhateverU8_X = 1 } NiFpga_Main_WhateverU8;
        typedef enum { NiFpga_Other_ControlU8_X = 1 } NiFpga_Other_ControlU8;
        enum Plain { NiFpga_Main_ControlU8_Y = 2 };
        "#;
    let set = extract_addresses("Main", &declarations_of(content)).unwrap();
    assert!(set.is_empty());
}

#[test]
fn describing_twice_gives_the_same_set_and_output() {
    let content = format!("{}{}{}", SIGNATURE_ONLY, CONTROL_ARRAYS, MULTIPLE_OF_SAME_TYPE);
    let first = InterfaceDescription::parse_declarations("Main", &declarations_of(&content)).unwrap();
    let second = InterfaceDescription::parse_declarations("Main", &declarations_of(&content)).unwrap();
    assert_eq!(first.signature, second.signature);
    assert_eq!(first.registers.entries(), second.registers.entries());
    assert_eq!(first.generate_rust_output().unwrap(), second.generate_rust_output().unwrap());
}

#[test]
fn octal_binary_and_decimal_literals_evaluate_in_their_base() {
    let content = r#"
        typedef enum
        {
        NiFpga_Main_ControlU8_A = 017,
        NiFpga_Main_ControlU8_B = 0b101,
        NiFpga_Main_ControlU8_C = 4294967295,
        } NiFpga_Main_ControlU8;
        "#;
    let set = extract_addresses("Main", &declarations_of(content)).unwrap();
    assert_eq!(set.get(&def(AddressKind::Control, "A", "U8")), Some(15));
    assert_eq!(set.get(&def(AddressKind::Control, "B", "U8")), Some(5));
    assert_eq!(set.get(&def(AddressKind::Control, "C", "U8")), Some(4294967295));
}

#[test]
fn literal_too_large_for_32_bits_is_reported() {
    let content = r#"
        typedef enum
        {
        NiFpga_Main_ControlU8_A = 0x100000000,
        } NiFpga_Main_ControlU8;
        "#;
    let result = extract_addresses("Main", &declarations_of(content));
    assert!(matches!(result, Err(ConstantError::OutOfRange)));
}

#[test]
fn array_accessor_resolves_its_size_from_the_header() {
    let content = format!("{}{}", SIGNATURE_ONLY, CONTROL_ARRAYS);
    let description = InterfaceDescription::parse_declarations("Main", &declarations_of(&content)).unwrap();
    let output = description.generate_unformatted_output().unwrap();
    assert!(output.contains("pub const U8ControlArray: ArrayRegister<u8, 4> = ArrayRegister::new(0x18014);"));
    assert!(output.contains("pub const U8SumArray: ArrayRegister<u8, 4> = ArrayRegister::new(0x18010);"));
    assert!(!output.contains("Register<u8> = Register::new(0x4)"));
}
