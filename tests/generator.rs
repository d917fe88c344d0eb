use std::str::FromStr;

use proc_macro2::TokenStream;
use ni_fpga_interface::addresses::{AddressSet, LocationDefinition};
use ni_fpga_interface::description::{InterfaceDescription, OutputError};
use ni_fpga_interface::generator::{
    generate_address_definition, generate_fifo_module, generate_register_module,
    type_string_to_type, GenerationError, TargetType,
};
use ni_fpga_interface::naming::AddressKind;

fn tokens(text: &str) -> String {
    TokenStream::from_str(text).unwrap().to_string()
}

fn def(kind: AddressKind, name: &str, datatype: &str) -> LocationDefinition {
    LocationDefinition { kind, name: name.to_string(), datatype: datatype.to_string() }
}

#[test]
fn registers_generator_test_generate_control_register() {
    let definition = def(AddressKind::Control, "control", "U8");
    let address = 0x1800A;
    let generated = generate_address_definition(&definition, address, None).unwrap();
    let expected = "pub const control: Register<u8> = Register::new(0x1800A);";
    assert_eq!(tokens(&generated), tokens(expected));
}

#[test]
fn registers_generator_test_generate_indicator_register() {
    let definition = def(AddressKind::Indicator, "indicator", "I64");
    let address = 0x1802A;
    let generated = generate_address_definition(&definition, address, None).unwrap();
    let expected = "pub const indicator: Register<i64> = Register::new(0x1802A);";
    assert_eq!(tokens(&generated), tokens(expected));
}

#[test]
fn test_generate_control_register_f32() {
    let definition = def(AddressKind::Control, "control", "Sgl");
    let generated = generate_address_definition(&definition, 0x1800A, None).unwrap();
    let expected = "pub const control: Register<f32> = Register::new(0x1800A);";
    assert_eq!(tokens(&generated), tokens(expected));
}

#[test]
fn test_generate_control_register_f64() {
    let definition = def(AddressKind::Control, "control", "Dbl");
    let generated = generate_address_definition(&definition, 0x1800A, None).unwrap();
    let expected = "pub const control: Register<f64> = Register::new(0x1800A);";
    assert_eq!(tokens(&generated), tokens(expected));
}

#[test]
fn registers_generator_test_generate_control_array_register() {
    let definition = def(AddressKind::ControlArray, "control", "U8");
    let generated = generate_address_definition(&definition, 0x1800A, Some(5)).unwrap();
    let expected = "pub const control: ArrayRegister<u8, 5> = ArrayRegister::new(0x1800A);";
    assert_eq!(tokens(&generated), tokens(expected));
}

#[test]
fn registers_generator_test_generate_array_indicator_register() {
    let definition = def(AddressKind::IndicatorArray, "indicator", "I64");
    let generated = generate_address_definition(&definition, 0x1802A, Some(3)).unwrap();
    let expected = "pub const indicator: ArrayRegister<i64, 3> = ArrayRegister::new(0x1802A);";
    assert_eq!(tokens(&generated), tokens(expected));
}

#[test]
fn registers_generator_test_generate_control_array_size() {
    let definition = def(AddressKind::ControlArraySize, "control", "U8");
    let generated = generate_address_definition(&definition, 0x1800A, Some(5)).unwrap();
    assert!(TokenStream::from_str(&generated).unwrap().is_empty());
}

#[test]
fn registers_generator_test_generate_array_indicator_size() {
    let definition = def(AddressKind::IndicatorArraySize, "indicator", "I64");
    let generated = generate_address_definition(&definition, 0x1802A, Some(3)).unwrap();
    assert!(TokenStream::from_str(&generated).unwrap().is_empty());
}

const REGISTERS_WITH_CONTROL: &str = "
    #[allow(non_upper_case_globals)]
    #[allow(dead_code)]
    pub mod registers {
        use ni_fpga_interface::registers::{ ArrayRegister, Register};

        pub const control: Register<u8> = Register::new(0x1800A);
    }
";

#[test]
fn registers_generator_test_should_generate_a_public_module_with_registers() {
    let mut registers = AddressSet::new();
    registers.insert(def(AddressKind::Control, "control", "U8"), 0x1800A);
    let generated = generate_register_module(&registers).unwrap();
    assert_eq!(tokens(&generated), tokens(REGISTERS_WITH_CONTROL));
}

#[test]
fn test_should_not_include_fifos_in_register_module() {
    let mut registers = AddressSet::new();
    registers.insert(def(AddressKind::Control, "control", "U8"), 0x1800A);
    registers.insert(def(AddressKind::HostToTargetFifo, "to_fpga", "U8"), 0x01);
    let generated = generate_register_module(&registers).unwrap();
    assert_eq!(tokens(&generated), tokens(REGISTERS_WITH_CONTROL));
}

#[test]
fn registers_generator_test_should_extract_size_from_set_for_array_register() {
    let mut registers = AddressSet::new();
    registers.insert(def(AddressKind::ControlArray, "control", "U8"), 0x1800A);
    registers.insert(def(AddressKind::ControlArraySize, "control", "U8"), 5);
    let generated = generate_register_module(&registers).unwrap();
    let expected = "
        #[allow(non_upper_case_globals)]
        #[allow(dead_code)]
        pub mod registers {
            use ni_fpga_interface::registers::{ ArrayRegister, Register};

            pub const control: ArrayRegister<u8, 5> = ArrayRegister::new(0x1800A);
        }
    ";
    assert_eq!(tokens(&generated), tokens(expected));
}

#[test]
fn test_should_generate_a_public_module_with_fifos() {
    let mut registers = AddressSet::new();
    registers.insert(def(AddressKind::HostToTargetFifo, "to_fpga", "U8"), 0x01);
    registers.insert(def(AddressKind::TargetToHostFifo, "from_fpga", "Sgl"), 0x02);
    registers.insert(def(AddressKind::Control, "control", "U8"), 0x1800A);
    let generated = generate_fifo_module(&registers).unwrap();
    let expected = "
        #[allow(non_upper_case_globals)]
        #[allow(dead_code)]
        pub mod fifos {
            use ni_fpga_interface::fifos::{ ReadFifo, WriteFifo };

            pub const to_fpga: WriteFifo<u8> = WriteFifo::new(0x1);
            pub const from_fpga: ReadFifo<f32> = ReadFifo::new(0x2);
        }
    ";
    assert_eq!(tokens(&generated), tokens(expected));
}

#[test]
fn array_accessor_takes_count_and_address_from_the_set() {
    let mut registers = AddressSet::new();
    registers.insert(def(AddressKind::ControlArray, "U8ControlArray", "U8"), 0x18014);
    registers.insert(def(AddressKind::ControlArraySize, "U8ControlArray", "U8"), 4);
    let generated = generate_register_module(&registers).unwrap();
    assert!(generated.contains("pub const U8ControlArray: ArrayRegister<u8, 4> = ArrayRegister::new(0x18014);"));
}

#[test]
fn array_without_size_fails() {
    let mut registers = AddressSet::new();
    registers.insert(def(AddressKind::IndicatorArray, "values", "U8"), 0x18014);
    assert_eq!(generate_register_module(&registers), Err(GenerationError::ArraySizeNotFound));
    assert_eq!(
        generate_address_definition(&def(AddressKind::IndicatorArray, "values", "U8"), 0x18014, None),
        Err(GenerationError::ArraySizeNotFound)
    );
}

#[test]
fn unknown_type_fails_generation() {
    let mut registers = AddressSet::new();
    registers.insert(def(AddressKind::Control, "control", "Fxp"), 0x1800A);
    assert_eq!(generate_register_module(&registers), Err(GenerationError::UnknownType));
    let mut fifos = AddressSet::new();
    fifos.insert(def(AddressKind::TargetToHostFifo, "numbers", "Cluster"), 0x1);
    assert_eq!(generate_fifo_module(&fifos), Err(GenerationError::UnknownType));
    let description = InterfaceDescription { signature: "ABC".to_string(), registers };
    assert_eq!(
        description.generate_rust_output(),
        Err(OutputError::Generation(GenerationError::UnknownType))
    );
}

#[test]
fn fifo_module_holds_no_registers_and_register_module_no_fifos() {
    let mut registers = AddressSet::new();
    registers.insert(def(AddressKind::HostToTargetFifo, "to_fpga", "U8"), 0x01);
    registers.insert(def(AddressKind::Indicator, "result", "U16"), 0x18002);
    let register_module = generate_register_module(&registers).unwrap();
    let fifo_module = generate_fifo_module(&registers).unwrap();
    assert!(!register_module.contains("to_fpga"));
    assert!(register_module.contains("result"));
    assert!(!fifo_module.contains("result"));
    assert!(fifo_module.contains("to_fpga"));
}

#[test]
fn type_table_maps_every_tag() {
    let cases = [
        ("U8", TargetType::U8),
        ("U16", TargetType::U16),
        ("U32", TargetType::U32),
        ("U64", TargetType::U64),
        ("I8", TargetType::I8),
        ("I16", TargetType::I16),
        ("I32", TargetType::I32),
        ("I64", TargetType::I64),
        ("Sgl", TargetType::F32),
        ("Dbl", TargetType::F64),
    ];
    for (tag, ty) in cases {
        let chars: Vec<char> = tag.chars().collect();
        assert_eq!(type_string_to_type(&chars), Some(ty));
    }
    let chars: Vec<char> = "Bool".chars().collect();
    assert_eq!(type_string_to_type(&chars), None);
}

#[test]
fn address_zero_and_large_counts_are_written_out() {
    let generated = generate_address_definition(&def(AddressKind::ControlArray, "a", "U32"), 0, Some(4294967295)).unwrap();
    assert_eq!(
        tokens(&generated),
        tokens("pub const a: ArrayRegister<u32, 4294967295> = ArrayRegister::new(0x0);")
    );
    let generated = generate_address_definition(&def(AddressKind::Control, "b", "U8"), 0xFFFFFFFF, None).unwrap();
    assert_eq!(tokens(&generated), tokens("pub const b: Register<u8> = Register::new(0xFFFFFFFF);"));
}

#[test]
fn rust_output_is_laid_out_by_the_printer() {
    let mut registers = AddressSet::new();
    registers.insert(def(AddressKind::Control, "U8Control", "U8"), 0x18002);
    registers.insert(def(AddressKind::TargetToHostFifo, "Numbers", "U16"), 0x1);
    let description = InterfaceDescription { signature: "A0613989B20F45FC6E79EB71383493E8".to_string(), registers };
    let raw = description.generate_unformatted_output().unwrap();
    let output = description.generate_rust_output().unwrap();
    assert_ne!(raw, output);
    assert_eq!(tokens(&raw), tokens(&output));
    assert!(output.contains("pub const SIGNATURE: &str = \"A0613989B20F45FC6E79EB71383493E8\";"));
    assert!(output.contains("pub const U8Control: Register<u8> = Register::new(0x18002);"));
    assert!(output.contains("pub const Numbers: ReadFifo<u16> = ReadFifo::new(0x1);"));
}

#[test]
fn element_name_that_is_no_identifier_fails_output() {
    let mut registers = AddressSet::new();
    registers.insert(def(AddressKind::Control, "fn", "U8"), 0x18002);
    let description = InterfaceDescription { signature: "S".to_string(), registers };
    assert_eq!(description.generate_rust_output(), Err(OutputError::InvalidName));
}

#[test]
fn element_name_carrying_source_text_is_refused_before_printing() {
    let mut registers = AddressSet::new();
    registers.insert(def(AddressKind::Control, "a: u8 = 0; fn f(); pub const b", "U8"), 0x18002);
    let description = InterfaceDescription { signature: "S".to_string(), registers };
    assert_eq!(description.generate_rust_output(), Err(OutputError::InvalidName));
}

#[test]
fn set_iterates_in_definition_order_whatever_the_insertion_order() {
    let mut registers = AddressSet::new();
    registers.insert(def(AddressKind::TargetToHostFifo, "b", "U8"), 1);
    registers.insert(def(AddressKind::Control, "z", "U8"), 2);
    registers.insert(def(AddressKind::HostToTargetFifo, "a", "U8"), 3);
    registers.insert(def(AddressKind::Control, "a", "U16"), 4);
    registers.insert(def(AddressKind::Control, "a", "U8"), 5);
    registers.insert(def(AddressKind::Control, "z", "U8"), 6);
    let order: Vec<(LocationDefinition, u32)> = registers.entries().to_vec();
    assert_eq!(
        order,
        vec![
            (def(AddressKind::Control, "a", "U16"), 4),
            (def(AddressKind::Control, "a", "U8"), 5),
            (def(AddressKind::Control, "z", "U8"), 6),
            (def(AddressKind::HostToTargetFifo, "a", "U8"), 3),
            (def(AddressKind::TargetToHostFifo, "b", "U8"), 1),
        ]
    );
    let generated = generate_register_module(&registers).unwrap();
    let first = generated.find("pub const a: Register<u16>").unwrap();
    let second = generated.find("pub const a: Register<u8>").unwrap();
    let third = generated.find("pub const z: Register<u8>").unwrap();
    assert!(first < second && second < third);
}

#[test]
fn one_accessor_per_scalar_array_and_fifo() {
    let mut registers = AddressSet::new();
    registers.insert(def(AddressKind::Control, "c", "U8"), 1);
    registers.insert(def(AddressKind::Indicator, "i", "I32"), 2);
    registers.insert(def(AddressKind::IndicatorArray, "arr", "Dbl"), 3);
    registers.insert(def(AddressKind::IndicatorArraySize, "arr", "Dbl"), 8);
    registers.insert(def(AddressKind::HostToTargetFifo, "out", "U64"), 0);
    registers.insert(def(AddressKind::TargetToHostFifo, "in", "I16"), 1);
    let register_module = generate_register_module(&registers).unwrap();
    let fifo_module = generate_fifo_module(&registers).unwrap();
    assert_eq!(register_module.matches("pub const ").count(), 3);
    assert_eq!(fifo_module.matches("pub const ").count(), 2);
    assert!(!register_module.contains("Fifo<"));
    assert!(!fifo_module.contains("Register<"));
}

#[test]
fn signature_is_written_as_an_escaped_string_literal() {
    let mut registers = AddressSet::new();
    registers.insert(def(AddressKind::Control, "ok", "U8"), 0x18002);
    let description = InterfaceDescription { signature: "A\tB\"C\r\\".to_string(), registers };
    let raw = description.generate_unformatted_output().unwrap();
    assert!(raw.contains("pub const SIGNATURE: &str = \"A\\tB\\\"C\\r\\\\\";"));
    let output = description.generate_rust_output().unwrap();
    assert!(output.contains("\"A\\tB\\\"C\\r\\\\\""));
}
