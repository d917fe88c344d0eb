use ni_fpga_interface::naming::{
    control_indicator_name_from_full, enum_name_to_types, extract_type_from_start, AddressKind,
};

fn chars(s: &str) -> Vec<char> {
    s.chars().collect()
}

#[test]
fn array_kind_is_preferred_over_scalar_kind() {
    let full = "NiFpga_Main_ControlArrayU8_U8ControlArray";
    let short = full.strip_prefix("NiFpga_Main_").unwrap();
    let type_part = short.split('_').next().unwrap();
    assert_eq!(extract_type_from_start(&chars(type_part)), Some(AddressKind::ControlArray));
    let (kind, ty) = enum_name_to_types(&chars("ControlArrayU8")).unwrap();
    assert_eq!(kind, AddressKind::ControlArray);
    assert_eq!(ty, chars("U8"));
}

#[test]
fn size_suffix_gives_the_size_kind() {
    let (kind, ty) = enum_name_to_types(&chars("IndicatorArraySglSize")).unwrap();
    assert_eq!(kind, AddressKind::IndicatorArraySize);
    assert_eq!(ty, chars("Sgl"));
    let (kind, ty) = enum_name_to_types(&chars("ControlU8Size")).unwrap();
    assert_eq!(kind, AddressKind::Control);
    assert_eq!(ty, chars("U8Size"));
}

#[test]
fn unknown_prefix_is_no_element() {
    assert_eq!(enum_name_to_types(&chars("ConstantU8")), None);
    assert_eq!(extract_type_from_start(&chars("")), None);
    let (kind, _) = enum_name_to_types(&chars("HostToTargetFifoU32")).unwrap();
    assert_eq!(kind, AddressKind::HostToTargetFifo);
}

#[test]
fn element_name_is_the_last_segment() {
    assert_eq!(control_indicator_name_from_full(&chars("NiFpga_Main_ControlU8_U8Control")), chars("U8Control"));
    assert_eq!(control_indicator_name_from_full(&chars("NoUnderscore")), chars("NoUnderscore"));
    assert_eq!(control_indicator_name_from_full(&chars("Trailing_")), chars(""));
}

#[test]
fn kind_helpers() {
    assert!(AddressKind::ControlArraySize.is_array());
    assert!(!AddressKind::Indicator.is_array());
    assert_eq!(AddressKind::IndicatorArray.with_size(), AddressKind::IndicatorArraySize);
    assert_eq!(AddressKind::Control.with_size(), AddressKind::Control);
    assert_eq!(AddressKind::ControlArraySize.prefix(), "ControlArray");
    assert_eq!(AddressKind::TargetToHostFifo.prefix(), "TargetToHostFifo");
    assert!(AddressKind::HostToTargetFifo.is_fifo());
}
