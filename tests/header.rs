use ni_fpga_interface::header::header_without_includes;

#[test]
fn include_lines_are_dropped_and_preamble_added() {
    let content = "#include \"NiFpga.h\"\n/* keep #include here */\n  #include <x.h>\nconst int a = 1;\r\nlast";
    let prepared = header_without_includes(content);
    assert!(prepared.starts_with("\ntypedef unsigned char uint8_t;\n"));
    assert!(prepared.contains("} NiFpga_FxpTypeInfo;\n\n"));
    assert!(prepared.ends_with("} NiFpga_FxpTypeInfo;\n\n/* keep #include here */\n  #include <x.h>\nconst int a = 1;\nlast\n"));
    assert!(!prepared.contains("NiFpga.h"));
}

#[test]
fn empty_header_gives_the_preamble_alone() {
    let prepared = header_without_includes("");
    assert!(prepared.ends_with("} NiFpga_FxpTypeInfo;\n\n"));
    assert_eq!(header_without_includes("\n"), format!("{}\n", prepared));
}
