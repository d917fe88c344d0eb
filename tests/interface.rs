use std::path::PathBuf;

use ni_fpga_interface::interface::FpgaCInterface;

#[test]
fn lib_test_constructs_from_custom_header_relative_path() {
    let fpga_header = "./NiFpga_fpga.h";
    let fpga_interface = FpgaCInterface::from_custom_header(fpga_header).unwrap();
    assert_eq!(PathBuf::from(&fpga_interface.common_c), PathBuf::from("./NiFpga.c"));
    assert_eq!(fpga_interface.custom_c, None);
    assert_eq!(PathBuf::from(&fpga_interface.custom_h), PathBuf::from("./NiFpga_fpga.h"));
    assert_eq!(fpga_interface.interface_name, "fpga");
}

#[test]
fn lib_test_constructs_from_custom_header_absolute_path() {
    let fpga_header = "C:\\fpga\\NiFpga_fpga.h";
    let fpga_interface = FpgaCInterface::from_custom_header(fpga_header).unwrap();
    assert_eq!(PathBuf::from(&fpga_interface.common_c), PathBuf::from("C:\\fpga\\NiFpga.c"));
    assert_eq!(fpga_interface.custom_c, None);
    assert_eq!(PathBuf::from(&fpga_interface.custom_h), PathBuf::from("C:\\fpga\\NiFpga_fpga.h"));
    assert_eq!(fpga_interface.interface_name, "fpga");
}

#[test]
fn build_test_constructs_from_custom_header_relative_path() {
    let fpga_header = "./NiFpga_fpga.h";
    let fpga_interface = FpgaCInterface::from_custom_header(fpga_header).unwrap();
    assert_eq!(PathBuf::from(&fpga_interface.common_c), PathBuf::from("./NiFpga.c"));
    assert_eq!(PathBuf::from(&fpga_interface.common_h), PathBuf::from("./NiFpga.h"));
    assert_eq!(fpga_interface.custom_c, None);
    assert_eq!(PathBuf::from(&fpga_interface.custom_h), PathBuf::from("./NiFpga_fpga.h"));
    assert_eq!(fpga_interface.interface_name, "fpga");
}

#[test]
fn build_test_constructs_from_custom_header_absolute_path() {
    let fpga_header = "C:\\fpga\\NiFpga_fpga.h";
    let fpga_interface = FpgaCInterface::from_custom_header(fpga_header).unwrap();
    assert_eq!(PathBuf::from(&fpga_interface.common_c), PathBuf::from("C:\\fpga\\NiFpga.c"));
    assert_eq!(PathBuf::from(&fpga_interface.common_h), PathBuf::from("C:\\fpga\\NiFpga.h"));
    assert_eq!(fpga_interface.custom_c, None);
    assert_eq!(PathBuf::from(&fpga_interface.custom_h), PathBuf::from("C:\\fpga\\NiFpga_fpga.h"));
    assert_eq!(fpga_interface.interface_name, "fpga");
}

#[test]
fn mod_test_constructs_from_custom_header_relative_path() {
    let fpga_header = "./NiFpga_fpga.h";
    let fpga_interface = FpgaCInterface::from_custom_header(fpga_header).unwrap();
    assert_eq!(PathBuf::from(&fpga_interface.common_c), PathBuf::from("./NiFpga.c"));
    assert_eq!(PathBuf::from(&fpga_interface.common_h), PathBuf::from("./NiFpga.h"));
    assert_eq!(fpga_interface.custom_c, None);
    assert_eq!(PathBuf::from(&fpga_interface.custom_h), PathBuf::from("./NiFpga_fpga.h"));
    assert_eq!(fpga_interface.interface_name, "fpga");
}

#[test]
fn mod_test_constructs_from_custom_header_absolute_path() {
    let fpga_header = "C:\\fpga\\NiFpga_fpga.h";
    let fpga_interface = FpgaCInterface::from_custom_header(fpga_header).unwrap();
    assert_eq!(PathBuf::from(&fpga_interface.common_c), PathBuf::from("C:\\fpga\\NiFpga.c"));
    assert_eq!(PathBuf::from(&fpga_interface.common_h), PathBuf::from("C:\\fpga\\NiFpga.h"));
    assert_eq!(fpga_interface.custom_c, None);
    assert_eq!(PathBuf::from(&fpga_interface.custom_h), PathBuf::from("C:\\fpga\\NiFpga_fpga.h"));
    assert_eq!(fpga_interface.interface_name, "fpga");
}

#[test]
fn header_without_folder_and_custom_source_and_sysroot() {
    let mut fpga_interface = FpgaCInterface::from_custom_header("NiFpga_Main.h").unwrap();
    assert_eq!(fpga_interface.common_c, "NiFpga.c");
    assert_eq!(fpga_interface.interface_name, "Main");
    assert_eq!(fpga_interface.custom_c_candidate(), "NiFpga_Main.c");
    fpga_interface.use_custom_c();
    assert_eq!(fpga_interface.custom_c.as_deref(), Some("NiFpga_Main.c"));
    assert_eq!(fpga_interface.c_sources(), vec!["NiFpga.c".to_string(), "NiFpga_Main.c".to_string()]);
    assert_eq!(fpga_interface.sysroot_flag(), None);
    fpga_interface.sysroot("/opt/sysroots/core2-64");
    assert_eq!(fpga_interface.sysroot_flag().as_deref(), Some("--sysroot=/opt/sysroots/core2-64"));
    assert_eq!(fpga_interface.output_file_name(), "NiFpga_Main.rs");
}

#[test]
fn header_not_named_after_the_convention_is_refused() {
    assert!(FpgaCInterface::from_custom_header("./fpga.h").is_none());
    assert!(FpgaCInterface::from_custom_header("./NiFpga_dir/main.h").is_none());
}
