use std::time::Duration;

use ni_fpga_interface::error::{to_fpga_result, FPGAError, NiFpgaStatus};
use ni_fpga_interface::session::{Session, SessionOptions};
use ni_fpga_interface::types::{FpgaBool, FpgaTimeoutMs, IrqSelection, IrqWaitResult};

#[test]
fn test_session_options_default() {
    let options = SessionOptions::default();
    assert_eq!(options.run_on_open, true);
    assert_eq!(options.reset_on_close, true);
}

#[test]
fn test_session_options_get_open_attribute_run() {
    let mut options = SessionOptions::default();
    options.run_on_open = true;
    assert_eq!(options.open_attribute(), 0);
}

#[test]
fn test_session_options_get_open_attribute_no_run() {
    let mut options = SessionOptions::default();
    options.run_on_open = false;
    assert_eq!(options.open_attribute(), 1);
}

#[test]
fn test_session_options_get_close_attribute_reset() {
    let mut options = SessionOptions::default();
    options.reset_on_close = true;
    assert_eq!(options.close_attribute(), 0);
}

#[test]
fn test_session_options_get_close_attribute_no_reset() {
    let mut options = SessionOptions::default();
    options.reset_on_close = false;
    assert_eq!(options.close_attribute(), 1);
}

#[test]
fn session_follows_changed_options() {
    let mut session = Session::with_handle(7, &SessionOptions::default());
    assert_eq!(session.close_attribute(), 0);
    session.set_options(&SessionOptions { reset_on_close: false, ..Default::default() });
    assert_eq!(session.close_attribute(), 1);
    assert_eq!(session.handle, 7);
}

#[test]
fn test_inifinite_timeout_representation() {
    assert_eq!(FpgaTimeoutMs::infinite(), FpgaTimeoutMs(0xFFFFFFFF));
}

#[test]
fn test_timeout_conversion_optional() {
    assert_eq!(FpgaTimeoutMs::from_millis(None), FpgaTimeoutMs(0xFFFFFFFF));
    assert_eq!(
        FpgaTimeoutMs::from_millis(Some(Duration::from_millis(100).as_millis())),
        FpgaTimeoutMs(100)
    );
}

#[test]
fn test_fpga_bool_into_bool() {
    let bool_true: bool = FpgaBool::true_value().into();
    let bool_false: bool = FpgaBool::false_value().into();
    assert_eq!(bool_true, true);
    assert_eq!(bool_false, false);
}

#[test]
fn test_bool_into_fpga_bool() {
    let fpga_bool_true: FpgaBool = true.into();
    let fpga_bool_false: FpgaBool = false.into();
    assert_eq!(fpga_bool_true, FpgaBool::true_value());
    assert_eq!(fpga_bool_false, FpgaBool::false_value());
}

#[test]
fn test_irq_selection_new() {
    let irq = IrqSelection::new(20);
    assert_eq!(irq.0, 1 << 20);
}

#[test]
fn test_add_irq_to_selection() {
    let mut selection = IrqSelection::new(0);
    selection.add_irq(2);
    assert_eq!(selection.0, 0b101);
}

#[test]
fn test_check_if_irq_is_set() {
    let mut selection = IrqSelection::new(0);
    selection.add_irq(2);
    assert_eq!(selection.is_irq_set(2), true);
    assert_eq!(selection.is_irq_set(1), false);
}

#[test]
fn iterate_over_set_values() {
    let mut selection = IrqSelection::new(0);
    selection.add_irq(2);
    let set_values = selection.iter();
    assert_eq!(set_values, vec![0, 2])
}

#[test]
fn test_default() {
    let selection = IrqSelection::default();
    assert_eq!(selection.0, 0);
}

#[test]
fn test_irq_selection_display() {
    let mut selection = IrqSelection::new(0);
    selection.add_irq(2);
    assert_eq!(selection.to_debug_string(), "IrqSelection[0, 2]");
}

#[test]
fn irq_selection_from_raw_bits_and_two_digit_lines() {
    let selection = IrqSelection::from(0x8000_0401u32);
    assert_eq!(selection.iter(), vec![0, 10, 31]);
    assert_eq!(selection.to_debug_string(), "IrqSelection[0, 10, 31]");
    assert_eq!(IrqSelection::none().to_debug_string(), "IrqSelection[]");
    assert_eq!(IrqWaitResult::IrqsAsserted(selection), IrqWaitResult::IrqsAsserted(IrqSelection(0x8000_0401)));
}

#[test]
fn status_results() {
    assert_eq!(to_fpga_result(5u32, NiFpgaStatus(0)), Ok(5));
    assert_eq!(to_fpga_result(5u32, NiFpgaStatus(1)), Ok(5));
    assert_eq!(
        to_fpga_result(5u32, NiFpgaStatus(-52003)),
        Err(FPGAError::InternalError(NiFpgaStatus(-52003)))
    );
    assert_eq!(FPGAError::from_code(-61003), FPGAError::InternalError(NiFpgaStatus(-61003)));
    assert_eq!(FPGAError::from(NiFpgaStatus(-1)), FPGAError::InternalError(NiFpgaStatus(-1)));
    assert!(NiFpgaStatus(-1).is_error());
    assert!(!NiFpgaStatus(0).is_error());
}

#[test]
fn status_descriptions() {
    assert_eq!(NiFpgaStatus(0).get_error_description(), "No errors or warnings.");
    assert_eq!(NiFpgaStatus(-61003).get_error_description(), "The FPGA is already running.");
    assert_eq!(NiFpgaStatus(12345).get_error_description(), "Unknown error code");
}

#[test]
fn wait_outcome_follows_the_timeout_flag() {
    assert_eq!(IrqWaitResult::from_wait(IrqSelection(4), FpgaBool(1)), IrqWaitResult::TimedOut);
    assert_eq!(
        IrqWaitResult::from_wait(IrqSelection(4), FpgaBool(0)),
        IrqWaitResult::IrqsAsserted(IrqSelection(4))
    );
}

#[test]
fn only_a_true_flag_means_timed_out() {
    assert_eq!(
        IrqWaitResult::from_wait(IrqSelection(1), FpgaBool(2)),
        IrqWaitResult::IrqsAsserted(IrqSelection(1))
    );
}
