use termlight::config::{data_bits_from, parity_from, stop_bits_from, DataBits, Parity, StopBits};
use termlight::errors::{ConfigParam, SerialError};
use termlight::session::SerialState;

#[test]
fn open_then_close_leaves_session_reset() {
    let mut state = SerialState::new();
    let cfg = state
        .begin_open("/dev/ttyUSB0", 9600, 8, 1, "None")
        .unwrap();
    assert_eq!(cfg.port_name, "/dev/ttyUSB0");
    assert_eq!(cfg.baud_rate, 9600);
    assert_eq!(cfg.data_bits, DataBits::Eight);
    assert_eq!(cfg.stop_bits, StopBits::One);
    assert_eq!(cfg.parity, Parity::NoParity);
    state.complete_open();
    assert!(state.is_connected());
    assert!(state.is_open());
    assert!(!state.stop_requested());
    let closed = state.close_port();
    assert!(closed.is_ok());
    assert!(!state.is_connected());
    assert!(!state.is_open());
    assert!(state.stop_requested());
}

#[test]
fn open_while_open_fails_and_alters_nothing() {
    let mut state = SerialState::new();
    state.begin_open("COM3", 115200, 8, 1, "Even").unwrap();
    state.complete_open();
    let again = state.begin_open("COM4", 9600, 8, 1, "None");
    assert!(matches!(again, Err(SerialError::AlreadyOpen)));
    assert!(state.is_connected());
    assert!(state.is_open());
    assert!(!state.stop_requested());
}

#[test]
fn close_on_unopened_session_is_a_noop() {
    let mut state = SerialState::new();
    assert!(state.close_port().is_ok());
    assert!(!state.is_connected());
    assert!(!state.is_open());
    assert!(!state.stop_requested());
    assert!(state.close_port().is_ok());
    assert!(!state.stop_requested());
}

#[test]
fn invalid_line_params_fail_without_device_acquisition() {
    // A fake device backend: acquisition happens only after begin_open
    // succeeds, so the flag records whether it was attempted.
    let mut acquisition_attempted = false;
    let state = SerialState::new();

    for bad_bits in [0u8, 4, 9, 255] {
        match state.begin_open("COM1", 9600, bad_bits, 1, "None") {
            Ok(_) => {
                acquisition_attempted = true;
            }
            Err(e) => {
                assert!(matches!(e, SerialError::InvalidConfig(ConfigParam::DataBits)));
            }
        }
    }
    for bad_stop in [0u8, 3, 255] {
        match state.begin_open("COM1", 9600, 8, bad_stop, "None") {
            Ok(_) => {
                acquisition_attempted = true;
            }
            Err(e) => {
                assert!(matches!(e, SerialError::InvalidConfig(ConfigParam::StopBits)));
            }
        }
    }
    match state.begin_open("COM1", 9600, 8, 1, "even") {
        Ok(_) => {
            acquisition_attempted = true;
        }
        Err(e) => {
            assert!(matches!(e, SerialError::InvalidConfig(ConfigParam::Parity)));
        }
    }
    assert!(!acquisition_attempted);
    assert!(!state.is_open());
}

#[test]
fn send_on_closed_session_fails_and_on_open_forwards_bytes() {
    let mut state = SerialState::new();
    let closed = state.send_data(vec![0x01, 0x02]);
    assert!(matches!(closed, Err(SerialError::PortNotOpen)));

    state.begin_open("COM1", 9600, 8, 2, "Odd").unwrap();
    state.complete_open();
    let sent = state.send_data(vec![0xAA, 0xBB, 0xCC]);
    assert_eq!(sent.unwrap(), vec![0xAA, 0xBB, 0xCC]);
}

#[test]
fn error_messages_match_their_variants() {
    assert_eq!(SerialError::AlreadyOpen.message(), "Port is already open");
    assert_eq!(
        SerialError::InvalidConfig(ConfigParam::DataBits).message(),
        "Invalid data bits"
    );
    assert_eq!(
        SerialError::InvalidConfig(ConfigParam::StopBits).message(),
        "Invalid stop bits (only 1 and 2 supported)"
    );
    assert_eq!(
        SerialError::InvalidConfig(ConfigParam::Parity).message(),
        "Invalid parity"
    );
    assert_eq!(SerialError::PortNotOpen.message(), "Port is not open");
    assert_eq!(
        SerialError::DeviceError(String::from("Failed to open port: busy")).message(),
        "Failed to open port: busy"
    );
    assert_eq!(
        SerialError::WriteError(String::from("Failed to flush port: gone")).message(),
        "Failed to flush port: gone"
    );
}

#[test]
fn config_mappings_cover_the_legal_sets() {
    assert_eq!(data_bits_from(5), Some(DataBits::Five));
    assert_eq!(data_bits_from(6), Some(DataBits::Six));
    assert_eq!(data_bits_from(7), Some(DataBits::Seven));
    assert_eq!(data_bits_from(8), Some(DataBits::Eight));
    assert_eq!(data_bits_from(9), None);
    assert_eq!(stop_bits_from(1), Some(StopBits::One));
    assert_eq!(stop_bits_from(2), Some(StopBits::Two));
    assert_eq!(stop_bits_from(0), None);
    assert_eq!(parity_from("None"), Some(Parity::NoParity));
    assert_eq!(parity_from("Even"), Some(Parity::Even));
    assert_eq!(parity_from("Odd"), Some(Parity::Odd));
    assert_eq!(parity_from("Mark"), None);
    assert_eq!(DataBits::Eight.count(), 8);
    assert_eq!(StopBits::Two.count(), 2);
}
