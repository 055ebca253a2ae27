use ev_control::ports::{
    connecting_message, connection_failed_message, find_serial_port, pick_serial_port, port_list_line,
    scan_error_message, scan_for_board, PortInfo, UsbInfo,
};

fn usb(name: &str, vid: u16, pid: u16, product: Option<&str>) -> PortInfo {
    PortInfo { name: name.to_string(), usb: Some(UsbInfo { vid, pid, product: product.map(|p| p.to_string()) }) }
}

fn plain(name: &str) -> PortInfo {
    PortInfo { name: name.to_string(), usb: None }
}

#[test]
fn board_scan_finds_cp2102() {
    let ports = vec![plain("COM1"), usb("COM3", 0x0403, 0x6001, Some("FT232")), usb("COM4", 0x10C4, 0xEA60, None), usb("COM5", 0x1A86, 1, None)];
    let scan = scan_for_board(&ports);
    assert_eq!(scan.chosen, Some(2));
    assert_eq!(
        scan.messages,
        vec![
            "Found 4 serial ports".to_string(),
            "Port: COM3 (FT232)".to_string(),
            "Port: COM4 (Unknown)".to_string(),
            "Found ESP32 on COM4".to_string(),
        ]
    );
}

#[test]
fn board_scan_finds_ch340_and_reports_absence() {
    let ports = vec![usb("/dev/ttyUSB0", 0x1A86, 0x7523, Some("USB Serial"))];
    assert_eq!(scan_for_board(&ports).chosen, Some(0));
    let ports = vec![usb("COM3", 0x10C4, 0x0001, None), plain("COM1")];
    let scan = scan_for_board(&ports);
    assert_eq!(scan.chosen, None);
    assert_eq!(
        scan.messages,
        vec!["Found 2 serial ports".to_string(), "Port: COM3 (Unknown)".to_string(), "No ESP32 found".to_string()]
    );
    let scan = scan_for_board(&Vec::new());
    assert_eq!(scan.messages, vec!["Found 0 serial ports".to_string(), "No ESP32 found".to_string()]);
}

#[test]
fn console_prefers_bridges_then_usb_names_then_first() {
    let ports = vec![plain("COM1"), plain("/dev/ttyACM0"), usb("COM7", 0x10C4, 0xEA60, None)];
    assert_eq!(find_serial_port(&ports).as_deref(), Some("/dev/ttyACM0"));
    let ports = vec![plain("COM1"), plain("COM2")];
    assert_eq!(find_serial_port(&ports).as_deref(), Some("COM1"));
    assert_eq!(find_serial_port(&Vec::new()), None);
}

#[test]
fn console_matches_names_without_regard_to_case() {
    let ports = vec![plain("COM1"), plain("/dev/TTYUSB3")];
    assert_eq!(find_serial_port(&ports).as_deref(), Some("/dev/TTYUSB3"));
    let lower = vec!["com1".to_string(), "/dev/ttyusb3".to_string()];
    assert_eq!(pick_serial_port(&ports, &lower), Some(1));
    let unchanged = vec!["COM1".to_string(), "/dev/TTYUSB3".to_string()];
    assert_eq!(pick_serial_port(&ports, &unchanged), Some(0));
}

#[test]
fn port_list_lines() {
    assert_eq!(port_list_line(&usb("COM4", 0x10C4, 0xEA60, None)), "  COM4 - USB 10C4:EA60");
    assert_eq!(port_list_line(&usb("COM5", 0x1A86, 0x7, None)), "  COM5 - USB 1A86:0007");
    assert_eq!(port_list_line(&plain("/dev/ttyS0")), "  /dev/ttyS0 - Unknown");
}

#[test]
fn connection_log_lines() {
    assert_eq!(connecting_message("COM4"), "Connecting to COM4...");
    assert_eq!(connection_failed_message("denied"), "Connection failed: denied");
    assert_eq!(scan_error_message("no udev"), "Error scanning ports: no udev");
}
