use jlctl::device_manager::{DeviceManager, ManagerError};
use jlctl::discovery::{
    fixup_mac_ports, list_ports, oversized_groups, FoundPort, PortRole, SerialPortInfo, SerialPortType, UsbPortInfo,
};

fn usb(name: &str, vid: u16, pid: u16, product: Option<&str>) -> SerialPortInfo {
    SerialPortInfo {
        port_name: name.to_string(),
        port_type: SerialPortType::UsbPort(UsbPortInfo {
            vid,
            pid,
            serial_number: Some("0".to_string()),
            manufacturer: Some("Architeuthis Flux".to_string()),
            product: product.map(|p| p.to_string()),
        }),
    }
}

#[test]
fn test_fixup_mac_ports() {
    let mut mac_ports = vec![
        usb("/dev/cu.usbmodem01", 44203, 4882, Some("Jumperless")),
        usb("/dev/tty.usbmodem01", 44203, 4882, Some("Jumperless")),
        usb("/dev/cu.usbmodem03", 44203, 4882, Some("Jumperless")),
        usb("/dev/tty.usbmodem03", 44203, 4882, Some("Jumperless")),
    ];

    let expected = vec![mac_ports[0].clone(), mac_ports[2].clone()];

    fixup_mac_ports(&mut mac_ports);

    assert_eq!(mac_ports, expected);
}

fn roles(found: &[FoundPort]) -> Vec<(String, PortRole)> {
    found.iter().map(|f| (f.info.port_name.clone(), f.role)).collect()
}

#[test]
fn two_ports_greater_name_is_primary() {
    let ports = vec![
        usb("/dev/ttyACM0", 0x1d50, 0xacab, Some("Jumperless")),
        usb("/dev/ttyACM1", 0x1d50, 0xacab, Some("Jumperless")),
    ];
    assert_eq!(
        roles(&list_ports(ports)),
        vec![
            ("/dev/ttyACM1".to_string(), PortRole::JumperlessPrimary),
            ("/dev/ttyACM0".to_string(), PortRole::JumperlessArduino),
        ]
    );
    let reversed = vec![
        usb("/dev/ttyACM1", 0x1d50, 0xacab, Some("Jumperless")),
        usb("/dev/ttyACM0", 0x1d50, 0xacab, Some("Jumperless")),
    ];
    assert_eq!(
        roles(&list_ports(reversed)),
        vec![
            ("/dev/ttyACM1".to_string(), PortRole::JumperlessPrimary),
            ("/dev/ttyACM0".to_string(), PortRole::JumperlessArduino),
        ]
    );
}

#[test]
fn single_port_is_primary() {
    let ports = vec![usb("COM3", 1, 2, Some("Jumperless"))];
    assert_eq!(roles(&list_ports(ports)), vec![("COM3".to_string(), PortRole::JumperlessPrimary)]);
}

#[test]
fn alias_prefixed_port_survives_dedup() {
    let ports = vec![
        usb("/dev/tty.usbmodem01", 5, 6, Some("Jumperless")),
        usb("/dev/cu.usbmodem01", 5, 6, Some("Jumperless")),
    ];
    assert_eq!(
        roles(&list_ports(ports)),
        vec![("/dev/cu.usbmodem01".to_string(), PortRole::JumperlessPrimary)]
    );
}

#[test]
fn other_devices_and_anomalies() {
    let ports = vec![
        usb("/dev/ttyUSB0", 9, 9, Some("Other")),
        SerialPortInfo { port_name: "/dev/ttyS0".to_string(), port_type: SerialPortType::PciPort },
        usb("/dev/ttyACM0", 1, 1, Some("Jumperless")),
        usb("/dev/ttyACM1", 1, 1, Some("Jumperless")),
        usb("/dev/ttyACM2", 1, 1, Some("Jumperless")),
        usb("/dev/ttyUSB1", 9, 9, None),
    ];
    assert_eq!(
        roles(&list_ports(ports)),
        vec![
            ("/dev/ttyUSB0".to_string(), PortRole::Unknown),
            ("/dev/ttyUSB1".to_string(), PortRole::Unknown),
        ]
    );
}

#[test]
fn port_path_fixed_or_discovered() {
    let fixed: DeviceManager<u8> = DeviceManager::new(Some("/dev/x".to_string()));
    assert_eq!(fixed.port_path(vec![]), Ok("/dev/x".to_string()));
    let dynamic: DeviceManager<u8> = DeviceManager::new(None);
    assert_eq!(dynamic.port_path(vec![]), Err(ManagerError::NoMatchingPort));
    let ports = vec![
        usb("/dev/ttyUSB0", 9, 9, Some("Other")),
        usb("/dev/ttyACM3", 1, 1, Some("Jumperless")),
    ];
    assert_eq!(dynamic.port_path(ports), Ok("/dev/ttyACM3".to_string()));
    let found = list_ports(vec![usb("/dev/ttyACM3", 0x1d50, 0xacab, Some("Jumperless"))]);
    assert_eq!(found[0].usb_id(), (0x1d50, 0xacab));
}

#[test]
fn oversized_breadboard_groups_are_named() {
    let ports = vec![
        usb("/dev/ttyUSB0", 9, 9, Some("Other")),
        usb("/dev/ttyUSB1", 9, 9, Some("Other")),
        usb("/dev/ttyUSB2", 9, 9, Some("Other")),
        usb("/dev/ttyACM0", 1, 1, Some("Jumperless")),
        usb("/dev/ttyACM1", 1, 1, Some("Jumperless")),
        usb("/dev/ttyACM2", 1, 1, Some("Jumperless")),
        usb("/dev/cu.a", 2, 2, Some("Jumperless")),
        usb("/dev/tty.a", 2, 2, Some("Jumperless")),
        usb("/dev/cu.b", 2, 2, Some("Jumperless")),
    ];
    assert_eq!(oversized_groups(&ports), vec![(1, 1)]);
}

#[test]
fn mac_pairs_among_other_groups() {
    let ports = vec![
        usb("/dev/cu.usbmodem01", 44203, 4882, Some("Jumperless")),
        usb("/dev/ttyUSB0", 9, 9, Some("Other")),
        usb("/dev/tty.usbmodem01", 44203, 4882, Some("Jumperless")),
        usb("/dev/cu.usbmodem03", 44203, 4882, Some("Jumperless")),
        usb("/dev/tty.usbmodem03", 44203, 4882, Some("Jumperless")),
    ];
    assert_eq!(
        roles(&list_ports(ports)),
        vec![
            ("/dev/cu.usbmodem03".to_string(), PortRole::JumperlessPrimary),
            ("/dev/cu.usbmodem01".to_string(), PortRole::JumperlessArduino),
            ("/dev/ttyUSB0".to_string(), PortRole::Unknown),
        ]
    );
}
