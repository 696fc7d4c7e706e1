use lidart::drive::{command_packet, connection_candidates, make_serial_packet, parse_drive_command, DriveCommand, PortKind};

#[test]
fn packet_frames_speeds_with_xor_check_byte() {
    assert_eq!(make_serial_packet(255, 127), [0x10, 0x02, 0x02, 255, 127, 0x80, 0x10, 0x03]);
    assert_eq!(make_serial_packet(0, 0), [0x10, 0x02, 0x02, 0, 0, 0, 0x10, 0x03]);
    assert_eq!(make_serial_packet(0x5a, 0x0f), [0x10, 0x02, 0x02, 0x5a, 0x0f, 0x55, 0x10, 0x03]);
}

#[test]
fn packet_check_byte_is_xor_of_speeds() {
    for left in [0u8, 1, 17, 127, 200, 255] {
        for right in [0u8, 3, 64, 127, 255] {
            let p = make_serial_packet(left, right);
            assert_eq!(p[5], p[3] ^ p[4]);
        }
    }
}

#[test]
fn drive_commands_map_to_wheel_speeds() {
    assert_eq!(command_packet("FORWARD"), Some(make_serial_packet(255, 255)));
    assert_eq!(command_packet("BACK"), Some(make_serial_packet(127, 127)));
    assert_eq!(command_packet("LEFT"), Some(make_serial_packet(127, 255)));
    assert_eq!(command_packet("RIGHT"), Some(make_serial_packet(255, 127)));
    assert_eq!(command_packet("STOP"), Some(make_serial_packet(0, 0)));
}

#[test]
fn unknown_messages_are_ignored() {
    assert_eq!(command_packet(""), None);
    assert_eq!(command_packet("forward"), None);
    assert_eq!(command_packet("FORWARDS"), None);
    assert_eq!(command_packet("STO"), None);
    assert_eq!(command_packet("DETECT"), None);
    assert_eq!(command_packet(" STOP"), None);
}

#[test]
fn parse_names_each_command() {
    assert_eq!(parse_drive_command("FORWARD"), Some(DriveCommand::Forward));
    assert_eq!(parse_drive_command("BACK"), Some(DriveCommand::Back));
    assert_eq!(parse_drive_command("LEFT"), Some(DriveCommand::Left));
    assert_eq!(parse_drive_command("RIGHT"), Some(DriveCommand::Right));
    assert_eq!(parse_drive_command("STOP"), Some(DriveCommand::Stop));
    assert_eq!(parse_drive_command("LEFTT"), None);
    assert_eq!(DriveCommand::Left.wheel_speeds(), (127, 255));
    assert_eq!(DriveCommand::Stop.packet(), make_serial_packet(0, 0));
}

#[test]
fn candidates_are_usb_ports_in_listing_order() {
    let kinds = [PortKind::Pci, PortKind::Usb, PortKind::Bluetooth, PortKind::Usb, PortKind::Unknown, PortKind::Usb];
    assert_eq!(connection_candidates(&kinds), vec![1, 3, 5]);
    assert_eq!(connection_candidates(&[]), Vec::<usize>::new());
    assert_eq!(connection_candidates(&[PortKind::Pci, PortKind::Bluetooth]), Vec::<usize>::new());
}
