use boringos::drivers::keyboard::{KeyboardHandler, Keypair, PS2};
use boringos::drivers::pci::headers::{
    build_header, get_device_description, header_type_is_standard, is_valid, CommonHeader,
    DeviceClass, Header, HeaderType, PciHeader,
};
use boringos::math::{factorialf32, factorialf64};
use boringos::drivers::pci::{config_address, pci_iter, PciDeviceFunctionIterator};
use boringos::interrupts::pic::{ChainedPics, EndOfInterrupt, Pic};
use boringos::interrupts::pit::{
    initialize, irq_handler, second_trigger, Pit, PitHandler, TimerPhase,
};
use boringos::memory::heap::{align_down, align_up, check_power_of_two};

#[test]
fn align_down_rounds_to_a_multiple() {
    assert_eq!(align_down(0x1234, 0x1000), 0x1000);
    assert_eq!(align_down(0x1000, 0x1000), 0x1000);
    assert_eq!(align_down(0xfff, 0x1000), 0);
    assert_eq!(align_down(0x1234, 1), 0x1234);
    assert_eq!(align_down(0x1235, 2), 0x1234);
    assert_eq!(align_down(0x1234, 0), 0x1234);
    assert_eq!(align_down(usize::MAX, 1 << (usize::BITS - 1)), 1 << (usize::BITS - 1));
    assert_eq!(align_down(0, 8), 0);
}

#[test]
fn align_up_rounds_to_a_multiple() {
    assert_eq!(align_up(0x1234, 0x1000), 0x2000);
    assert_eq!(align_up(0x1000, 0x1000), 0x1000);
    assert_eq!(align_up(0x1001, 0x1000), 0x2000);
    assert_eq!(align_up(1, 1), 1);
    assert_eq!(align_up(0, 8), 0);
    assert_eq!(align_up(usize::MAX - 7, 8), usize::MAX - 7);
}

#[test]
fn powers_of_two_have_one_bit() {
    assert!(!check_power_of_two(0));
    assert!(check_power_of_two(1));
    assert!(check_power_of_two(2));
    assert!(!check_power_of_two(3));
    assert!(check_power_of_two(1 << (usize::BITS - 1)));
    assert!(!check_power_of_two(usize::MAX));
    for n in 0usize..1000 {
        assert_eq!(check_power_of_two(n), n.is_power_of_two());
    }
}

#[test]
fn pci_vendor_of_all_ones_is_no_device() {
    assert!(is_valid(0x1234_8086));
    assert!(!is_valid(0x1234_ffff));
    assert!(!is_valid(0xffff_ffff));
    assert!(is_valid(0xffff_0000));
}

#[test]
fn pci_device_class_by_code() {
    assert_eq!(DeviceClass::from_u8(0x00), DeviceClass::Legacy);
    assert_eq!(DeviceClass::from_u8(0x02), DeviceClass::Network);
    assert_eq!(DeviceClass::from_u8(0x06), DeviceClass::BridgeDevice);
    assert_eq!(DeviceClass::from_u8(0x11), DeviceClass::DataAndSignalProcessing);
    assert_eq!(DeviceClass::from_u8(0x12), DeviceClass::Unknown);
    assert_eq!(DeviceClass::from_u8(0xff), DeviceClass::Unknown);
    assert_eq!(HeaderType::from_u8(0), HeaderType::Standard);
    assert_eq!(HeaderType::from_u8(1), HeaderType::Pci2PciBridge);
    assert_eq!(HeaderType::from_u8(2), HeaderType::CardBusBridge);
    assert_eq!(HeaderType::from_u8(3), HeaderType::Unknown);
}

#[test]
fn pci_header_is_read_from_the_registers() {
    let mut registers = [0u32; 18];
    registers[0] = 0x100e_8086;
    registers[1] = 0x0010_0007;
    registers[2] = 0x0200_0003;
    registers[3] = 0xaa80_4010;
    for i in 0..6 {
        registers[4 + i] = 0xf000_0000 + i as u32;
    }
    registers[10] = 0xcafe_babe;
    registers[11] = 0x1100_1af4;
    registers[12] = 0xfeb0_0000;
    registers[13] = 0x0000_00dc;
    registers[15] = 0x4433_010b;
    let header = Header::new(registers);
    assert_eq!((header.vendor_id, header.device_id), (0x8086, 0x100e));
    assert_eq!((header.command, header.status), (0x0007, 0x0010));
    assert_eq!(
        (header.revision_id, header.prog_if, header.subclass, header.class_code),
        (0x03, 0x00, 0x00, 0x02)
    );
    assert_eq!(
        (header.cache_line_size, header.latency_timer, header.header_type, header.bist),
        (0x10, 0x40, 0x80, 0xaa)
    );
    assert_eq!(header.base_addresses, [0xf000_0000, 0xf000_0001, 0xf000_0002, 0xf000_0003, 0xf000_0004, 0xf000_0005]);
    assert_eq!(header.cardbus_pointer, 0xcafe_babe);
    assert_eq!((header.subsystem_vendor_id, header.subsystem_id), (0x1af4, 0x1100));
    assert_eq!(header.expansion_rom_address, 0xfeb0_0000);
    assert_eq!(header.capabilities_pointer, 0xdc);
    assert_eq!(
        (header.interrupt_line, header.interrupt_pin, header.min_grant, header.max_latency),
        (0x0b, 0x01, 0x33, 0x44)
    );
    assert_eq!(header.device_class(), DeviceClass::Network);
    assert_eq!(header.header_type(), HeaderType::Standard);
    assert!(header.is_multifunction());
    registers[3] = 0x0000_0000;
    assert!(!Header::new(registers).is_multifunction());
}

#[test]
fn pci_common_header_is_read_from_the_registers() {
    let header = CommonHeader::new(&[0x100e_8086, 0x0010_0007, 0x0604_0003, 0xaa81_4010]);
    assert_eq!((header.vendor_id, header.device_id), (0x8086, 0x100e));
    assert_eq!((header.command, header.status), (0x0007, 0x0010));
    assert_eq!((header.subclass, header.class_code), (0x04, 0x06));
    assert_eq!(header.header_type, 0x81);
    assert_eq!(header.header_type(), HeaderType::Pci2PciBridge);
    assert!(header.is_multifunction());
    let header = CommonHeader::new(&[0, 0, 0, 0x007f_0000]);
    assert_eq!(header.header_type(), HeaderType::Unknown);
    assert!(!header.is_multifunction());
}

#[test]
fn pci_config_address_packs_its_parts() {
    assert_eq!(config_address(0, 0, 0, 0), 0x8000_0000);
    assert_eq!(config_address(1, 2, 3, 4), 0x8001_1304);
    assert_eq!(config_address(255, 31, 7, 255), 0x80ff_fffc);
    assert_eq!(config_address(0, 0, 0, 7), 0x8000_0004);
}

#[test]
fn pci_walk_visits_function_zero_of_every_device() {
    let mut place = pci_iter();
    let mut count = 0;
    while !place.done {
        assert_eq!(place.function, 0);
        assert_eq!((place.bus as usize * 32 + place.device as usize), count);
        assert!(!place.advance(None));
        count += 1;
    }
    assert_eq!(count, 256 * 32);
    // At its end the walk stays at its end.
    let end = place;
    place.update_state();
    assert_eq!(place, end);
}

#[test]
fn pci_walk_visits_all_functions_of_a_multifunction_device() {
    let mut place = pci_iter();
    assert!(place.advance(Some(false)));
    assert_eq!((place.bus, place.device, place.function), (0, 1, 0));
    assert!(place.advance(Some(true)));
    for function in 1..8 {
        assert_eq!((place.bus, place.device, place.function), (0, 1, function));
        assert!(place.multifunction);
        // What the other functions say of themselves does not count.
        place.advance(if function % 2 == 0 { Some(false) } else { None });
    }
    assert_eq!((place.bus, place.device, place.function), (0, 2, 0));
    assert!(!place.multifunction);
    let mut place = PciDeviceFunctionIterator {
        done: false,
        bus: 3,
        device: 31,
        multifunction: true,
        function: 7,
    };
    place.update_state();
    assert_eq!((place.bus, place.device, place.function, place.multifunction), (4, 0, 0, false));
    let mut place = PciDeviceFunctionIterator {
        done: false,
        bus: 255,
        device: 31,
        multifunction: false,
        function: 0,
    };
    place.update_state();
    assert!(place.done);
}

#[test]
fn pit_is_programmed_with_the_divisor() {
    let mut pit = Pit::new();
    assert_eq!(pit.divisor(), 0);
    let phase = pit.set_timer_phase(100);
    assert_eq!(pit.divisor(), 11931);
    assert_eq!(phase, TimerPhase { command: 0x36, low: 0x9b, high: 0x2e });
    assert_eq!(initialize(&mut pit), TimerPhase { command: 0x36, low: 0xa9, high: 0x04 });
    assert_eq!(pit.divisor(), 1193);
    pit.set_timer_phase(1);
    assert_eq!(pit.divisor(), 1193181);
    pit.set_timer_phase(u32::MAX);
    assert_eq!(pit.divisor(), 0);
}

#[test]
fn pit_handler_triggers_every_so_many_ticks() {
    let mut handler = PitHandler::new(3);
    let mut triggers = Vec::new();
    for tick in 0..12 {
        assert_eq!(handler.get_killed(), tick % 4);
        triggers.push(irq_handler(&mut handler));
    }
    assert_eq!(
        triggers,
        vec![None, None, None, Some(1), None, None, None, Some(2), None, None, None, Some(3)]
    );
    let mut handler = PitHandler::new(0);
    assert_eq!(handler.update(), Some(1));
    assert_eq!(handler.update(), Some(2));
    second_trigger(2);
    PitHandler::placeholder_trigger(2);
}

#[test]
fn pics_handle_eight_interrupts_each() {
    let pics = ChainedPics::new(0x20, 0x28);
    assert!(!pics.does_handle_interrupt(0x1f));
    assert!(pics.does_handle_interrupt(0x20));
    assert!(pics.does_handle_interrupt(0x27));
    assert!(pics.does_handle_interrupt(0x28));
    assert!(pics.does_handle_interrupt(0x2f));
    assert!(!pics.does_handle_interrupt(0x30));
    assert_eq!(pics.notify_isr_eoi(0x21), EndOfInterrupt { master: true, slave: false });
    assert_eq!(pics.notify_isr_eoi(0x2a), EndOfInterrupt { master: true, slave: true });
    assert_eq!(pics.notify_isr_eoi(0x40), EndOfInterrupt { master: false, slave: false });
    // An offset near the top handles what is left up to 255.
    let pic = Pic { offset: 0xfc };
    assert!(pic.does_handle_interrupt(0xfc));
    assert!(pic.does_handle_interrupt(0xff));
    assert!(!pic.does_handle_interrupt(0x03));
    assert!(!pic.does_handle_interrupt(0xfb));
}

#[test]
fn pci_standard_header_is_told_by_the_low_bits_of_its_type() {
    assert!(header_type_is_standard(0x0000_0000));
    assert!(header_type_is_standard(0xff80_ffff));
    assert!(!header_type_is_standard(0x0001_0000));
    assert!(!header_type_is_standard(0x0081_0000));
    assert!(!header_type_is_standard(0x007f_0000));
}

#[test]
fn keypair_is_pressed_when_either_key_is() {
    let pair = Keypair::new();
    assert!(!pair.is_pressed() && !pair.left() && !pair.right());
    assert!(Keypair { left: true, right: false }.is_pressed());
    assert!(Keypair { left: false, right: true }.is_pressed());
    assert!(Keypair { left: false, right: true }.right());
}

#[test]
fn keyboard_follows_its_modifier_keys() {
    let mut keyboard = PS2::new();
    assert!(!keyboard.should_use_uppercase());
    keyboard.update(0x2A);
    assert!(keyboard.shift.left && keyboard.should_use_uppercase());
    keyboard.update(0x36);
    keyboard.update(0xAA);
    assert!(keyboard.shift.right && !keyboard.shift.left && keyboard.should_use_uppercase());
    keyboard.update(0x3A);
    // Shift and caps lock cancel each other.
    assert!(keyboard.caps_lock && !keyboard.should_use_uppercase());
    keyboard.update(0xB6);
    assert!(keyboard.should_use_uppercase());
    keyboard.update(0x3A);
    assert!(!keyboard.caps_lock && !keyboard.should_use_uppercase());
    keyboard.update(0x1D);
    keyboard.update(0x38);
    assert!(keyboard.control.left && keyboard.alt.left);
    keyboard.update(0x9D);
    keyboard.update(0xB8);
    assert!(!keyboard.control.left && !keyboard.alt.left);
    assert!(keyboard.key_down && !keyboard.should_print_key());
    assert_eq!(keyboard.scancode, 0xB8);
    keyboard.update(0x1E);
    assert!(!keyboard.key_down && keyboard.should_print_key());
}

#[test]
fn keyboard_maps_scancodes_to_characters() {
    let mut keyboard = PS2::new();
    let text: Vec<u8> = [0x23u8, 0x12, 0x26, 0x26, 0x18, 0x39, 0x02, 0x0B, 0x1C, 0x35, 0x28, 0x0F, 0x01]
        .iter()
        .map(|scancode| {
            keyboard.update(*scancode);
            keyboard.get_ascii(true).unwrap()
        })
        .collect();
    assert_eq!(text, b"hello 10\r/'\t\x1b".to_vec());
    for scancode in [0x00u8, 0x1D, 0x29, 0x2A, 0x2B, 0x36, 0x38, 0x3A, 0x80, 0x9E, 0xff] {
        keyboard.update(scancode);
        assert_eq!(keyboard.get_ascii(false), None);
    }
    let mut keyboard = PS2::new();
    keyboard.update(0x0E);
    assert_eq!(keyboard.get_ascii(true), Some(0));
    assert_eq!(keyboard.apply(b'a'), b'a');
    assert_eq!(keyboard.apply(b'z'), b'z');
    keyboard.update(0x2A);
    assert_eq!(keyboard.apply(b'a'), b'A');
    assert_eq!(keyboard.apply(b'z'), b'Z');
    assert_eq!(keyboard.apply(b'`'), b'`');
    assert_eq!(keyboard.apply(b'{'), b'{');
    assert_eq!(keyboard.apply(b'1'), b'1');
    keyboard.update(0x10);
    assert_eq!(keyboard.get_ascii(true), Some(b'Q'));
    assert_eq!(keyboard.get_ascii(false), Some(b'q'));
    let mut handler = KeyboardHandler::new();
    let typed: Vec<Option<u8>> =
        [0x2Au8, 0x23, 0xA3, 0xAA, 0x17, 0x97].iter().map(|s| handler.handle_irq(*s)).collect();
    assert_eq!(typed, vec![None, Some(b'H'), None, None, Some(b'i'), None]);
}

#[test]
fn factorials() {
    assert_eq!(factorialf32(0), 1);
    assert_eq!(factorialf32(1), 1);
    assert_eq!(factorialf32(5), 120);
    assert_eq!(factorialf32(9), 362880);
    assert_eq!(factorialf32(12), 479001600);
    assert_eq!(factorialf64(0), 1);
    assert_eq!(factorialf64(7), 5040);
    assert_eq!(factorialf64(20), 2432902008176640000);
}

#[test]
fn pci_devices_are_described_by_class_subclass_and_interface() {
    assert_eq!(get_device_description(DeviceClass::Legacy, 0x01, 0x00), "VGA-Compatible Device");
    assert_eq!(get_device_description(DeviceClass::MassStorage, 0x01, 0x8a), "IDE Controller");
    assert_eq!(get_device_description(DeviceClass::MassStorage, 0x06, 0x01), "Serial ATA (AHCI 1.0)");
    assert_eq!(get_device_description(DeviceClass::Network, 0x00, 0x00), "Ethernet Controller");
    assert_eq!(get_device_description(DeviceClass::Network, 0x00, 0x01), "");
    assert_eq!(get_device_description(DeviceClass::BridgeDevice, 0x04, 0x01), "PCI-to-PCI Bridge (Subtractive Decode)");
    assert_eq!(get_device_description(DeviceClass::SerialBus, 0x03, 0x30), "USB3 XHCI Controller");
    assert_eq!(get_device_description(DeviceClass::IntelligentIO, 0x00, 0x00), "I20 Architecture");
    assert_eq!(get_device_description(DeviceClass::IntelligentIO, 0x00, 0x07), "Message FIFO");
    assert_eq!(get_device_description(DeviceClass::IntelligentIO, 0x01, 0x00), "");
    assert_eq!(get_device_description(DeviceClass::DataAndSignalProcessing, 0x20, 0x00), "Management Card");
    assert_eq!(get_device_description(DeviceClass::Unknown, 0x00, 0x00), "Unknown device description");
    let mut registers = [0u32; 18];
    registers[2] = 0x0c03_2000;
    assert_eq!(
        Header::new(registers).description(),
        "USB2 Host Controller (Intel Enhanced Host Controller Interface)"
    );
}

#[test]
fn header_is_built_by_the_layout_that_the_registers_name() {
    let mut registers = [0u32; 18];
    for i in 0..18 {
        registers[i] = 0x1111_1111 * (i as u32 % 15);
    }
    registers[0] = 0x100e_8086;
    registers[2] = 0x0604_0003;
    // A standard header, of a device with several functions.
    registers[3] = 0x0080_4010;
    match build_header(registers) {
        PciHeader::Standard(header) => {
            assert_eq!((header.vendor_id, header.device_id), (0x8086, 0x100e));
            assert_eq!(header.base_addresses[0], registers[4]);
            assert_eq!(header.header_type(), HeaderType::Standard);
            assert!(header.is_multifunction());
        },
        other => panic!("not a standard header: {:?}", other),
    }
    // A bridge between two PCI buses.
    registers[3] = 0x0001_4010;
    match build_header(registers) {
        PciHeader::Pci2PciBridge(bridge) => {
            assert_eq!(bridge.common, CommonHeader::new(&[registers[0], registers[1], registers[2], registers[3]]));
            assert_eq!(bridge.common.header_type(), HeaderType::Pci2PciBridge);
            assert_eq!(bridge.common.class_code, 0x06);
            assert_eq!(bridge.registers[..], registers[4..]);
        },
        other => panic!("not a bridge header: {:?}", other),
    }
    // A bridge to a CardBus, of a device with several functions.
    registers[3] = 0x0082_0000;
    match build_header(registers) {
        PciHeader::CardBusBridge(bridge) => {
            assert_eq!(bridge.common.header_type(), HeaderType::CardBusBridge);
            assert!(bridge.common.is_multifunction());
            assert_eq!(bridge.registers[0], registers[4]);
            assert_eq!(bridge.registers[13], registers[17]);
        },
        other => panic!("not a CardBus header: {:?}", other),
    }
}
