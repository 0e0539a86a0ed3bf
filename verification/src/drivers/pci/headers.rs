//! The configuration header of a PCI device function.

use vstd::prelude::*;

verus! {

/// The low sixteen bits of the register.
pub open spec fn low_half(register: u32) -> u16 {
    (register % 0x1_0000) as u16
}

/// The high sixteen bits of the register.
pub open spec fn high_half(register: u32) -> u16 {
    (register / 0x1_0000) as u16
}

/// The byte `index` of the register, counted from the lowest, which is 0.
pub open spec fn byte_of(register: u32, index: int) -> u8 {
    if index == 0 {
        (register % 0x100) as u8
    } else if index == 1 {
        ((register / 0x100) % 0x100) as u8
    } else if index == 2 {
        ((register / 0x1_0000) % 0x100) as u8
    } else {
        (register / 0x100_0000) as u8
    }
}

fn low16(register: u32) -> (r: u16)
    ensures
        r == low_half(register),
{
    assert(register & 0xffff == register % 0x1_0000) by (bit_vector);
    (register & 0xffff) as u16
}

fn high16(register: u32) -> (r: u16)
    ensures
        r == high_half(register),
{
    assert(register >> 16 == register / 0x1_0000) by (bit_vector);
    (register >> 16) as u16
}

fn byte(register: u32, index: usize) -> (r: u8)
    requires
        index < 4,
    ensures
        r == byte_of(register, index as int),
{
    assert(register & 0xff == register % 0x100 && (register >> 8) & 0xff == (register / 0x100)
        % 0x100 && (register >> 16) & 0xff == (register / 0x1_0000) % 0x100 && register >> 24
        == register / 0x100_0000) by (bit_vector);
    if index == 0 {
        (register & 0xff) as u8
    } else if index == 1 {
        ((register >> 8) & 0xff) as u8
    } else if index == 2 {
        ((register >> 16) & 0xff) as u8
    } else {
        (register >> 24) as u8
    }
}

/// Whether the first configuration register stands for a device that is
/// there: the vendor ID of a slot without a device reads as all ones.
pub fn is_valid(register_00: u32) -> (valid: bool)
    ensures
        valid == (low_half(register_00) != 0xFFFF),
{
    low16(register_00) != 0xFFFF
}

/// The class of a device, by its class code.
#[derive(Debug, PartialEq, Eq, Structural, Clone, Copy)]
pub enum DeviceClass {
    Legacy,
    MassStorage,
    Network,
    Display,
    Multimedia,
    Memory,
    BridgeDevice,
    SimpleCommunication,
    BaseSystemPeripheral,
    InputDevice,
    DockingStation,
    Processor,
    SerialBus,
    Wireless,
    IntelligentIO,
    SatelliteCommunication,
    EncryptionDecryption,
    DataAndSignalProcessing,
    Unknown,
}

impl DeviceClass {
    /// The class code of the class; `Unknown` has none and gives 0xff.
    pub open spec fn code(&self) -> u8 {
        match *self {
            DeviceClass::Legacy => 0x00,
            DeviceClass::MassStorage => 0x01,
            DeviceClass::Network => 0x02,
            DeviceClass::Display => 0x03,
            DeviceClass::Multimedia => 0x04,
            DeviceClass::Memory => 0x05,
            DeviceClass::BridgeDevice => 0x06,
            DeviceClass::SimpleCommunication => 0x07,
            DeviceClass::BaseSystemPeripheral => 0x08,
            DeviceClass::InputDevice => 0x09,
            DeviceClass::DockingStation => 0x0A,
            DeviceClass::Processor => 0x0B,
            DeviceClass::SerialBus => 0x0C,
            DeviceClass::Wireless => 0x0D,
            DeviceClass::IntelligentIO => 0x0E,
            DeviceClass::SatelliteCommunication => 0x0F,
            DeviceClass::EncryptionDecryption => 0x10,
            DeviceClass::DataAndSignalProcessing => 0x11,
            DeviceClass::Unknown => 0xff,
        }
    }

    /// The class with the class code `c`, or `Unknown` for a code above 0x11.
    pub fn from_u8(c: u8) -> (class: DeviceClass)
        ensures
            c <= 0x11 ==> class.code() == c,
            c > 0x11 ==> class == DeviceClass::Unknown,
    {
        match c {
            0x00 => DeviceClass::Legacy,
            0x01 => DeviceClass::MassStorage,
            0x02 => DeviceClass::Network,
            0x03 => DeviceClass::Display,
            0x04 => DeviceClass::Multimedia,
            0x05 => DeviceClass::Memory,
            0x06 => DeviceClass::BridgeDevice,
            0x07 => DeviceClass::SimpleCommunication,
            0x08 => DeviceClass::BaseSystemPeripheral,
            0x09 => DeviceClass::InputDevice,
            0x0A => DeviceClass::DockingStation,
            0x0B => DeviceClass::Processor,
            0x0C => DeviceClass::SerialBus,
            0x0D => DeviceClass::Wireless,
            0x0E => DeviceClass::IntelligentIO,
            0x0F => DeviceClass::SatelliteCommunication,
            0x10 => DeviceClass::EncryptionDecryption,
            0x11 => DeviceClass::DataAndSignalProcessing,
            _ => DeviceClass::Unknown,
        }
    }
}

/// The layout of the part of a header that follows the common fields.
#[derive(Debug, PartialEq, Eq, Structural, Clone, Copy)]
pub enum HeaderType {
    Standard,
    Pci2PciBridge,
    CardBusBridge,
    Unknown,
}

impl HeaderType {
    /// The header type with the code `c`, or `Unknown` for a code above 2.
    pub fn from_u8(c: u8) -> (header_type: HeaderType)
        ensures
            header_type == header_type_of(c),
    {
        match c {
            0x00 => HeaderType::Standard,
            0x01 => HeaderType::Pci2PciBridge,
            0x02 => HeaderType::CardBusBridge,
            _ => HeaderType::Unknown,
        }
    }
}

/// The header type with the code `c`.
pub open spec fn header_type_of(c: u8) -> HeaderType {
    if c == 0 {
        HeaderType::Standard
    } else if c == 1 {
        HeaderType::Pci2PciBridge
    } else if c == 2 {
        HeaderType::CardBusBridge
    } else {
        HeaderType::Unknown
    }
}

/// The header type that the register at offset 0x0c names: the low seven
/// bits of its third byte.
pub open spec fn header_type_in(register_03: u32) -> HeaderType {
    header_type_of((byte_of(register_03, 2) % 0x80) as u8)
}

/// Whether the register at offset 0x0c names a device with several
/// functions: the top bit of its third byte.
pub open spec fn multifunction_in(register_03: u32) -> bool {
    byte_of(register_03, 2) >= 0x80
}

/// Whether the register at offset 0x0c names a header of the standard
/// layout, the one that [`Header::new`] reads.
pub fn header_type_is_standard(register_03: u32) -> (r: bool)
    ensures
        r == (header_type_in(register_03) == HeaderType::Standard),
{
    byte(register_03, 2) % 0x80 == 0
}

/// The fields that every header begins with.
#[derive(Debug, PartialEq, Eq, Structural, Clone, Copy)]
pub struct CommonHeader {
    pub vendor_id: u16,
    pub device_id: u16,
    pub command: u16,
    pub status: u16,
    pub revision_id: u8,
    pub prog_if: u8,
    pub subclass: u8,
    pub class_code: u8,
    pub cache_line_size: u8,
    pub latency_timer: u8,
    pub header_type: u8,
    pub bist: u8,
}

impl CommonHeader {
    /// The common fields as the first four registers hold them.
    pub open spec fn decode(registers: [u32; 4]) -> CommonHeader {
        CommonHeader {
            vendor_id: low_half(registers[0]),
            device_id: high_half(registers[0]),
            command: low_half(registers[1]),
            status: high_half(registers[1]),
            revision_id: byte_of(registers[2], 0),
            prog_if: byte_of(registers[2], 1),
            subclass: byte_of(registers[2], 2),
            class_code: byte_of(registers[2], 3),
            cache_line_size: byte_of(registers[3], 0),
            latency_timer: byte_of(registers[3], 1),
            header_type: byte_of(registers[3], 2),
            bist: byte_of(registers[3], 3),
        }
    }

    /// Reads the common fields from the first four registers.
    pub fn new(registers: &[u32; 4]) -> (header: CommonHeader)
        ensures
            header == CommonHeader::decode(*registers),
    {
        CommonHeader {
            vendor_id: low16(registers[0]),
            device_id: high16(registers[0]),
            command: low16(registers[1]),
            status: high16(registers[1]),
            revision_id: byte(registers[2], 0),
            prog_if: byte(registers[2], 1),
            subclass: byte(registers[2], 2),
            class_code: byte(registers[2], 3),
            cache_line_size: byte(registers[3], 0),
            latency_timer: byte(registers[3], 1),
            header_type: byte(registers[3], 2),
            bist: byte(registers[3], 3),
        }
    }

    /// The layout of the rest of the header.
    pub fn header_type(&self) -> (header_type: HeaderType)
        ensures
            header_type == header_type_of((self.header_type % 0x80) as u8),
    {
        HeaderType::from_u8(self.header_type % 0x80)
    }

    /// Whether the device has several functions.
    pub fn is_multifunction(&self) -> (r: bool)
        ensures
            r == (self.header_type >= 0x80),
    {
        self.header_type >= 0x80
    }
}

/// A header of the standard layout.
#[derive(Debug, Clone, Copy)]
pub struct Header {
    // Common Header Fields
    pub vendor_id: u16,
    pub device_id: u16,
    pub command: u16,
    pub status: u16,
    pub revision_id: u8,
    pub prog_if: u8,
    pub subclass: u8,
    pub class_code: u8,
    pub cache_line_size: u8,
    pub latency_timer: u8,
    pub header_type: u8,
    pub bist: u8,
    // Standard Header Fields
    pub base_addresses: [u32; 6],
    pub cardbus_pointer: u32,
    pub subsystem_vendor_id: u16,
    pub subsystem_id: u16,
    pub expansion_rom_address: u32,
    pub capabilities_pointer: u8,
    pub interrupt_line: u8,
    pub interrupt_pin: u8,
    pub min_grant: u8,
    pub max_latency: u8,
    // What the fields above say of the device
    pub device_class: DeviceClass,
    pub header_enum: HeaderType,
    pub multifunction: bool,
}

impl Header {
    /// Whether the header holds what the eighteen registers say.
    pub open spec fn decodes(&self, registers: [u32; 18]) -> bool {
        &&& self.vendor_id == low_half(registers[0])
        &&& self.device_id == high_half(registers[0])
        &&& self.command == low_half(registers[1])
        &&& self.status == high_half(registers[1])
        &&& self.revision_id == byte_of(registers[2], 0)
        &&& self.prog_if == byte_of(registers[2], 1)
        &&& self.subclass == byte_of(registers[2], 2)
        &&& self.class_code == byte_of(registers[2], 3)
        &&& self.cache_line_size == byte_of(registers[3], 0)
        &&& self.latency_timer == byte_of(registers[3], 1)
        &&& self.header_type == byte_of(registers[3], 2)
        &&& self.bist == byte_of(registers[3], 3)
        &&& forall|i: int| 0 <= i < 6 ==> self.base_addresses[i] == registers[4 + i]
        &&& self.cardbus_pointer == registers[10]
        &&& self.subsystem_vendor_id == low_half(registers[11])
        &&& self.subsystem_id == high_half(registers[11])
        &&& self.expansion_rom_address == registers[12]
        &&& self.capabilities_pointer == byte_of(registers[13], 0)
        &&& self.interrupt_line == byte_of(registers[15], 0)
        &&& self.interrupt_pin == byte_of(registers[15], 1)
        &&& self.min_grant == byte_of(registers[15], 2)
        &&& self.max_latency == byte_of(registers[15], 3)
        &&& self.class_code <= 0x11 ==> self.device_class.code() == self.class_code
        &&& self.class_code > 0x11 ==> self.device_class == DeviceClass::Unknown
        &&& self.header_enum == HeaderType::Standard
        &&& self.multifunction == multifunction_in(registers[3])
    }

    /// Reads a header of the standard layout from the first eighteen
    /// configuration registers of a device function. No other layout is
    /// supported.
    pub fn new(registers: [u32; 18]) -> (header: Header)
        requires
            header_type_in(registers[3]) == HeaderType::Standard,
        ensures
            header.decodes(registers),
    {
        let vendor_id = low16(registers[0]);
        let device_id = high16(registers[0]);
        let command = low16(registers[1]);
        let status = high16(registers[1]);
        let revision_id = byte(registers[2], 0);
        let prog_if = byte(registers[2], 1);
        let subclass = byte(registers[2], 2);
        let class_code = byte(registers[2], 3);
        let cache_line_size = byte(registers[3], 0);
        let latency_timer = byte(registers[3], 1);
        let header_type = byte(registers[3], 2);
        let bist = byte(registers[3], 3);

        let device_class = DeviceClass::from_u8(class_code);
        let header_enum = HeaderType::from_u8(header_type % 0x80);
        let multifunction = header_type >= 0x80;

        let base_addresses = [
            registers[4],
            registers[5],
            registers[6],
            registers[7],
            registers[8],
            registers[9],
        ];
        Header {
            vendor_id,
            device_id,
            command,
            status,
            revision_id,
            prog_if,
            subclass,
            class_code,
            cache_line_size,
            latency_timer,
            header_type,
            bist,
            base_addresses,
            cardbus_pointer: registers[10],
            subsystem_vendor_id: low16(registers[11]),
            subsystem_id: high16(registers[11]),
            expansion_rom_address: registers[12],
            capabilities_pointer: byte(registers[13], 0),
            interrupt_line: byte(registers[15], 0),
            interrupt_pin: byte(registers[15], 1),
            min_grant: byte(registers[15], 2),
            max_latency: byte(registers[15], 3),
            device_class,
            header_enum,
            multifunction,
        }
    }

    /// The class of the device.
    pub fn device_class(&self) -> (class: DeviceClass)
        ensures
            class == self.device_class,
    {
        self.device_class
    }

    /// The layout of the header.
    pub fn header_type(&self) -> (header_type: HeaderType)
        ensures
            header_type == self.header_enum,
    {
        self.header_enum
    }

    /// What kind of device this is, in words.
    pub fn description(&self) -> (description: &'static str)
        ensures
            description@ == description_of(self.device_class, self.subclass, self.prog_if),
    {
        get_device_description(self.device_class, self.subclass, self.prog_if)
    }

    /// Whether the device has several functions.
    pub fn is_multifunction(&self) -> (r: bool)
        ensures
            r == self.multifunction,
    {
        self.multifunction
    }
}

/// The header of a bridge between two PCI buses: the common fields, and the
/// fourteen registers behind them as they were read.
#[derive(Debug, Clone, Copy)]
pub struct Pci2PciBridgeHeader {
    pub common: CommonHeader,
    pub registers: [u32; 14],
}

/// The header of a bridge to a CardBus: the common fields, and the fourteen
/// registers behind them as they were read.
#[derive(Debug, Clone, Copy)]
pub struct CardBusBridgeHeader {
    pub common: CommonHeader,
    pub registers: [u32; 14],
}

/// A header of one of the three layouts.
#[derive(Debug, Clone, Copy)]
pub enum PciHeader {
    Standard(Header),
    Pci2PciBridge(Pci2PciBridgeHeader),
    CardBusBridge(CardBusBridgeHeader),
}

/// The common fields as the first four of the eighteen registers hold them.
pub open spec fn common_in(registers: [u32; 18]) -> CommonHeader {
    CommonHeader {
        vendor_id: low_half(registers[0]),
        device_id: high_half(registers[0]),
        command: low_half(registers[1]),
        status: high_half(registers[1]),
        revision_id: byte_of(registers[2], 0),
        prog_if: byte_of(registers[2], 1),
        subclass: byte_of(registers[2], 2),
        class_code: byte_of(registers[2], 3),
        cache_line_size: byte_of(registers[3], 0),
        latency_timer: byte_of(registers[3], 1),
        header_type: byte_of(registers[3], 2),
        bist: byte_of(registers[3], 3),
    }
}

/// Whether `rest` holds the registers behind the first four of `registers`.
pub open spec fn rest_of(registers: [u32; 18], rest: [u32; 14]) -> bool {
    forall|i: int| 0 <= i < 14 ==> #[trigger] rest[i] == registers[i + 4]
}

/// Whether the header is what the eighteen registers say: it has the layout
/// that the register at offset 0x0c names, and holds the registers decoded
/// by that layout.
pub open spec fn header_built(registers: [u32; 18], header: PciHeader) -> bool {
    match header {
        PciHeader::Standard(standard) => header_type_in(registers[3]) == HeaderType::Standard
            && standard.decodes(registers),
        PciHeader::Pci2PciBridge(bridge) => header_type_in(registers[3])
            == HeaderType::Pci2PciBridge && bridge.common == common_in(registers) && rest_of(
            registers,
            bridge.registers,
        ),
        PciHeader::CardBusBridge(bridge) => header_type_in(registers[3])
            == HeaderType::CardBusBridge && bridge.common == common_in(registers) && rest_of(
            registers,
            bridge.registers,
        ),
    }
}

/// Reads the header of a device function from its first eighteen
/// configuration registers, by the layout that the register at offset 0x0c
/// names. The layout must be one of the three that there are.
pub fn build_header(registers: [u32; 18]) -> (header: PciHeader)
    requires
        header_type_in(registers[3]) != HeaderType::Unknown,
    ensures
        header_built(registers, header),
{
    let common = CommonHeader::new(&[registers[0], registers[1], registers[2], registers[3]]);
    let rest = [
        registers[4],
        registers[5],
        registers[6],
        registers[7],
        registers[8],
        registers[9],
        registers[10],
        registers[11],
        registers[12],
        registers[13],
        registers[14],
        registers[15],
        registers[16],
        registers[17],
    ];
    match common.header_type() {
        HeaderType::Standard => PciHeader::Standard(Header::new(registers)),
        HeaderType::Pci2PciBridge => PciHeader::Pci2PciBridge(
            Pci2PciBridgeHeader { common, registers: rest },
        ),
        _ => PciHeader::CardBusBridge(CardBusBridgeHeader { common, registers: rest }),
    }
}

/// The description of a device by its class, its subclass and its programming
/// interface; it is empty for a device of a known class that the table does
/// not list.
pub open spec fn description_of(device_class: DeviceClass, subclass: u8, prog_if: u8) -> Seq<char> {
    match device_class {
        DeviceClass::Legacy => match (subclass, prog_if) {
            (0x00, 0x00) => "Any device except for VGA-Compatible devices"@,
            (0x01, 0x00) => "VGA-Compatible Device"@,
            (_, _) => ""@,
        },
        DeviceClass::MassStorage => match (subclass, prog_if) {
            (0x00, 0x00) => "SCSI Bus Controller"@,
            (0x01, _) => "IDE Controller"@,
            (0x02, 0x00) => "Floppy Disk Controller"@,
            (0x03, 0x00) => "IPI Bus Controller"@,
            (0x04, 0x00) => "RAID Controller"@,
            (0x05, 0x20) => "ATA Controller (Single DMA)"@,
            (0x05, 0x30) => "ATA Controller (Chained DMA)"@,
            (0x06, 0x00) => "Serial ATA (Vendor Specific Interface)"@,
            (0x06, 0x01) => "Serial ATA (AHCI 1.0)"@,
            (0x07, 0x00) => "Serial Attached SCSI (SAS)"@,
            (0x08, 0x00) => "Other Mass Storage Controller"@,
            (_, _) => ""@,
        },
        DeviceClass::Network => match (subclass, prog_if) {
            (0x00, 0x00) => "Ethernet Controller"@,
            (0x01, 0x00) => "Token Ring Controller"@,
            (0x02, 0x00) => "FDDI Controller"@,
            (0x03, 0x00) => "ATM Controller"@,
            (0x04, 0x00) => "ISDN Controller"@,
            (0x05, 0x00) => "WorldFip Controller"@,
            (0x06, _) => "PICMG 2.14 Multi Computing"@,
            (0x80, 0x00) => "Other Network Controller"@,
            (_, _) => ""@,
        },
        DeviceClass::Display => match (subclass, prog_if) {
            (0x00, 0x00) => "VGA-Compatible Controller"@,
            (0x00, 0x01) => "8512-Compatible Controller"@,
            (0x01, 0x00) => "XGA Controller"@,
            (0x02, 0x00) => "3D Controller (Not VGA-Compatible)"@,
            (0x80, 0x00) => "Other Display Controller"@,
            (_, _) => ""@,
        },
        DeviceClass::Multimedia => match (subclass, prog_if) {
            (0x00, 0x00) => "Video Device"@,
            (0x01, 0x00) => "Audio Device"@,
            (0x02, 0x00) => "Computer Telephony Device"@,
            (0x80, 0x00) => "Other Multimedia Device"@,
            (_, _) => ""@,
        },
        DeviceClass::Memory => match (subclass, prog_if) {
            (0x00, 0x00) => "RAM Controller"@,
            (0x01, 0x00) => "Flash Controller"@,
            (0x80, 0x00) => "Other Memory Controller"@,
            (_, _) => ""@,
        },
        DeviceClass::BridgeDevice => match (subclass, prog_if) {
            (0x00, 0x00) => "Host Bridge"@,
            (0x01, 0x00) => "ISA Bridge"@,
            (0x02, 0x00) => "EISA Bridge"@,
            (0x03, 0x00) => "MCA Bridge"@,
            (0x04, 0x00) => "PCI-to-PCI Bridge"@,
            (0x04, 0x01) => "PCI-to-PCI Bridge (Subtractive Decode)"@,
            (0x05, 0x00) => "PCMCIA Bridge"@,
            (0x06, 0x00) => "NuBus Bridge"@,
            (0x07, 0x00) => "CardBus Bridge"@,
            (0x08, _) => "RACEway Bridge"@,
            (0x09, 0x40) => "PCI-to-PCI Bridge (Semi-Transparent, Primary)"@,
            (0x09, 0x80) => "PCI-to-PCI Bridge (Semi-Transparent, Secondary)"@,
            (0x0A, 0x00) => "InfiniBrand-to-PCI Host Bridge"@,
            (0x80, 0x00) => "Other Bridge Device"@,
            (_, _) => ""@,
        },
        DeviceClass::SimpleCommunication => match (subclass, prog_if) {
            (0x00, 0x00) => "Generic XT-Compatible Serial Controller"@,
            (0x00, 0x01) => "16450-Compatible Serial Controller"@,
            (0x00, 0x02) => "16550-Compatible Serial Controller"@,
            (0x00, 0x03) => "16650-Compatible Serial Controller"@,
            (0x00, 0x04) => "16750-Compatible Serial Controller"@,
            (0x00, 0x05) => "16850-Compatible Serial Controller"@,
            (0x00, 0x06) => "16950-Compatible Serial Controller"@,
            (0x01, 0x00) => "Parallel Port"@,
            (0x01, 0x01) => "Bi-Directional Parallel Port"@,
            (0x01, 0x02) => "ECP 1.X Compliant Parallel Port"@,
            (0x01, 0x03) => "IEEE 1284 Controller"@,
            (0x01, 0xFE) => "IEEE 1284 Target Device"@,
            (0x02, 0x00) => "Multiport Serial Controller"@,
            (0x03, 0x00) => "Generic Modem"@,
            (0x03, 0x01) => "Hayes Compatible Modem (16450-Compatible Interface)"@,
            (0x03, 0x02) => "Hayes Compatible Modem (16550-Compatible Interface)"@,
            (0x03, 0x03) => "Hayes Compatible Modem (16650-Compatible Interface)"@,
            (0x03, 0x04) => "Hayes Compatible Modem (16750-Compatible Interface)"@,
            (0x04, 0x00) => "IEEE 488.1/2 (GPIB) Controller"@,
            (0x05, 0x00) => "Smart Card"@,
            (0x80, 0x00) => "Other Communications Device"@,
            (_, _) => ""@,
        },
        DeviceClass::BaseSystemPeripheral => match (subclass, prog_if) {
            (0x00, 0x00) => "Generic 8259 PIC"@,
            (0x00, 0x01) => "ISA PIC"@,
            (0x00, 0x02) => "EISA PIC"@,
            (0x00, 0x10) => "I/O APIC Interrupt Controller"@,
            (0x00, 0x20) => "I/O(x) APIC Interrupt Controller"@,
            (0x01, 0x00) => "Generic 8237 DMA Controller"@,
            (0x01, 0x01) => "ISA DMA Controller"@,
            (0x01, 0x02) => "EISA DMA Controller"@,
            (0x02, 0x00) => "Generic 8254 System Timer"@,
            (0x02, 0x01) => "ISA System Timer"@,
            (0x02, 0x02) => "EISA System Timer"@,
            (0x03, 0x00) => "Generic RTC Controller"@,
            (0x03, 0x01) => "ISA RTC Controller"@,
            (0x04, 0x00) => "Generic PCI Hot-Plug Controller"@,
            (0x80, 0x00) => "Other System Peripheral"@,
            (_, _) => ""@,
        },
        DeviceClass::InputDevice => match (subclass, prog_if) {
            (0x00, 0x00) => "Keyboard Controller"@,
            (0x01, 0x00) => "Digitizer"@,
            (0x02, 0x00) => "Mouse Controller"@,
            (0x03, 0x00) => "Scanner Controller"@,
            (0x04, 0x00) => "Gameport Controller (Generic)"@,
            (0x04, 0x10) => "Gameport Contrlller (Legacy)"@,
            (0x80, 0x00) => "Other Input Controller"@,
            (_, _) => ""@,
        },
        DeviceClass::DockingStation => match (subclass, prog_if) {
            (0x00, 0x00) => "Generic Docking Station"@,
            (0x80, 0x00) => "Other Docking Station"@,
            (_, _) => ""@,
        },
        DeviceClass::Processor => match (subclass, prog_if) {
            (0x00, 0x00) => "386 Processor"@,
            (0x01, 0x00) => "486 Processor"@,
            (0x02, 0x00) => "Pentium Processor"@,
            (0x10, 0x00) => "Alpha Processor"@,
            (0x20, 0x00) => "PowerPC Processor"@,
            (0x30, 0x00) => "MIPS Processor"@,
            (0x40, 0x00) => "Co-Processor"@,
            (_, _) => ""@,
        },
        DeviceClass::SerialBus => match (subclass, prog_if) {
            (0x00, 0x00) => "IEEE 1394 Controller (FireWire)"@,
            (0x00, 0x01) => "IEEE 1394 Controller (1394 OpenHCI Spec)"@,
            (0x01, 0x00) => "ACCESS.bus"@,
            (0x02, 0x00) => "SSA"@,
            (0x03, 0x00) => "USB (Universal Host Controller Spec)"@,
            (0x03, 0x10) => "USB (Open Host Controller Spec)"@,
            (0x03, 0x20) => "USB2 Host Controller (Intel Enhanced Host Controller Interface)"@,
            (0x03, 0x30) => "USB3 XHCI Controller"@,
            (0x03, 0x80) => "Unspecified USB Controller"@,
            (0x03, 0xFE) => "USB (Not Host Controller)"@,
            (0x04, 0x00) => "Fibre Channel"@,
            (0x05, 0x00) => "SMBus"@,
            (0x06, 0x00) => "InfiniBand"@,
            (0x07, 0x00) => "IPMI SMIC Interface"@,
            (0x07, 0x01) => "IPMI Kybd Controller Style Interface"@,
            (0x07, 0x02) => "IPMI Block Transfer Interface"@,
            (0x08, 0x00) => "SERCOS Interface Standard (IEC 61491)"@,
            (0x09, 0x00) => "CANbus"@,
            (_, _) => ""@,
        },
        DeviceClass::Wireless => match (subclass, prog_if) {
            (0x00, 0x00) => "iRDA Compatible Controller"@,
            (0x01, 0x00) => "Consumer IR Controller"@,
            (0x10, 0x00) => "RF Controller"@,
            (0x11, 0x00) => "Bluetooth Controller"@,
            (0x12, 0x00) => "Broadband Controller"@,
            (0x20, 0x00) => "Ethernet Controller (802.11a)"@,
            (0x21, 0x00) => "Ethernet Controller (802.11b)"@,
            (0x80, 0x00) => "Other Wireless Controller"@,
            (_, _) => ""@,
        },
        DeviceClass::IntelligentIO => match (subclass, prog_if) {
            (0x00, 0x00) => "I20 Architecture"@,
            (0x00, _) => "Message FIFO"@,
            (_, _) => ""@,
        },
        DeviceClass::SatelliteCommunication => match (subclass, prog_if) {
            (0x01, 0x00) => "TV Controller"@,
            (0x02, 0x00) => "Audio Controller"@,
            (0x03, 0x00) => "Voice Controller"@,
            (0x04, 0x00) => "Data Controller"@,
            (_, _) => ""@,
        },
        DeviceClass::EncryptionDecryption => match (subclass, prog_if) {
            (0x00, 0x00) => "Network and Computing Encrpytion/Decryption"@,
            (0x10, 0x00) => "Entertainment Encryption/Decryption"@,
            (0x80, 0x00) => "Other Encryption/Decryption"@,
            (_, _) => ""@,
        },
        DeviceClass::DataAndSignalProcessing => match (subclass, prog_if) {
            (0x00, 0x00) => "DPIO Modules"@,
            (0x01, 0x00) => "Performance Counters"@,
            (0x10, 0x00) => "Communications Syncrhonization Plus Time and Frequency Test/Measurment"@,
            (0x20, 0x00) => "Management Card"@,
            (0x80, 0x00) => "Other Data Acquisition/Signal Processing Controller"@,
            (_, _) => ""@,
        },
        DeviceClass::Unknown => "Unknown device description"@,
    }
}

/// The description of a device by its class, its subclass and its programming
/// interface.
pub fn get_device_description(device_class: DeviceClass, subclass: u8, prog_if: u8) -> (description:
    &'static str)
    ensures
        description@ == description_of(device_class, subclass, prog_if),
{
    match device_class {
        DeviceClass::Legacy => match (subclass, prog_if) {
            (0x00, 0x00) => "Any device except for VGA-Compatible devices",
            (0x01, 0x00) => "VGA-Compatible Device",
            (_, _) => "",
        },
        DeviceClass::MassStorage => match (subclass, prog_if) {
            (0x00, 0x00) => "SCSI Bus Controller",
            (0x01, _) => "IDE Controller",
            (0x02, 0x00) => "Floppy Disk Controller",
            (0x03, 0x00) => "IPI Bus Controller",
            (0x04, 0x00) => "RAID Controller",
            (0x05, 0x20) => "ATA Controller (Single DMA)",
            (0x05, 0x30) => "ATA Controller (Chained DMA)",
            (0x06, 0x00) => "Serial ATA (Vendor Specific Interface)",
            (0x06, 0x01) => "Serial ATA (AHCI 1.0)",
            (0x07, 0x00) => "Serial Attached SCSI (SAS)",
            (0x08, 0x00) => "Other Mass Storage Controller",
            (_, _) => "",
        },
        DeviceClass::Network => match (subclass, prog_if) {
            (0x00, 0x00) => "Ethernet Controller",
            (0x01, 0x00) => "Token Ring Controller",
            (0x02, 0x00) => "FDDI Controller",
            (0x03, 0x00) => "ATM Controller",
            (0x04, 0x00) => "ISDN Controller",
            (0x05, 0x00) => "WorldFip Controller",
            (0x06, _) => "PICMG 2.14 Multi Computing",
            (0x80, 0x00) => "Other Network Controller",
            (_, _) => "",
        },
        DeviceClass::Display => match (subclass, prog_if) {
            (0x00, 0x00) => "VGA-Compatible Controller",
            (0x00, 0x01) => "8512-Compatible Controller",
            (0x01, 0x00) => "XGA Controller",
            (0x02, 0x00) => "3D Controller (Not VGA-Compatible)",
            (0x80, 0x00) => "Other Display Controller",
            (_, _) => "",
        },
        DeviceClass::Multimedia => match (subclass, prog_if) {
            (0x00, 0x00) => "Video Device",
            (0x01, 0x00) => "Audio Device",
            (0x02, 0x00) => "Computer Telephony Device",
            (0x80, 0x00) => "Other Multimedia Device",
            (_, _) => "",
        },
        DeviceClass::Memory => match (subclass, prog_if) {
            (0x00, 0x00) => "RAM Controller",
            (0x01, 0x00) => "Flash Controller",
            (0x80, 0x00) => "Other Memory Controller",
            (_, _) => "",
        },
        DeviceClass::BridgeDevice => match (subclass, prog_if) {
            (0x00, 0x00) => "Host Bridge",
            (0x01, 0x00) => "ISA Bridge",
            (0x02, 0x00) => "EISA Bridge",
            (0x03, 0x00) => "MCA Bridge",
            (0x04, 0x00) => "PCI-to-PCI Bridge",
            (0x04, 0x01) => "PCI-to-PCI Bridge (Subtractive Decode)",
            (0x05, 0x00) => "PCMCIA Bridge",
            (0x06, 0x00) => "NuBus Bridge",
            (0x07, 0x00) => "CardBus Bridge",
            (0x08, _) => "RACEway Bridge",
            (0x09, 0x40) => "PCI-to-PCI Bridge (Semi-Transparent, Primary)",
            (0x09, 0x80) => "PCI-to-PCI Bridge (Semi-Transparent, Secondary)",
            (0x0A, 0x00) => "InfiniBrand-to-PCI Host Bridge",
            (0x80, 0x00) => "Other Bridge Device",
            (_, _) => "",
        },
        DeviceClass::SimpleCommunication => match (subclass, prog_if) {
            (0x00, 0x00) => "Generic XT-Compatible Serial Controller",
            (0x00, 0x01) => "16450-Compatible Serial Controller",
            (0x00, 0x02) => "16550-Compatible Serial Controller",
            (0x00, 0x03) => "16650-Compatible Serial Controller",
            (0x00, 0x04) => "16750-Compatible Serial Controller",
            (0x00, 0x05) => "16850-Compatible Serial Controller",
            (0x00, 0x06) => "16950-Compatible Serial Controller",
            (0x01, 0x00) => "Parallel Port",
            (0x01, 0x01) => "Bi-Directional Parallel Port",
            (0x01, 0x02) => "ECP 1.X Compliant Parallel Port",
            (0x01, 0x03) => "IEEE 1284 Controller",
            (0x01, 0xFE) => "IEEE 1284 Target Device",
            (0x02, 0x00) => "Multiport Serial Controller",
            (0x03, 0x00) => "Generic Modem",
            (0x03, 0x01) => "Hayes Compatible Modem (16450-Compatible Interface)",
            (0x03, 0x02) => "Hayes Compatible Modem (16550-Compatible Interface)",
            (0x03, 0x03) => "Hayes Compatible Modem (16650-Compatible Interface)",
            (0x03, 0x04) => "Hayes Compatible Modem (16750-Compatible Interface)",
            (0x04, 0x00) => "IEEE 488.1/2 (GPIB) Controller",
            (0x05, 0x00) => "Smart Card",
            (0x80, 0x00) => "Other Communications Device",
            (_, _) => "",
        },
        DeviceClass::BaseSystemPeripheral => match (subclass, prog_if) {
            (0x00, 0x00) => "Generic 8259 PIC",
            (0x00, 0x01) => "ISA PIC",
            (0x00, 0x02) => "EISA PIC",
            (0x00, 0x10) => "I/O APIC Interrupt Controller",
            (0x00, 0x20) => "I/O(x) APIC Interrupt Controller",
            (0x01, 0x00) => "Generic 8237 DMA Controller",
            (0x01, 0x01) => "ISA DMA Controller",
            (0x01, 0x02) => "EISA DMA Controller",
            (0x02, 0x00) => "Generic 8254 System Timer",
            (0x02, 0x01) => "ISA System Timer",
            (0x02, 0x02) => "EISA System Timer",
            (0x03, 0x00) => "Generic RTC Controller",
            (0x03, 0x01) => "ISA RTC Controller",
            (0x04, 0x00) => "Generic PCI Hot-Plug Controller",
            (0x80, 0x00) => "Other System Peripheral",
            (_, _) => "",
        },
        DeviceClass::InputDevice => match (subclass, prog_if) {
            (0x00, 0x00) => "Keyboard Controller",
            (0x01, 0x00) => "Digitizer",
            (0x02, 0x00) => "Mouse Controller",
            (0x03, 0x00) => "Scanner Controller",
            (0x04, 0x00) => "Gameport Controller (Generic)",
            (0x04, 0x10) => "Gameport Contrlller (Legacy)",
            (0x80, 0x00) => "Other Input Controller",
            (_, _) => "",
        },
        DeviceClass::DockingStation => match (subclass, prog_if) {
            (0x00, 0x00) => "Generic Docking Station",
            (0x80, 0x00) => "Other Docking Station",
            (_, _) => "",
        },
        DeviceClass::Processor => match (subclass, prog_if) {
            (0x00, 0x00) => "386 Processor",
            (0x01, 0x00) => "486 Processor",
            (0x02, 0x00) => "Pentium Processor",
            (0x10, 0x00) => "Alpha Processor",
            (0x20, 0x00) => "PowerPC Processor",
            (0x30, 0x00) => "MIPS Processor",
            (0x40, 0x00) => "Co-Processor",
            (_, _) => "",
        },
        DeviceClass::SerialBus => match (subclass, prog_if) {
            (0x00, 0x00) => "IEEE 1394 Controller (FireWire)",
            (0x00, 0x01) => "IEEE 1394 Controller (1394 OpenHCI Spec)",
            (0x01, 0x00) => "ACCESS.bus",
            (0x02, 0x00) => "SSA",
            (0x03, 0x00) => "USB (Universal Host Controller Spec)",
            (0x03, 0x10) => "USB (Open Host Controller Spec)",
            (0x03, 0x20) => "USB2 Host Controller (Intel Enhanced Host Controller Interface)",
            (0x03, 0x30) => "USB3 XHCI Controller",
            (0x03, 0x80) => "Unspecified USB Controller",
            (0x03, 0xFE) => "USB (Not Host Controller)",
            (0x04, 0x00) => "Fibre Channel",
            (0x05, 0x00) => "SMBus",
            (0x06, 0x00) => "InfiniBand",
            (0x07, 0x00) => "IPMI SMIC Interface",
            (0x07, 0x01) => "IPMI Kybd Controller Style Interface",
            (0x07, 0x02) => "IPMI Block Transfer Interface",
            (0x08, 0x00) => "SERCOS Interface Standard (IEC 61491)",
            (0x09, 0x00) => "CANbus",
            (_, _) => "",
        },
        DeviceClass::Wireless => match (subclass, prog_if) {
            (0x00, 0x00) => "iRDA Compatible Controller",
            (0x01, 0x00) => "Consumer IR Controller",
            (0x10, 0x00) => "RF Controller",
            (0x11, 0x00) => "Bluetooth Controller",
            (0x12, 0x00) => "Broadband Controller",
            (0x20, 0x00) => "Ethernet Controller (802.11a)",
            (0x21, 0x00) => "Ethernet Controller (802.11b)",
            (0x80, 0x00) => "Other Wireless Controller",
            (_, _) => "",
        },
        DeviceClass::IntelligentIO => match (subclass, prog_if) {
            (0x00, 0x00) => "I20 Architecture",
            (0x00, _) => "Message FIFO",
            (_, _) => "",
        },
        DeviceClass::SatelliteCommunication => match (subclass, prog_if) {
            (0x01, 0x00) => "TV Controller",
            (0x02, 0x00) => "Audio Controller",
            (0x03, 0x00) => "Voice Controller",
            (0x04, 0x00) => "Data Controller",
            (_, _) => "",
        },
        DeviceClass::EncryptionDecryption => match (subclass, prog_if) {
            (0x00, 0x00) => "Network and Computing Encrpytion/Decryption",
            (0x10, 0x00) => "Entertainment Encryption/Decryption",
            (0x80, 0x00) => "Other Encryption/Decryption",
            (_, _) => "",
        },
        DeviceClass::DataAndSignalProcessing => match (subclass, prog_if) {
            (0x00, 0x00) => "DPIO Modules",
            (0x01, 0x00) => "Performance Counters",
            (0x10, 0x00) => "Communications Syncrhonization Plus Time and Frequency Test/Measurment",
            (0x20, 0x00) => "Management Card",
            (0x80, 0x00) => "Other Data Acquisition/Signal Processing Controller",
            (_, _) => "",
        },
        DeviceClass::Unknown => "Unknown device description",
    }
}

} // verus!
