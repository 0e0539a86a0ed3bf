use boringos::arch::context::Context;
use boringos::arch::gdt::{Descriptor, Gdt};
use boringos::arch::ioapic::{set_irq, DeliveryMode, IORedirectionEntry, RegisterWrites};
use boringos::arch::{kernel_stack_start, user_stack_start};

#[test]
fn stack_regions_lie_one_offset_apart() {
    assert_eq!(kernel_stack_start(0), 0xffff_fe80_0000_0000);
    assert_eq!(kernel_stack_start(1), 0xffff_fe80_0040_0000);
    assert_eq!(kernel_stack_start(u16::MAX), 0xffff_fe80_0000_0000 + 0x40_0000 * 65535);
    assert_eq!(user_stack_start(0), 0x0000_7f00_0000_0000);
    assert_eq!(user_stack_start(2), 0x0000_7f00_0080_0000);
    assert_eq!(user_stack_start(u16::MAX), 0x0000_7f3f_ffc0_0000);
}

#[test]
fn contexts_of_new_and_idle_threads() {
    let context = Context::new(0x1000, 0x2000, 0x3000, 7, 1, 2, 3, 4, 5);
    assert_eq!(context.address_space, 7);
    assert_eq!(context.instruction_pointer, 0x1000);
    assert_eq!(context.stack_pointer, 0x2000);
    assert_eq!(context.kernel_stack_pointer, 0x3000);
    assert_eq!(
        (context.arg1, context.arg2, context.arg3, context.arg4, context.arg5),
        (1, 2, 3, 4, 5)
    );
    assert!(context.user_mode);
    let idle = Context::idle_context(0x4000);
    assert_eq!((idle.stack_pointer, idle.kernel_stack_pointer), (0x4000, 0x4000));
    assert!(!idle.user_mode);
    assert_eq!(idle.address_space, 0);
}

#[test]
fn redirection_entry_starts_active_for_the_cpu() {
    assert_eq!(IORedirectionEntry::new(0).bits(), 0);
    assert_eq!(IORedirectionEntry::new(3).bits(), 0x0300_0000_0000_0000);
    assert_eq!(IORedirectionEntry::new(0xff).bits(), 0xff00_0000_0000_0000);
}

#[test]
fn redirection_entry_fields_are_set_one_by_one() {
    let mut entry = IORedirectionEntry::new(1);
    entry.set_vector(0xEC);
    assert_eq!(entry.bits(), 0x0100_0000_0000_00ec);
    entry.set_vector(0x12);
    assert_eq!(entry.bits(), 0x0100_0000_0000_0012);
    entry.set_delivery_mode(DeliveryMode::ExtInt);
    assert_eq!(entry.bits(), 0x0100_0000_0000_0712);
    entry.set_delivery_mode(DeliveryMode::Nmi);
    assert_eq!(entry.bits(), 0x0100_0000_0000_0412);
    entry.set_delivery_mode(DeliveryMode::LowestPriority);
    entry.set_trigger_mode(true);
    assert_eq!(entry.bits(), 0x0100_0000_0000_8112);
    entry.set_polarity(true);
    assert_eq!(entry.bits(), 0x0100_0000_0000_a112);
    entry.set_inactive();
    assert_eq!(entry.bits(), 0x0100_0000_0001_a112);
    entry.set_destination(true, 0xab);
    assert_eq!(entry.bits(), 0xab00_0000_0001_a912);
    entry.set_active();
    entry.set_trigger_mode(false);
    entry.set_polarity(false);
    entry.set_destination(false, 0);
    entry.set_delivery_mode(DeliveryMode::Fixed);
    assert_eq!(entry.bits(), 0x12);
    for mode in [DeliveryMode::Smi, DeliveryMode::Init] {
        entry.set_delivery_mode(mode);
    }
    assert_eq!(entry.bits(), 0x0512);
}

#[test]
fn set_irq_masks_the_entry_before_it_writes_it() {
    let mut entry = IORedirectionEntry::new(7);
    entry.set_vector(0x94);
    entry.set_trigger_mode(true);
    assert_eq!(
        set_irq(3, entry),
        RegisterWrites {
            low_register: 0x16,
            high_register: 0x17,
            mask: 0x1_0000,
            high: 0x0700_0000,
            low: 0x0000_8094,
        }
    );
    let writes = set_irq(23, IORedirectionEntry::new(0));
    assert_eq!((writes.low_register, writes.high_register), (0x3e, 0x3f));
    assert_eq!(set_irq(0, entry).low_register, 0x10);
}

#[test]
fn descriptors_have_their_bits() {
    assert_eq!(Descriptor::code(0), Descriptor::UserDescriptor(0x0020_9a00_0000_0000));
    assert_eq!(Descriptor::code(3), Descriptor::UserDescriptor(0x0020_fa00_0000_0000));
    assert_eq!(Descriptor::data(0), Descriptor::UserDescriptor(0x0020_9200_0000_0000));
    assert_eq!(Descriptor::data(1), Descriptor::UserDescriptor(0x0020_b200_0000_0000));
    assert_eq!(Descriptor::data(3), Descriptor::UserDescriptor(0x0020_f200_0000_0000));
    assert_eq!(Descriptor::unused(), Descriptor::UserDescriptor(0));
    assert_eq!(
        Descriptor::tss(0xffff_8000_1234_5678, 0x67),
        Descriptor::SystemDescriptor(0x1200_8934_5678_0067, 0xffff_8000)
    );
    assert_eq!(Descriptor::tss(0, 0), Descriptor::SystemDescriptor(0x0000_8900_0000_0000, 0));
    assert_eq!(
        Descriptor::tss(u64::MAX, 0xffff),
        Descriptor::SystemDescriptor(0xff00_89ff_ffff_ffff, 0xffff_ffff)
    );
}

#[test]
fn gdt_takes_its_entries_in_order() {
    let mut gdt = Gdt::new();
    assert_eq!(gdt.len(), 1);
    assert_eq!(gdt.entries(), [0; 8]);
    gdt.add_entry(Descriptor::code(0));
    gdt.add_entry(Descriptor::data(0));
    gdt.add_entry(Descriptor::unused());
    gdt.add_entry(Descriptor::data(3));
    gdt.add_entry(Descriptor::code(3));
    assert_eq!(gdt.len(), 6);
    gdt.add_entry(Descriptor::tss(0x1000, 0x67));
    assert_eq!(gdt.len(), 8);
    assert_eq!(
        gdt.entries(),
        [
            0,
            0x0020_9a00_0000_0000,
            0x0020_9200_0000_0000,
            0,
            0x0020_f200_0000_0000,
            0x0020_fa00_0000_0000,
            0x0000_8900_1000_0067,
            0,
        ]
    );
}
