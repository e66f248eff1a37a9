//! The names that this library hands to the device tree writer are names
//! that the writer takes, and its texts are free of NUL: whether the writer
//! takes one of the library's writes is a matter of the room that it has.

use vstd::prelude::*;
use crate::boot::RunCommand;
use crate::fdt::accepts;
use crate::fdt::ascii_letter;
use crate::fdt::at;
use crate::fdt::has_room;
use crate::fdt::items_of;
use crate::fdt::lemma_accepts_well_named;
use crate::fdt::lemma_at_end;
use crate::fdt::state;
use crate::fdt::wrote;
use crate::fdt::FdtItem;
use crate::fdt::fdt_node_name_valid;
use crate::fdt::no_nul;
use crate::fdt::node_name_char;
use crate::fdt::node_name_ends_at;
use crate::fdt::well_named;
use crate::fdt::FdtWrite;
use crate::interrupt::GunyahInterrupt;
use crate::serial::SerialDevice;
use crate::text::hex_digits;
use crate::text::is_hex_digit;
use crate::text::lemma_hex_digits_chars;
use crate::text::lemma_hex_digits_short;
use crate::types::GuestAddress;
use crate::vcpu::GunyahVcpu;
use crate::virtual_machine::cpu_node_writes;
use crate::virtual_machine::cpu_writes;
use crate::virtual_machine::cpus_open_writes;
use crate::virtual_machine::cpus_writes;
use crate::virtual_machine::intc_writes;
use crate::virtual_machine::memory_writes;
use crate::virtual_machine::platform_writes;
use crate::virtual_machine::psci_writes;
use crate::virtual_machine::root_writes;
use crate::virtual_machine::timer_writes;
use crate::virtual_machine::vm_config_head_writes;

verus! {

/// Whether each of the writes is well named.
pub open spec fn all_well_named(ws: Seq<FdtWrite>) -> bool {
    forall|k: int| 0 <= k < ws.len() ==> well_named(#[trigger] ws[k])
}

/// Writes that are well named stay so when they follow one another.
pub proof fn lemma_named_concat(a: Seq<FdtWrite>, b: Seq<FdtWrite>)
    requires
        all_well_named(a),
        all_well_named(b),
    ensures
        all_well_named(a + b),
{
    assert forall|k: int| 0 <= k < (a + b).len() implies well_named(#[trigger] (a + b)[k]) by {
        if k < a.len() {
            assert((a + b)[k] == a[k]);
        } else {
            assert((a + b)[k] == b[k - a.len()]);
        }
    }
}

/// Writes that are well named are all taken where the writer has room for
/// each of them when its turn comes.
pub proof fn lemma_taken_where_room(start: Seq<FdtItem>, ws: Seq<FdtWrite>, after: Seq<FdtItem>, ok: bool)
    requires
        wrote(start, ws, after, ok),
        all_well_named(ws),
        forall|k: int| 0 <= k < ws.len() ==> has_room(#[trigger] state(start, ws, k), ws[k]),
    ensures
        ok,
        after == start + items_of(ws),
{
    let n = choose|n: int|
        {
            &&& #[trigger] at(start, ws, n, after)
            &&& ok ==> n == ws.len()
            &&& !ok ==> n < ws.len() && !accepts(after, ws[n])
        };
    if !ok {
        assert(has_room(state(start, ws, n), ws[n]));
        lemma_accepts_well_named(after, ws[n]);
    }
    lemma_at_end(start, ws, after);
}

/// A name, `@` and a number in hexadecimal are the name of a node, where the
/// name is one: `head` is the name with the `@`.
pub proof fn lemma_unit_name(head: Seq<char>, v: nat)
    requires
        2 <= head.len() <= 32,
        head.last() == '@',
        ascii_letter(head[0]),
        forall|i: int| 0 <= i < head.len() - 1 ==> node_name_char(#[trigger] head[i]),
    ensures
        fdt_node_name_valid(head + hex_digits(v)),
        no_nul(head + hex_digits(v)),
{
    let name = head + hex_digits(v);
    lemma_hex_digits_chars(v);
    assert forall|i: int| 0 <= i < name.len() && i != head.len() - 1 implies node_name_char(
        #[trigger] name[i],
    ) by {
        if i < head.len() {
            assert(name[i] == head[i]);
        } else {
            assert(name[i] == hex_digits(v)[i - head.len()]);
            assert(is_hex_digit(hex_digits(v)[i - head.len()]));
        }
    }
    assert(name[head.len() - 1] == head[head.len() - 1]);
    assert(name[0] == head[0]);
    assert(node_name_ends_at(name, head.len() - 1));
    assert forall|i: int| 0 <= i < name.len() implies #[trigger] name[i] != '\0' by {
        if i != head.len() - 1 {
            assert(node_name_char(name[i]));
        }
    }
}

/// A text and a number in hexadecimal after it are free of NUL, where the
/// text is.
pub proof fn lemma_numbered_text(head: Seq<char>, v: nat)
    requires
        no_nul(head),
    ensures
        no_nul(head + hex_digits(v)),
{
    let text = head + hex_digits(v);
    lemma_hex_digits_chars(v);
    assert forall|i: int| 0 <= i < text.len() implies #[trigger] text[i] != '\0' by {
        if i < head.len() {
            assert(text[i] == head[i]);
        } else {
            assert(text[i] == hex_digits(v)[i - head.len()]);
            assert(is_hex_digit(hex_digits(v)[i - head.len()]));
        }
    }
}

/// The node of a doorbell is well named.
pub proof fn lemma_doorbell_named(interrupt: GunyahInterrupt)
    ensures
        all_well_named(interrupt.vdevice_writes()),
{
    reveal_strlit("bell-");
    reveal_strlit("vdevice-type");
    reveal_strlit("doorbell");
    reveal_strlit("generate");
    reveal_strlit("/hypervisor/bell-");
    reveal_strlit("label");
    reveal_strlit("peer-default");
    reveal_strlit("source-can-clean");
    reveal_strlit("interrupts");
    let v = interrupt.line as nat;
    let name = "bell-"@ + hex_digits(v);
    lemma_hex_digits_chars(v);
    lemma_hex_digits_short(v);
    lemma_numbered_text("bell-"@, v);
    lemma_numbered_text("/hypervisor/bell-"@, v);
    assert forall|i: int| 0 <= i < name.len() implies node_name_char(#[trigger] name[i]) by {
        if i >= 5 {
            assert(name[i] == hex_digits(v)[i - 5]);
            assert(is_hex_digit(hex_digits(v)[i - 5]));
        }
    }
    assert(node_name_ends_at(name, name.len() as int));
    let ws = interrupt.vdevice_writes();
    assert(ws[2].texts[0] == "/hypervisor/bell-"@ + hex_digits(v));
    assert(ws[1].texts[0] == "doorbell"@);
}

/// The node of a serial port is well named.
pub proof fn lemma_serial_named(serial: SerialDevice)
    ensures
        all_well_named(serial.device_writes()),
{
    reveal_strlit("serial@");
    reveal_strlit("compatible");
    reveal_strlit("ns16550a");
    reveal_strlit("reg");
    reveal_strlit("interrupts");
    reveal_strlit("clock-frequency");
    lemma_unit_name("serial@"@, serial.start as nat);
    let ws = serial.device_writes();
    assert(ws[1].texts[0] == "ns16550a"@);
}

/// The properties of the root node are well named.
pub proof fn lemma_root_named()
    ensures
        all_well_named(root_writes()),
{
    reveal(root_writes);
    reveal_strlit("#address-cells");
    reveal_strlit("#size-cells");
    reveal_strlit("interrupt-parent");
}

/// The node of a CPU is well named.
pub proof fn lemma_cpu_named(id: u32)
    ensures
        all_well_named(cpu_node_writes(id)),
{
    reveal_strlit("cpu@");
    reveal_strlit("device_type");
    reveal_strlit("cpu");
    reveal_strlit("compatible");
    reveal_strlit("arm,arm-v8");
    reveal_strlit("enable-method");
    reveal_strlit("psci");
    reveal_strlit("reg");
    reveal_strlit("cpu-idle-states");
    lemma_unit_name("cpu@"@, id as nat);
    let ws = cpu_node_writes(id);
    assert(ws[1].texts[0] == "cpu"@);
    assert(ws[2].texts[0] == "arm,arm-v8"@);
    assert(ws[3].texts[0] == "psci"@);
}

/// The nodes of the CPUs are well named.
pub proof fn lemma_cpus_named(vcpus: Seq<GunyahVcpu>)
    ensures
        all_well_named(cpu_writes(vcpus)),
    decreases vcpus.len(),
{
    if vcpus.len() > 0 {
        lemma_cpus_named(vcpus.drop_last());
        lemma_cpu_named(vcpus.last().spec_id() as u32);
        lemma_named_concat(cpu_writes(vcpus.drop_last()), cpu_node_writes(vcpus.last().spec_id() as u32));
    }
}

/// The node of the memory is well named.
pub proof fn lemma_memory_named(mem_reg: Seq<u64>)
    ensures
        all_well_named(memory_writes(mem_reg)),
{
    reveal_strlit("memory");
    reveal_strlit("device_type");
    reveal_strlit("reg");
    let ws = memory_writes(mem_reg);
    assert(node_name_ends_at("memory"@, 6));
    assert(ws[1].texts[0] == "memory"@);
}

/// The node of PSCI is well named.
pub proof fn lemma_psci_named()
    ensures
        all_well_named(psci_writes()),
{
    reveal_strlit("psci");
    reveal_strlit("compatible");
    reveal_strlit("arm,psci-0.2");
    reveal_strlit("method");
    reveal_strlit("hvc");
    let ws = psci_writes();
    assert(node_name_ends_at("psci"@, 4));
    assert(ws[1].texts[0] == "arm,psci-0.2"@);
    assert(ws[2].texts[0] == "hvc"@);
}

/// The node of the interrupt controller is well named.
pub proof fn lemma_intc_named(gic_config: Seq<u64>)
    ensures
        all_well_named(intc_writes(gic_config)),
{
    reveal_strlit("interrupt-controller@");
    reveal_strlit("compatible");
    reveal_strlit("arm,gic-v3");
    reveal_strlit("#interrupt-cells");
    reveal_strlit("#address-cells");
    reveal_strlit("#size-cells");
    reveal_strlit("interrupt-controller");
    reveal_strlit("reg");
    reveal_strlit("phandle");
    lemma_unit_name("interrupt-controller@"@, gic_config[0] as nat);
    let ws = intc_writes(gic_config);
    assert(ws[1].texts[0] == "arm,gic-v3"@);
}

/// The node of the timer is well named.
pub proof fn lemma_timer_named(timer_interrupts: Seq<u32>)
    ensures
        all_well_named(timer_writes(timer_interrupts)),
{
    reveal_strlit("timer");
    reveal_strlit("compatible");
    reveal_strlit("arm,armv8-timer");
    reveal_strlit("always-on");
    reveal_strlit("interrupts");
    reveal_strlit("clock-frequency");
    let ws = timer_writes(timer_interrupts);
    assert(node_name_ends_at("timer"@, 5));
    assert(ws[1].texts[0] == "arm,armv8-timer"@);
}

/// The nodes of the platform are well named.
pub proof fn lemma_platform_named(
    mem_reg: Seq<u64>,
    vcpus: Seq<GunyahVcpu>,
    gic_config: Seq<u64>,
    timer_interrupts: Seq<u32>,
)
    ensures
        all_well_named(platform_writes(mem_reg, vcpus, gic_config, timer_interrupts)),
{
    reveal(platform_writes);
    reveal_strlit("cpus");
    reveal_strlit("#address-cells");
    reveal_strlit("#size-cells");
    assert(node_name_ends_at("cpus"@, 4));
    let open = cpus_open_writes();
    let end = seq![crate::fdt::end_write()];
    assert(all_well_named(open));
    assert(all_well_named(end));
    lemma_cpus_named(vcpus);
    lemma_named_concat(open, cpu_writes(vcpus));
    lemma_named_concat(open + cpu_writes(vcpus), end);
    lemma_memory_named(mem_reg);
    lemma_psci_named();
    lemma_intc_named(gic_config);
    lemma_timer_named(timer_interrupts);
    let memory = memory_writes(mem_reg);
    let cpus = cpus_writes(vcpus);
    lemma_named_concat(memory, cpus);
    lemma_named_concat(memory + cpus, psci_writes());
    lemma_named_concat(memory + cpus + psci_writes(), intc_writes(gic_config));
    lemma_named_concat(memory + cpus + psci_writes() + intc_writes(gic_config), timer_writes(timer_interrupts));
}

/// The head of the node that configures the virtual machine is well named,
/// where the type of the operating system is free of NUL.
pub proof fn lemma_vm_config_head_named(
    os_type: Seq<char>,
    base_address: u64,
    firmware_address: Option<u64>,
    intc_phandle: u32,
)
    requires
        no_nul(os_type),
    ensures
        all_well_named(vm_config_head_writes(os_type, base_address, firmware_address, intc_phandle)),
{
    reveal_strlit("gunyah-vm-config");
    reveal_strlit("image-name");
    reveal_strlit("gunyah-vmm-vm");
    reveal_strlit("os-type");
    reveal_strlit("memory");
    reveal_strlit("#address-cells");
    reveal_strlit("#size-cells");
    reveal_strlit("base-address");
    reveal_strlit("firmware-address");
    reveal_strlit("interrupts");
    reveal_strlit("config");
    reveal_strlit("vcpus");
    reveal_strlit("affinity");
    reveal_strlit("proxy");
    reveal_strlit("vdevices");
    reveal_strlit("generate");
    reveal_strlit("/hypervisor");
    assert(node_name_ends_at("gunyah-vm-config"@, 16));
    assert(node_name_ends_at("memory"@, 6));
    assert(node_name_ends_at("interrupts"@, 10));
    assert(node_name_ends_at("vcpus"@, 5));
    assert(node_name_ends_at("vdevices"@, 8));
    let ws = vm_config_head_writes(os_type, base_address, firmware_address, intc_phandle);
    let next: int = if firmware_address is Some {
        8
    } else {
        7
    };
    assert(ws[1].texts[0] == "gunyah-vmm-vm"@);
    assert(ws[2].texts[0] == os_type);
    assert(ws[next + 5].texts[0] == "proxy"@);
    assert(ws[next + 8].texts[0] == "/hypervisor"@);
    assert forall|k: int| 0 <= k < ws.len() implies well_named(#[trigger] ws[k]) by {
        if k == 0 {
        } else if k == 1 {
        } else if k == 2 {
        } else if k < next {
        } else if k == next + 5 {
        } else if k == next + 8 {
        } else {
        }
    }
}

/// The node `chosen` is well named, where the command line is free of NUL.
pub proof fn lemma_chosen_named(
    cmd: RunCommand,
    serial: Option<SerialDevice>,
    command_line: Seq<char>,
    rdisk_start: GuestAddress,
    rdisk_end: GuestAddress,
)
    requires
        no_nul(command_line),
    ensures
        all_well_named(cmd.chosen_writes(serial, command_line, rdisk_start, rdisk_end)),
{
    reveal_strlit("chosen");
    reveal_strlit("stdout-path");
    reveal_strlit("/");
    reveal_strlit("serial@");
    reveal_strlit("bootargs");
    reveal_strlit("linux,initrd-start");
    reveal_strlit("linux,initrd-end");
    assert(node_name_ends_at("chosen"@, 6));
    let ws = cmd.chosen_writes(serial, command_line, rdisk_start, rdisk_end);
    match serial {
        Some(ser) => {
            lemma_numbered_text("serial@"@, ser.start as nat);
            let path = "/"@ + ("serial@"@ + hex_digits(ser.start as nat));
            assert forall|i: int| 0 <= i < path.len() implies #[trigger] path[i] != '\0' by {
                if i >= 1 {
                    assert(path[i] == ("serial@"@ + hex_digits(ser.start as nat))[i - 1]);
                }
            }
            assert(ws[1].texts[0] == path);
            assert(ws[2].texts[0] == command_line);
        },
        None => {
            assert(ws[1].texts[0] == command_line);
        },
    }
}

} // verus!
