//! Device tree blob (DTB) generation for booting Linux in the VM.
//!
//! A minimal tree: 1 CPU, memory, GICv3, PL011 UART, timer, PSCI, and a chosen
//! node with boot parameters.

use crate::bytes;
use crate::fdt;
use crate::fdt::{FDT_BEGIN_NODE, FDT_END_NODE, FDT_PROP};
use crate::text;
use crate::vtimer::COUNTER_FREQ_HZ;
use vm_fdt::{FdtWriter, FdtWriterNode};
use vstd::prelude::*;

verus! {

/// GIC distributor address: must match what the hypervisor's GIC is told.
pub const GICD_BASE: u64 = 0x0800_0000;

pub const GICD_SIZE: u64 = 0x0001_0000;

/// GIC redistributor address.
pub const GICR_BASE: u64 = 0x080A_0000;

pub const GICR_SIZE: u64 = 0x0020_0000;

/// PL011 UART address: matches QEMU virt convention.
pub const UART_BASE: u64 = 0x0900_0000;

pub const UART_SIZE: u64 = 0x0000_1000;

/// UART interrupt: SPI 1 (intid 33 = 32 + 1)
pub const UART_SPI: u32 = 1;

/// The kernel's command line: console, and the parameters that take chance
/// out of its boot.
pub const BOOTARGS: &'static str = "earlycon=pl011,mmio32,0x09000000 nokaslr norandmaps random.trust_cpu=on nosmp clocksource=arch_sys_counter nohz=off console=ttyAMA0 lpj=50000";

// The tree, token by token

/// A node begins.
pub open spec fn begin(name: Seq<char>) -> (u32, Seq<char>, Seq<u8>) {
    (FDT_BEGIN_NODE, name, Seq::empty())
}

/// A node ends.
pub open spec fn end() -> (u32, Seq<char>, Seq<u8>) {
    (FDT_END_NODE, Seq::empty(), Seq::empty())
}

/// A property with raw bytes.
pub open spec fn prop(name: Seq<char>, value: Seq<u8>) -> (u32, Seq<char>, Seq<u8>) {
    (FDT_PROP, name, value)
}

/// A string property.
pub open spec fn prop_str(name: Seq<char>, value: Seq<char>) -> (u32, Seq<char>, Seq<u8>) {
    prop(name, fdt::string_value(value))
}

/// A 32-bit property.
pub open spec fn prop_u32(name: Seq<char>, value: u32) -> (u32, Seq<char>, Seq<u8>) {
    prop(name, bytes::be_bytes(value as nat, 4))
}

/// A 64-bit property.
pub open spec fn prop_u64(name: Seq<char>, value: u64) -> (u32, Seq<char>, Seq<u8>) {
    prop(name, bytes::be_bytes(value as nat, 8))
}

/// The head of the root node.
pub open spec fn root_head() -> Seq<(u32, Seq<char>, Seq<u8>)> {
    seq![
        begin(""@),
        prop_str("compatible"@, "linux,dummy-virt"@),
        prop_u32("#address-cells"@, 2),
        prop_u32("#size-cells"@, 2),
    ]
}

/// One CPU, started by PSCI.
pub open spec fn cpus_node() -> Seq<(u32, Seq<char>, Seq<u8>)> {
    seq![
        begin("cpus"@),
        prop_u32("#address-cells"@, 1),
        prop_u32("#size-cells"@, 0),
        begin("cpu@0"@),
        prop_str("device_type"@, "cpu"@),
        prop_str("compatible"@, "arm,arm-v8"@),
        prop_u32("reg"@, 0),
        prop_str("enable-method"@, "psci"@),
        end(),
        end(),
    ]
}

/// Guest RAM.
pub open spec fn memory_node(mem_base: u64, mem_size: u64) -> Seq<(u32, Seq<char>, Seq<u8>)> {
    seq![
        begin("memory@"@ + text::hex(mem_base as nat)),
        prop_str("device_type"@, "memory"@),
        prop("reg"@, fdt::u64_cells(seq![mem_base, mem_size])),
        end(),
    ]
}

/// PSCI by HVC.
pub open spec fn psci_node() -> Seq<(u32, Seq<char>, Seq<u8>)> {
    seq![
        begin("psci"@),
        prop_str("compatible"@, "arm,psci-1.0"@),
        prop_str("method"@, "hvc"@),
        end(),
    ]
}

/// Interrupts of the timer, as [type, number, flags]: type 1 = PPI, flags
/// 0x304 = level-sensitive, active-low. Secure physical (PPI 13), non-secure
/// physical (PPI 14), virtual (PPI 11), hypervisor (PPI 10).
pub open spec fn timer_interrupts() -> Seq<u32> {
    seq![1, 13, 0x304, 1, 14, 0x304, 1, 11, 0x304, 1, 10, 0x304]
}

/// The ARM architected timer.
pub open spec fn timer_node() -> Seq<(u32, Seq<char>, Seq<u8>)> {
    seq![
        begin("timer"@),
        prop_str("compatible"@, "arm,armv8-timer"@),
        prop("interrupts"@, fdt::u32_cells(timer_interrupts())),
        prop("always-on"@, Seq::empty()),
        prop_u32("clock-frequency"@, COUNTER_FREQ_HZ as u32),
        prop_u32("interrupt-parent"@, 1),
        end(),
    ]
}

/// GICv3: distributor and redistributor.
pub open spec fn gic_node() -> Seq<(u32, Seq<char>, Seq<u8>)> {
    seq![
        begin("intc@"@ + text::hex(GICD_BASE as nat)),
        prop_str("compatible"@, "arm,gic-v3"@),
        prop("interrupt-controller"@, Seq::empty()),
        prop_u32("#interrupt-cells"@, 3),
        prop_u32("phandle"@, 1),
        prop("reg"@, fdt::u64_cells(seq![GICD_BASE, GICD_SIZE, GICR_BASE, GICR_SIZE])),
        end(),
    ]
}

/// Two NUL-terminated strings.
pub open spec fn two_strings(a: Seq<char>, b: Seq<char>) -> Seq<u8> {
    fdt::string_value(a) + fdt::string_value(b)
}

/// PL011 UART. It names its clocks but refers to none: earlycon bypasses the
/// full driver.
pub open spec fn uart_node() -> Seq<(u32, Seq<char>, Seq<u8>)> {
    seq![
        begin("pl011@"@ + text::hex(UART_BASE as nat)),
        prop("compatible"@, two_strings("arm,pl011"@, "arm,primecell"@)),
        prop("reg"@, fdt::u64_cells(seq![UART_BASE, UART_SIZE])),
        prop("interrupts"@, fdt::u32_cells(seq![0, UART_SPI, 4])),
        prop_u32("interrupt-parent"@, 1),
        prop("clock-names"@, two_strings("uartclk"@, "apb_pclk"@)),
        end(),
    ]
}

/// The head of the chosen node: boot args and stdout.
pub open spec fn chosen_head() -> Seq<(u32, Seq<char>, Seq<u8>)> {
    seq![
        begin("chosen"@),
        prop_str("bootargs"@, BOOTARGS@),
        prop_str("stdout-path"@, "/pl011@"@ + text::hex(UART_BASE as nat)),
    ]
}

/// Where the initramfs is, if both its ends are known.
pub open spec fn initrd_props(initrd_start: Option<u64>, initrd_end: Option<u64>) -> Seq<
    (u32, Seq<char>, Seq<u8>),
> {
    match (initrd_start, initrd_end) {
        (Some(start), Some(end)) => seq![
            prop_u64("linux,initrd-start"@, start),
            prop_u64("linux,initrd-end"@, end),
        ],
        _ => Seq::empty(),
    }
}

/// The whole tree.
pub open spec fn dtb_tokens(
    mem_base: u64,
    mem_size: u64,
    initrd_start: Option<u64>,
    initrd_end: Option<u64>,
) -> Seq<(u32, Seq<char>, Seq<u8>)> {
    root_head() + cpus_node() + memory_node(mem_base, mem_size) + psci_node() + timer_node()
        + gic_node() + uart_node() + chosen_head() + initrd_props(initrd_start, initrd_end) + seq![
        end(),
        end(),
    ]
}

// Properties of the writer's measures

/// One more token.
proof fn lemma_push(tokens: Seq<(u32, Seq<char>, Seq<u8>)>, token: (u32, Seq<char>, Seq<u8>))
    ensures
        fdt::open_nodes(tokens.push(token)) == fdt::open_nodes(tokens) + (if token.0
            == FDT_BEGIN_NODE {
            1int
        } else if token.0 == FDT_END_NODE {
            -1int
        } else {
            0int
        }),
        fdt::blob_bound(tokens.push(token)) == fdt::blob_bound(tokens) + fdt::token_size(token),
{
    assert(tokens.push(token).drop_last() =~= tokens);
}

/// A UTF-8 string takes at most four bytes per character.
proof fn lemma_string_value_len(s: Seq<char>)
    ensures
        fdt::string_value(s).len() <= 4 * s.len() + 1,
    decreases s.len(),
{
    if s.len() > 0 {
        lemma_string_value_len(s.drop_first());
    }
}

/// The length of big-endian cells.
proof fn lemma_be_len(x: nat, n: nat)
    ensures
        bytes::be_bytes(x, n).len() == n,
{
    bytes::lemma_le_bytes_len(x, n);
}

/// The length of 32-bit cells.
proof fn lemma_u32_cells_len(cells: Seq<u32>)
    ensures
        fdt::u32_cells(cells).len() == 4 * cells.len(),
    decreases cells.len(),
{
    if cells.len() > 0 {
        lemma_u32_cells_len(cells.drop_last());
        lemma_be_len(cells.last() as nat, 4);
    }
}

/// The length of 64-bit cells.
proof fn lemma_u64_cells_len(cells: Seq<u64>)
    ensures
        fdt::u64_cells(cells).len() == 8 * cells.len(),
    decreases cells.len(),
{
    if cells.len() > 0 {
        lemma_u64_cells_len(cells.drop_last());
        lemma_be_len(cells.last() as nat, 8);
    }
}

// Writing tokens that are known to be accepted

/// The writer is within a tree of this size.
spec fn small(w: FdtWriter) -> bool {
    fdt::blob_bound(fdt::fdt_tokens(w)) <= 100_000
}

/// What adding `token` does to a writer.
spec fn wrote(before: FdtWriter, after: FdtWriter, token: (u32, Seq<char>, Seq<u8>)) -> bool {
    &&& fdt::fdt_tokens(after) == fdt::fdt_tokens(before).push(token)
    &&& fdt::open_nodes(fdt::fdt_tokens(after)) == fdt::open_nodes(fdt::fdt_tokens(before)) + (
    if token.0 == FDT_BEGIN_NODE {
        1int
    } else if token.0 == FDT_END_NODE {
        -1int
    } else {
        0int
    })
    &&& fdt::blob_bound(fdt::fdt_tokens(after)) == fdt::blob_bound(fdt::fdt_tokens(before))
        + fdt::token_size(token)
}

/// Opens a node.
fn open(w: &mut FdtWriter, name: &str) -> (node: FdtWriterNode)
    requires
        fdt::node_name_ok(name@),
        fdt::open_nodes(fdt::fdt_tokens(*old(w))) < 8,
    ensures
        wrote(*old(w), *final(w), begin(name@)),
        fdt::fdt_node_depth(node) == fdt::open_nodes(fdt::fdt_tokens(*final(w))),
{
    proof {
        lemma_push(fdt::fdt_tokens(*w), begin(name@));
    }
    match fdt::fdt_begin_node(w, name) {
        Ok(node) => node,
        Err(_) => vstd::pervasive::unreached(),
    }
}

/// Closes the innermost node.
fn close(w: &mut FdtWriter, node: FdtWriterNode)
    requires
        fdt::fdt_node_depth(node) == fdt::open_nodes(fdt::fdt_tokens(*old(w))),
    ensures
        wrote(*old(w), *final(w), end()),
{
    proof {
        lemma_push(fdt::fdt_tokens(*w), end());
    }
    match fdt::fdt_end_node(w, node) {
        Ok(()) => {},
        Err(_) => vstd::pervasive::unreached(),
    }
}

/// Adds an empty property.
fn put_null(w: &mut FdtWriter, name: &str)
    requires
        small(*old(w)),
        fdt::in_node_head(fdt::fdt_tokens(*old(w))),
        fdt::property_name_ok(name@),
    ensures
        wrote(*old(w), *final(w), prop(name@, Seq::empty())),
{
    proof {
        lemma_push(fdt::fdt_tokens(*w), prop(name@, Seq::empty()));
    }
    match fdt::fdt_property_null(w, name) {
        Ok(()) => {},
        Err(_) => vstd::pervasive::unreached(),
    }
}

/// Adds a string property.
fn put_str(w: &mut FdtWriter, name: &str, val: &str)
    requires
        small(*old(w)),
        fdt::in_node_head(fdt::fdt_tokens(*old(w))),
        fdt::property_name_ok(name@),
        fdt::has_no_nul(val@),
        val@.len() <= 1000,
    ensures
        wrote(*old(w), *final(w), prop_str(name@, val@)),
        fdt::string_value(val@).len() <= 4 * val@.len() + 1,
{
    proof {
        lemma_push(fdt::fdt_tokens(*w), prop_str(name@, val@));
        lemma_string_value_len(val@);
    }
    match fdt::fdt_property_string(w, name, val) {
        Ok(()) => {},
        Err(_) => vstd::pervasive::unreached(),
    }
}

/// Adds a property of two strings.
fn put_two_strings(w: &mut FdtWriter, name: &str, a: &str, b: &str)
    requires
        small(*old(w)),
        fdt::in_node_head(fdt::fdt_tokens(*old(w))),
        fdt::property_name_ok(name@),
        fdt::has_no_nul(a@),
        fdt::has_no_nul(b@),
        a@.len() <= 1000,
        b@.len() <= 1000,
    ensures
        wrote(*old(w), *final(w), prop(name@, two_strings(a@, b@))),
        two_strings(a@, b@).len() <= 4 * (a@.len() + b@.len()) + 2,
{
    let mut values: Vec<String> = Vec::new();
    values.push(String::from_str(a));
    values.push(String::from_str(b));
    proof {
        lemma_string_value_len(a@);
        lemma_string_value_len(b@);
        reveal_with_fuel(fdt::string_list_value, 3);
        assert(values@.drop_last().drop_last() =~= Seq::empty());
        assert(fdt::string_list_value(values@) =~= two_strings(a@, b@));
        lemma_push(fdt::fdt_tokens(*w), prop(name@, two_strings(a@, b@)));
    }
    match fdt::fdt_property_string_list(w, name, values) {
        Ok(()) => {},
        Err(_) => vstd::pervasive::unreached(),
    }
}

/// Adds a 32-bit property.
fn put_u32(w: &mut FdtWriter, name: &str, val: u32)
    requires
        small(*old(w)),
        fdt::in_node_head(fdt::fdt_tokens(*old(w))),
        fdt::property_name_ok(name@),
    ensures
        wrote(*old(w), *final(w), prop_u32(name@, val)),
        bytes::be_bytes(val as nat, 4).len() == 4,
{
    proof {
        lemma_push(fdt::fdt_tokens(*w), prop_u32(name@, val));
        lemma_be_len(val as nat, 4);
    }
    match fdt::fdt_property_u32(w, name, val) {
        Ok(()) => {},
        Err(_) => vstd::pervasive::unreached(),
    }
}

/// Adds a 64-bit property.
fn put_u64(w: &mut FdtWriter, name: &str, val: u64)
    requires
        small(*old(w)),
        fdt::in_node_head(fdt::fdt_tokens(*old(w))),
        fdt::property_name_ok(name@),
    ensures
        wrote(*old(w), *final(w), prop_u64(name@, val)),
        bytes::be_bytes(val as nat, 8).len() == 8,
{
    proof {
        lemma_push(fdt::fdt_tokens(*w), prop_u64(name@, val));
        lemma_be_len(val as nat, 8);
    }
    match fdt::fdt_property_u64(w, name, val) {
        Ok(()) => {},
        Err(_) => vstd::pervasive::unreached(),
    }
}

/// Adds 32-bit cells.
fn put_u32_cells(w: &mut FdtWriter, name: &str, cells: &[u32])
    requires
        small(*old(w)),
        fdt::in_node_head(fdt::fdt_tokens(*old(w))),
        fdt::property_name_ok(name@),
        cells@.len() <= 100,
    ensures
        wrote(*old(w), *final(w), prop(name@, fdt::u32_cells(cells@))),
        fdt::u32_cells(cells@).len() == 4 * cells@.len(),
{
    proof {
        lemma_push(fdt::fdt_tokens(*w), prop(name@, fdt::u32_cells(cells@)));
        lemma_u32_cells_len(cells@);
    }
    match fdt::fdt_property_array_u32(w, name, cells) {
        Ok(()) => {},
        Err(_) => vstd::pervasive::unreached(),
    }
}

/// Adds 64-bit cells.
fn put_u64_cells(w: &mut FdtWriter, name: &str, cells: &[u64])
    requires
        small(*old(w)),
        fdt::in_node_head(fdt::fdt_tokens(*old(w))),
        fdt::property_name_ok(name@),
        cells@.len() <= 100,
    ensures
        wrote(*old(w), *final(w), prop(name@, fdt::u64_cells(cells@))),
        fdt::u64_cells(cells@).len() == 8 * cells@.len(),
{
    proof {
        lemma_push(fdt::fdt_tokens(*w), prop(name@, fdt::u64_cells(cells@)));
        lemma_u64_cells_len(cells@);
    }
    match fdt::fdt_property_array_u64(w, name, cells) {
        Ok(()) => {},
        Err(_) => vstd::pervasive::unreached(),
    }
}

/// The root node is open, and there is room for a child.
spec fn takes_child(w: FdtWriter) -> bool {
    &&& fdt::blob_bound(fdt::fdt_tokens(w)) <= 50_000
    &&& fdt::open_nodes(fdt::fdt_tokens(w)) == 1
}

/// What adding the closed node `node` does to a writer.
spec fn added(before: FdtWriter, after: FdtWriter, node: Seq<(u32, Seq<char>, Seq<u8>)>) -> bool {
    &&& fdt::fdt_tokens(after) == fdt::fdt_tokens(before) + node
    &&& fdt::blob_bound(fdt::fdt_tokens(after)) <= fdt::blob_bound(fdt::fdt_tokens(before)) + 3000
    &&& fdt::open_nodes(fdt::fdt_tokens(after)) == 1
}

/// Adds the CPU node.
fn add_cpus(w: &mut FdtWriter)
    requires
        takes_child(*old(w)),
    ensures
        added(*old(w), *final(w), cpus_node()),
{
    proof {
        reveal_strlit("cpus");
        reveal_strlit("cpu@0");
        reveal_strlit("#address-cells");
        reveal_strlit("#size-cells");
        reveal_strlit("device_type");
        reveal_strlit("compatible");
        reveal_strlit("reg");
        reveal_strlit("enable-method");
        reveal_strlit("cpu");
        reveal_strlit("arm,arm-v8");
        reveal_strlit("psci");
        assert(fdt::node_name_parts("cpus"@, 4));
        assert(fdt::node_name_parts("cpu@0"@, 3));
    }
    let cpus = open(w, "cpus");
    put_u32(w, "#address-cells", 1);
    put_u32(w, "#size-cells", 0);
    let cpu0 = open(w, "cpu@0");
    put_str(w, "device_type", "cpu");
    put_str(w, "compatible", "arm,arm-v8");
    put_u32(w, "reg", 0);
    put_str(w, "enable-method", "psci");
    close(w, cpu0);
    close(w, cpus);
    assert(fdt::fdt_tokens(*w) =~= fdt::fdt_tokens(*old(w)) + cpus_node());
}

/// `prefix` with the address `addr` in hexadecimal behind it.
fn addressed(prefix: &str, addr: u64) -> (name: String)
    ensures
        name@ == prefix@ + text::hex(addr as nat),
{
    let mut name = String::from_str(prefix);
    text::push_hex(&mut name, addr);
    name
}

/// A hexadecimal address behind a node name and `@` makes a node name, and
/// holds no NUL.
proof fn lemma_addressed_name(prefix: Seq<char>, addr: u64)
    requires
        2 <= prefix.len() <= 32,
        'a' <= prefix[0] <= 'z',
        prefix.last() == '@',
        forall|i: int| 0 <= i < prefix.len() - 1 ==> #[trigger] fdt::node_name_char(prefix[i]),
    ensures
        fdt::node_name_ok(prefix + text::hex(addr as nat)),
{
    let name = prefix + text::hex(addr as nat);
    text::lemma_radix_text(addr as nat, 16);
    assert(fdt::node_name_parts(name, prefix.len() - 1)) by {
        assert forall|i: int| 0 <= i < name.len() && i != prefix.len() - 1 implies
            #[trigger] fdt::node_name_char(name[i]) by {
            if i < prefix.len() - 1 {
                assert(name[i] == prefix[i]);
                assert(fdt::node_name_char(prefix[i]));
            } else {
                let c = text::hex(addr as nat)[i - prefix.len()];
                assert(text::digit_value(c, 16) is Some);
            }
        }
    }
}

/// A 64-bit address takes at most 16 hexadecimal digits.
proof fn lemma_hex_len(x: nat, n: nat)
    requires
        n >= 1,
        x < pow16(n),
    ensures
        text::hex(x).len() <= n,
    decreases n,
{
    reveal_with_fuel(pow16, 2);
    if x >= 16 {
        lemma_hex_len(x / 16, (n - 1) as nat);
    }
}

/// 16 to the power `n`.
spec fn pow16(n: nat) -> nat
    decreases n,
{
    if n == 0 {
        1
    } else {
        16 * pow16((n - 1) as nat)
    }
}

/// Adds the memory node.
fn add_memory(w: &mut FdtWriter, mem_base: u64, mem_size: u64)
    requires
        takes_child(*old(w)),
    ensures
        added(*old(w), *final(w), memory_node(mem_base, mem_size)),
{
    proof {
        reveal_strlit("memory@");
        reveal_strlit("memory");
        reveal_strlit("device_type");
        reveal_strlit("reg");
        lemma_addressed_name("memory@"@, mem_base);
        reveal_with_fuel(pow16, 17);
        lemma_hex_len(mem_base as nat, 16);
    }
    let name = addressed("memory@", mem_base);
    let mem = open(w, name.as_str());
    put_str(w, "device_type", "memory");
    let cells: [u64; 2] = [mem_base, mem_size];
    put_u64_cells(w, "reg", cells.as_slice());
    close(w, mem);
    assert(cells@ =~= seq![mem_base, mem_size]);
    assert(fdt::fdt_tokens(*w) =~= fdt::fdt_tokens(*old(w)) + memory_node(mem_base, mem_size));
}

/// Adds the PSCI node.
fn add_psci(w: &mut FdtWriter)
    requires
        takes_child(*old(w)),
    ensures
        added(*old(w), *final(w), psci_node()),
{
    proof {
        reveal_strlit("psci");
        reveal_strlit("compatible");
        reveal_strlit("arm,psci-1.0");
        reveal_strlit("method");
        reveal_strlit("hvc");
        assert(fdt::node_name_parts("psci"@, 4));
    }
    let psci = open(w, "psci");
    put_str(w, "compatible", "arm,psci-1.0");
    put_str(w, "method", "hvc");
    close(w, psci);
    assert(fdt::fdt_tokens(*w) =~= fdt::fdt_tokens(*old(w)) + psci_node());
}

/// Adds the timer node.
fn add_timer(w: &mut FdtWriter)
    requires
        takes_child(*old(w)),
    ensures
        added(*old(w), *final(w), timer_node()),
{
    proof {
        reveal_strlit("timer");
        reveal_strlit("compatible");
        reveal_strlit("arm,armv8-timer");
        reveal_strlit("interrupts");
        reveal_strlit("always-on");
        reveal_strlit("clock-frequency");
        reveal_strlit("interrupt-parent");
        assert(fdt::node_name_parts("timer"@, 5));
    }
    let timer = open(w, "timer");
    put_str(w, "compatible", "arm,armv8-timer");
    let cells: [u32; 12] = [1, 13, 0x304, 1, 14, 0x304, 1, 11, 0x304, 1, 10, 0x304];
    put_u32_cells(w, "interrupts", cells.as_slice());
    put_null(w, "always-on");
    put_u32(w, "clock-frequency", COUNTER_FREQ_HZ as u32);
    put_u32(w, "interrupt-parent", 1);
    close(w, timer);
    assert(cells@ =~= timer_interrupts());
    assert(fdt::fdt_tokens(*w) =~= fdt::fdt_tokens(*old(w)) + timer_node());
}

/// Adds the interrupt controller node.
fn add_gic(w: &mut FdtWriter)
    requires
        takes_child(*old(w)),
    ensures
        added(*old(w), *final(w), gic_node()),
{
    proof {
        reveal_strlit("intc@");
        reveal_strlit("compatible");
        reveal_strlit("arm,gic-v3");
        reveal_strlit("interrupt-controller");
        reveal_strlit("#interrupt-cells");
        reveal_strlit("phandle");
        reveal_strlit("reg");
        lemma_addressed_name("intc@"@, GICD_BASE);
        reveal_with_fuel(pow16, 17);
        lemma_hex_len(GICD_BASE as nat, 16);
    }
    let name = addressed("intc@", GICD_BASE);
    let gic = open(w, name.as_str());
    put_str(w, "compatible", "arm,gic-v3");
    put_null(w, "interrupt-controller");
    put_u32(w, "#interrupt-cells", 3);
    put_u32(w, "phandle", 1);
    let cells: [u64; 4] = [GICD_BASE, GICD_SIZE, GICR_BASE, GICR_SIZE];
    put_u64_cells(w, "reg", cells.as_slice());
    close(w, gic);
    assert(cells@ =~= seq![GICD_BASE, GICD_SIZE, GICR_BASE, GICR_SIZE]);
    assert(fdt::fdt_tokens(*w) =~= fdt::fdt_tokens(*old(w)) + gic_node());
}

/// Adds the UART node.
fn add_uart(w: &mut FdtWriter)
    requires
        takes_child(*old(w)),
    ensures
        added(*old(w), *final(w), uart_node()),
{
    proof {
        reveal_strlit("pl011@");
        reveal_strlit("compatible");
        reveal_strlit("arm,pl011");
        reveal_strlit("arm,primecell");
        reveal_strlit("reg");
        reveal_strlit("interrupts");
        reveal_strlit("interrupt-parent");
        reveal_strlit("clock-names");
        reveal_strlit("uartclk");
        reveal_strlit("apb_pclk");
        lemma_addressed_name("pl011@"@, UART_BASE);
        reveal_with_fuel(pow16, 17);
        lemma_hex_len(UART_BASE as nat, 16);
    }
    let name = addressed("pl011@", UART_BASE);
    let uart = open(w, name.as_str());
    put_two_strings(w, "compatible", "arm,pl011", "arm,primecell");
    let reg: [u64; 2] = [UART_BASE, UART_SIZE];
    put_u64_cells(w, "reg", reg.as_slice());
    let interrupts: [u32; 3] = [0, UART_SPI, 4];
    put_u32_cells(w, "interrupts", interrupts.as_slice());
    put_u32(w, "interrupt-parent", 1);
    put_two_strings(w, "clock-names", "uartclk", "apb_pclk");
    close(w, uart);
    assert(reg@ =~= seq![UART_BASE, UART_SIZE]);
    assert(interrupts@ =~= seq![0, UART_SPI, 4]);
    assert(fdt::fdt_tokens(*w) =~= fdt::fdt_tokens(*old(w)) + uart_node());
}

/// The command line holds no NUL.
proof fn lemma_bootargs()
    ensures
        fdt::has_no_nul(BOOTARGS@),
        BOOTARGS@.len() <= 200,
{
    reveal_strlit("earlycon=pl011,mmio32,0x09000000 nokaslr norandmaps random.trust_cpu=on nosmp clocksource=arch_sys_counter nohz=off console=ttyAMA0 lpj=50000");
}

/// Adds the chosen node.
fn add_chosen(w: &mut FdtWriter, initrd_start: Option<u64>, initrd_end: Option<u64>)
    requires
        takes_child(*old(w)),
    ensures
        added(
            *old(w),
            *final(w),
            chosen_head() + initrd_props(initrd_start, initrd_end) + seq![end()],
        ),
{
    proof {
        reveal_strlit("chosen");
        reveal_strlit("bootargs");
        reveal_strlit("stdout-path");
        reveal_strlit("/pl011@");
        reveal_strlit("linux,initrd-start");
        reveal_strlit("linux,initrd-end");
        assert(fdt::node_name_parts("chosen"@, 6));
        lemma_bootargs();
        text::lemma_radix_text(UART_BASE as nat, 16);
        reveal_with_fuel(pow16, 17);
        lemma_hex_len(UART_BASE as nat, 16);
        assert(fdt::has_no_nul("/pl011@"@ + text::hex(UART_BASE as nat))) by {
            let path = "/pl011@"@ + text::hex(UART_BASE as nat);
            assert forall|i: int| 0 <= i < path.len() implies path[i] != '\0' by {
                if i >= 7 {
                    let c = text::hex(UART_BASE as nat)[i - 7];
                    assert(text::digit_value(c, 16) is Some);
                }
            }
        }
    }
    let chosen = open(w, "chosen");
    put_str(w, "bootargs", BOOTARGS);
    let path = addressed("/pl011@", UART_BASE);
    put_str(w, "stdout-path", path.as_str());
    if let (Some(start), Some(end)) = (initrd_start, initrd_end) {
        put_u64(w, "linux,initrd-start", start);
        put_u64(w, "linux,initrd-end", end);
    }
    close(w, chosen);
    assert(fdt::fdt_tokens(*w) =~= fdt::fdt_tokens(*old(w)) + (chosen_head() + initrd_props(
        initrd_start,
        initrd_end,
    ) + seq![end()]));
}

/// Build a minimal device tree for a Linux VM.
///
/// `mem_base` and `mem_size`: guest RAM region.
/// `initrd_start`, `initrd_end`: optional initramfs location in guest memory.
pub fn build_dtb(
    mem_base: u64,
    mem_size: u64,
    initrd_start: Option<u64>,
    initrd_end: Option<u64>,
) -> (blob: Vec<u8>)
    ensures
        blob@ == fdt::fdt_blob(dtb_tokens(mem_base, mem_size, initrd_start, initrd_end)),
        blob@.len() <= 50_000,
{
    let mut w = match fdt::fdt_new() {
        Ok(w) => w,
        Err(_) => vstd::pervasive::unreached(),
    };
    proof {
        reveal_strlit("");
        reveal_strlit("compatible");
        reveal_strlit("linux,dummy-virt");
        reveal_strlit("#address-cells");
        reveal_strlit("#size-cells");
        assert(fdt::node_name_ok(""@));
    }
    let root = open(&mut w, "");
    put_str(&mut w, "compatible", "linux,dummy-virt");
    put_u32(&mut w, "#address-cells", 2);
    put_u32(&mut w, "#size-cells", 2);
    assert(fdt::fdt_tokens(w) =~= root_head());
    add_cpus(&mut w);
    add_memory(&mut w, mem_base, mem_size);
    add_psci(&mut w);
    add_timer(&mut w);
    add_gic(&mut w);
    add_uart(&mut w);
    add_chosen(&mut w, initrd_start, initrd_end);
    close(&mut w, root);
    assert(fdt::fdt_tokens(w) =~= dtb_tokens(mem_base, mem_size, initrd_start, initrd_end));
    match fdt::fdt_finish(w) {
        Ok(blob) => blob,
        Err(_) => vstd::pervasive::unreached(),
    }
}

// The tree as a kernel reads it

/// A node called `name` begins at token `p`, with `depth` nodes open around it.
pub open spec fn node_begins(
    t: Seq<(u32, Seq<char>, Seq<u8>)>,
    p: int,
    depth: int,
    name: Seq<char>,
) -> bool {
    0 <= p < t.len() && t[p].0 == FDT_BEGIN_NODE && t[p].1 == name && fdt::open_nodes(t.take(p))
        == depth
}

/// The value of the property `name` among the properties from token `i` on.
pub open spec fn property(t: Seq<(u32, Seq<char>, Seq<u8>)>, i: int, name: Seq<char>) -> Option<
    Seq<u8>,
>
    decreases t.len() - i,
{
    if i < 0 || i >= t.len() || t[i].0 != FDT_PROP {
        None
    } else if t[i].1 == name {
        Some(t[i].2)
    } else {
        property(t, i + 1, name)
    }
}

/// The number in the property `name` of the node that begins at token `p`.
pub open spec fn number(t: Seq<(u32, Seq<char>, Seq<u8>)>, p: int, name: Seq<char>) -> Option<nat> {
    match property(t, p + 1, name) {
        Some(value) => Some(bytes::be_value(value)),
        None => None,
    }
}

/// `value` cut into numbers of `n` 32-bit cells each.
pub open spec fn cells(value: Seq<u8>, n: nat) -> Seq<nat>
    decreases value.len(),
{
    if n == 0 || value.len() < 4 * n {
        Seq::empty()
    } else {
        seq![bytes::be_value(value.take(4 * n as int))] + cells(value.skip(4 * n as int), n)
    }
}

/// The addresses and sizes that `value` gives, with `a` cells per address and
/// `s` cells per size.
pub open spec fn regions(value: Seq<u8>, a: nat, s: nat) -> Seq<(nat, nat)>
    decreases value.len(),
{
    if a + s == 0 || value.len() < 4 * (a + s) {
        Seq::empty()
    } else {
        let address = bytes::be_value(value.take(4 * a as int));
        let size = bytes::be_value(value.subrange(4 * a as int, 4 * (a + s) as int));
        seq![(address, size)] + regions(value.skip(4 * (a + s) as int), a, s)
    }
}

/// What the `reg` property of the node at token `p` stands for, its parent
/// being the node at token `parent`, which says how many cells an address and a
/// size take.
pub open spec fn regions_of(t: Seq<(u32, Seq<char>, Seq<u8>)>, parent: int, p: int) -> Option<
    Seq<(nat, nat)>,
> {
    match (
        number(t, parent, "#address-cells"@),
        number(t, parent, "#size-cells"@),
        property(t, p + 1, "reg"@),
    ) {
        (Some(a), Some(s), Some(value)) => Some(regions(value, a, s)),
        _ => None,
    }
}

/// The interrupts of the node at token `p`, each as type, number and flags.
pub open spec fn interrupts_of(t: Seq<(u32, Seq<char>, Seq<u8>)>, p: int) -> Option<Seq<nat>> {
    match property(t, p + 1, "interrupts"@) {
        Some(value) => Some(cells(value, 1)),
        None => None,
    }
}

/// Nodes open before token `k` of the tree, `n` being the number of tokens.
spec fn depth_at(k: int, n: int) -> int {
    if k == 0 || k == n {
        0
    } else if k <= 4 || k == 14 || k == 18 || k == 22 || k == 29 || k == 36 || k == 43 || k == n - 1 {
        1
    } else if 8 <= k <= 12 {
        3
    } else {
        2
    }
}

/// The tokens of the tree, by their places.
proof fn lemma_tokens(mem_base: u64, mem_size: u64, start: Option<u64>, end_: Option<u64>)
    ensures
        ({
            let t = dtb_tokens(mem_base, mem_size, start, end_);
            &&& t.subrange(0, 4) == root_head()
            &&& t.subrange(4, 14) == cpus_node()
            &&& t.subrange(14, 18) == memory_node(mem_base, mem_size)
            &&& t.subrange(18, 22) == psci_node()
            &&& t.subrange(22, 29) == timer_node()
            &&& t.subrange(29, 36) == gic_node()
            &&& t.subrange(36, 43) == uart_node()
            &&& t.subrange(43, 46) == chosen_head()
            &&& t.subrange(46, t.len() - 2) == initrd_props(start, end_)
            &&& t[t.len() - 2] == end()
            &&& t[t.len() - 1] == end()
            &&& t.len() == 48 + initrd_props(start, end_).len()
        }),
{
    let t = dtb_tokens(mem_base, mem_size, start, end_);
    assert(t.len() == 48 + initrd_props(start, end_).len());
    assert(t.subrange(0, 4) =~= root_head());
    assert(t.subrange(4, 14) =~= cpus_node());
    assert(t.subrange(14, 18) =~= memory_node(mem_base, mem_size));
    assert(t.subrange(18, 22) =~= psci_node());
    assert(t.subrange(22, 29) =~= timer_node());
    assert(t.subrange(29, 36) =~= gic_node());
    assert(t.subrange(36, 43) =~= uart_node());
    assert(t.subrange(43, 46) =~= chosen_head());
    assert(t.subrange(46, t.len() - 2) =~= initrd_props(start, end_));
}

/// What kind token `k` is.
proof fn lemma_kind(mem_base: u64, mem_size: u64, start: Option<u64>, end_: Option<u64>, k: int)
    requires
        0 <= k < dtb_tokens(mem_base, mem_size, start, end_).len(),
    ensures
        ({
            let t = dtb_tokens(mem_base, mem_size, start, end_);
            let n = t.len() as int;
            &&& n >= 48
            &&& t[k].0 == FDT_BEGIN_NODE || t[k].0 == FDT_END_NODE || t[k].0 == FDT_PROP
            &&& t[k].0 == FDT_BEGIN_NODE <==> (k == 0 || k == 4 || k == 7 || k == 14 || k == 18 || k
                == 22 || k == 29 || k == 36 || k == 43)
            &&& t[k].0 == FDT_END_NODE <==> (k == 12 || k == 13 || k == 17 || k == 21 || k == 28 || k
                == 35 || k == 42 || k == n - 2 || k == n - 1)
        }),
{
    let t = dtb_tokens(mem_base, mem_size, start, end_);
    let n = t.len() as int;
    lemma_tokens(mem_base, mem_size, start, end_);
    if k < 4 {
        assert(t[k] == t.subrange(0, 4)[k]);
    } else if k < 14 {
        assert(t[k] == t.subrange(4, 14)[k - 4]);
    } else if k < 18 {
        assert(t[k] == t.subrange(14, 18)[k - 14]);
    } else if k < 22 {
        assert(t[k] == t.subrange(18, 22)[k - 18]);
    } else if k < 29 {
        assert(t[k] == t.subrange(22, 29)[k - 22]);
    } else if k < 36 {
        assert(t[k] == t.subrange(29, 36)[k - 29]);
    } else if k < 43 {
        assert(t[k] == t.subrange(36, 43)[k - 36]);
    } else if k < 46 {
        assert(t[k] == t.subrange(43, 46)[k - 43]);
    } else if k < n - 2 {
        assert(t[k] == t.subrange(46, n - 2)[k - 46]);
    }
}

/// How many nodes are open before token `k`.
proof fn lemma_depth(mem_base: u64, mem_size: u64, start: Option<u64>, end_: Option<u64>, k: int)
    requires
        0 <= k <= dtb_tokens(mem_base, mem_size, start, end_).len(),
    ensures
        ({
            let t = dtb_tokens(mem_base, mem_size, start, end_);
            fdt::open_nodes(t.take(k)) == depth_at(k, t.len() as int)
        }),
    decreases k,
{
    let t = dtb_tokens(mem_base, mem_size, start, end_);
    if k > 0 {
        lemma_depth(mem_base, mem_size, start, end_, k - 1);
        lemma_kind(mem_base, mem_size, start, end_, k - 1);
        assert(t.take(k).drop_last() =~= t.take(k - 1));
        assert(t.take(k).last() == t[k - 1]);
    }
}

/// A property that stands `i` places behind the beginning of its node, behind
/// properties of other names.
proof fn lemma_property(t: Seq<(u32, Seq<char>, Seq<u8>)>, p: int, i: int, name: Seq<char>)
    requires
        0 <= p <= i < t.len(),
        t[i].0 == FDT_PROP,
        t[i].1 == name,
        forall|k: int| p <= k < i ==> (#[trigger] t[k]).0 == FDT_PROP && t[k].1 != name,
    ensures
        property(t, p, name) == Some(t[i].2),
    decreases i - p,
{
    if p < i {
        assert(t[p].0 == FDT_PROP);
        lemma_property(t, p + 1, i, name);
    }
}

/// A 32-bit property is read back.
proof fn lemma_be32(x: u32)
    ensures
        bytes::be_value(bytes::be_bytes(x as nat, 4)) == x,
        bytes::be_bytes(x as nat, 4).len() == 4,
{
    bytes::lemma_pow256_values();
    bytes::law_big_endian_round_trip(x as nat, 4);
    lemma_be_len(x as nat, 4);
}

/// A 64-bit property is read back.
proof fn lemma_be64(x: u64)
    ensures
        bytes::be_value(bytes::be_bytes(x as nat, 8)) == x,
        bytes::be_bytes(x as nat, 8).len() == 8,
{
    bytes::lemma_pow256_values();
    bytes::law_big_endian_round_trip(x as nat, 8);
    lemma_be_len(x as nat, 8);
}

/// One address and size in front of others.
proof fn lemma_region(address: u64, size: u64, rest: Seq<u8>)
    ensures
        regions(bytes::be_bytes(address as nat, 8) + bytes::be_bytes(size as nat, 8) + rest, 2, 2)
            == seq![(address as nat, size as nat)] + regions(rest, 2, 2),
{
    lemma_be64(address);
    lemma_be64(size);
    let value = bytes::be_bytes(address as nat, 8) + bytes::be_bytes(size as nat, 8) + rest;
    assert(value.take(8) =~= bytes::be_bytes(address as nat, 8));
    assert(value.subrange(8, 16) =~= bytes::be_bytes(size as nat, 8));
    assert(value.skip(16) =~= rest);
}

/// One address and size.
proof fn lemma_one_region(address: u64, size: u64)
    ensures
        regions(fdt::u64_cells(seq![address, size]), 2, 2) == seq![(address as nat, size as nat)],
{
    let value = fdt::u64_cells(seq![address, size]);
    reveal_with_fuel(fdt::u64_cells, 3);
    assert(seq![address, size].drop_last() =~= seq![address]);
    assert(seq![address].drop_last() =~= Seq::empty());
    assert(value =~= bytes::be_bytes(address as nat, 8) + bytes::be_bytes(size as nat, 8)
        + Seq::empty());
    lemma_region(address, size, Seq::empty());
    assert(regions(Seq::empty(), 2, 2) =~= Seq::empty());
}

/// Two addresses and sizes.
proof fn lemma_two_regions(a1: u64, s1: u64, a2: u64, s2: u64)
    ensures
        regions(fdt::u64_cells(seq![a1, s1, a2, s2]), 2, 2) == seq![
            (a1 as nat, s1 as nat),
            (a2 as nat, s2 as nat),
        ],
{
    let value = fdt::u64_cells(seq![a1, s1, a2, s2]);
    reveal_with_fuel(fdt::u64_cells, 5);
    assert(seq![a1, s1, a2, s2].drop_last() =~= seq![a1, s1, a2]);
    assert(seq![a1, s1, a2].drop_last() =~= seq![a1, s1]);
    assert(seq![a1, s1].drop_last() =~= seq![a1]);
    assert(seq![a1].drop_last() =~= Seq::empty());
    let tail = bytes::be_bytes(a2 as nat, 8) + bytes::be_bytes(s2 as nat, 8);
    assert(value =~= bytes::be_bytes(a1 as nat, 8) + bytes::be_bytes(s1 as nat, 8) + tail);
    assert(tail =~= bytes::be_bytes(a2 as nat, 8) + bytes::be_bytes(s2 as nat, 8) + Seq::empty());
    lemma_region(a1, s1, tail);
    lemma_region(a2, s2, Seq::empty());
    assert(regions(Seq::empty(), 2, 2) =~= Seq::empty());
}

/// 32-bit cells are read back.
proof fn lemma_cells(values: Seq<u32>)
    ensures
        cells(fdt::u32_cells(values), 1) == values.map_values(|x: u32| x as nat),
    decreases values.len(),
{
    if values.len() == 0 {
        assert(cells(fdt::u32_cells(values), 1) =~= Seq::empty());
    } else {
        lemma_cells_front(values);
        lemma_be32(values[0]);
        lemma_u32_cells_len(values.drop_first());
        let value = fdt::u32_cells(values);
        let rest = fdt::u32_cells(values.drop_first());
        assert(value.take(4) =~= bytes::be_bytes(values[0] as nat, 4));
        assert(value.skip(4) =~= rest);
        lemma_cells(values.drop_first());
        assert(cells(value, 1) =~= values.map_values(|x: u32| x as nat));
    }
}

/// Cells, taken from the front.
proof fn lemma_cells_front(values: Seq<u32>)
    requires
        values.len() > 0,
    ensures
        fdt::u32_cells(values) == bytes::be_bytes(values[0] as nat, 4) + fdt::u32_cells(
            values.drop_first(),
        ),
    decreases values.len(),
{
    if values.len() == 1 {
        assert(values.drop_last() =~= Seq::empty());
        assert(values.drop_first() =~= Seq::empty());
        assert(fdt::u32_cells(Seq::empty()) =~= Seq::empty());
        assert(fdt::u32_cells(values) =~= bytes::be_bytes(values[0] as nat, 4));
    } else {
        lemma_cells_front(values.drop_last());
        assert(values.drop_last().drop_first() =~= values.drop_first().drop_last());
        assert(values.drop_first().last() == values.last());
        assert(fdt::u32_cells(values) =~= bytes::be_bytes(values[0] as nat, 4) + fdt::u32_cells(
            values.drop_first(),
        ));
    }
}

/// The unit addresses of the devices, written out.
proof fn lemma_unit_addresses()
    ensures
        "intc@"@ + text::hex(0x0800_0000) == "intc@8000000"@,
        "pl011@"@ + text::hex(0x0900_0000) == "pl011@9000000"@,
        "/pl011@"@ + text::hex(0x0900_0000) == "/pl011@9000000"@,
{
    reveal_strlit("intc@");
    reveal_strlit("pl011@");
    reveal_strlit("/pl011@");
    reveal_strlit("intc@8000000");
    reveal_strlit("pl011@9000000");
    reveal_strlit("/pl011@9000000");
    reveal_with_fuel(text::radix_text, 8);
    assert(text::hex(0x0800_0000) =~= seq!['8', '0', '0', '0', '0', '0', '0']);
    assert(text::hex(0x0900_0000) =~= seq!['9', '0', '0', '0', '0', '0', '0']);
    assert("intc@"@ + text::hex(0x0800_0000) =~= "intc@8000000"@);
    assert("pl011@"@ + text::hex(0x0900_0000) =~= "pl011@9000000"@);
    assert("/pl011@"@ + text::hex(0x0900_0000) =~= "/pl011@9000000"@);
}

// Laws

/// Reading the tree as a kernel does, with the cell counts of the root node,
/// every device and the memory are where they are: memory at `mem_base` with
/// `mem_size` bytes, the interrupt controller's distributor at 0x0800_0000 and
/// redistributor at 0x080A_0000, the UART at 0x0900_0000. The law gives the
/// tokens at which the nodes begin.
pub proof fn law_regions_are_read_back(
    mem_base: u64,
    mem_size: u64,
    initrd_start: Option<u64>,
    initrd_end: Option<u64>,
) -> (at: (int, int, int))
    ensures
        ({
            let t = dtb_tokens(mem_base, mem_size, initrd_start, initrd_end);
            let (memory, gic, uart) = at;
            &&& node_begins(t, 0, 0, ""@)
            &&& node_begins(t, memory, 1, "memory@"@ + text::hex(mem_base as nat))
            &&& node_begins(t, gic, 1, "intc@8000000"@)
            &&& node_begins(t, uart, 1, "pl011@9000000"@)
            &&& regions_of(t, 0, memory) == Some(seq![(mem_base as nat, mem_size as nat)])
            &&& regions_of(t, 0, gic) == Some(
                seq![(0x0800_0000nat, 0x1_0000nat), (0x080A_0000nat, 0x20_0000nat)],
            )
            &&& regions_of(t, 0, uart) == Some(seq![(0x0900_0000nat, 0x1000nat)])
        }),
{
    let t = dtb_tokens(mem_base, mem_size, initrd_start, initrd_end);
    lemma_tokens(mem_base, mem_size, initrd_start, initrd_end);
    lemma_depth(mem_base, mem_size, initrd_start, initrd_end, 0);
    lemma_depth(mem_base, mem_size, initrd_start, initrd_end, 14);
    lemma_depth(mem_base, mem_size, initrd_start, initrd_end, 29);
    lemma_depth(mem_base, mem_size, initrd_start, initrd_end, 36);
    lemma_unit_addresses();
    lemma_names();
    assert(forall|k: int| 0 <= k < 4 ==> #[trigger] t[k] == t.subrange(0, 4)[k]);
    assert(forall|k: int| 14 <= k < 18 ==> #[trigger] t[k] == t.subrange(14, 18)[k - 14]);
    assert(forall|k: int| 29 <= k < 36 ==> #[trigger] t[k] == t.subrange(29, 36)[k - 29]);
    assert(forall|k: int| 36 <= k < 43 ==> #[trigger] t[k] == t.subrange(36, 43)[k - 36]);
    lemma_property(t, 1, 2, "#address-cells"@);
    lemma_property(t, 1, 3, "#size-cells"@);
    lemma_be32(2);
    lemma_property(t, 15, 16, "reg"@);
    lemma_one_region(mem_base, mem_size);
    lemma_property(t, 30, 34, "reg"@);
    lemma_two_regions(GICD_BASE, GICD_SIZE, GICR_BASE, GICR_SIZE);
    lemma_property(t, 37, 38, "reg"@);
    lemma_one_region(UART_BASE, UART_SIZE);
    (14, 29, 36)
}

/// The names of the properties differ.
proof fn lemma_names()
    ensures
        "compatible"@ != "#address-cells"@,
        "compatible"@ != "#size-cells"@,
        "#address-cells"@ != "#size-cells"@,
        "device_type"@ != "reg"@,
        "device_type"@ != "compatible"@,
        "device_type"@ != "enable-method"@,
        "compatible"@ != "reg"@,
        "compatible"@ != "enable-method"@,
        "reg"@ != "enable-method"@,
        "interrupt-controller"@ != "reg"@,
        "#interrupt-cells"@ != "reg"@,
        "phandle"@ != "reg"@,
        "compatible"@ != "interrupt-controller"@,
        "compatible"@ != "#interrupt-cells"@,
        "interrupt-controller"@ != "#interrupt-cells"@,
        "compatible"@ != "phandle"@,
        "interrupt-controller"@ != "phandle"@,
        "#interrupt-cells"@ != "phandle"@,
        "compatible"@ != "interrupts"@,
        "compatible"@ != "always-on"@,
        "interrupts"@ != "always-on"@,
        "compatible"@ != "clock-frequency"@,
        "interrupts"@ != "clock-frequency"@,
        "always-on"@ != "clock-frequency"@,
        "compatible"@ != "interrupt-parent"@,
        "interrupts"@ != "interrupt-parent"@,
        "always-on"@ != "interrupt-parent"@,
        "clock-frequency"@ != "interrupt-parent"@,
        "reg"@ != "interrupts"@,
        "reg"@ != "interrupt-parent"@,
        "compatible"@ != "clock-names"@,
        "reg"@ != "clock-names"@,
        "interrupts"@ != "clock-names"@,
        "interrupt-parent"@ != "clock-names"@,
        "compatible"@ != "method"@,
        "bootargs"@ != "stdout-path"@,
        "bootargs"@ != "linux,initrd-start"@,
        "stdout-path"@ != "linux,initrd-start"@,
        "bootargs"@ != "linux,initrd-end"@,
        "stdout-path"@ != "linux,initrd-end"@,
        "linux,initrd-start"@ != "linux,initrd-end"@,
{
    reveal_strlit("compatible");
    reveal_strlit("#address-cells");
    reveal_strlit("#size-cells");
    reveal_strlit("device_type");
    reveal_strlit("reg");
    reveal_strlit("enable-method");
    reveal_strlit("interrupt-controller");
    reveal_strlit("#interrupt-cells");
    reveal_strlit("phandle");
    reveal_strlit("interrupts");
    reveal_strlit("always-on");
    reveal_strlit("clock-frequency");
    reveal_strlit("interrupt-parent");
    reveal_strlit("clock-names");
    reveal_strlit("method");
    reveal_strlit("bootargs");
    reveal_strlit("stdout-path");
    reveal_strlit("linux,initrd-start");
    reveal_strlit("linux,initrd-end");
    assert("compatible"@.len() == 10);
    assert("#address-cells"@.len() == 14);
    assert("#size-cells"@.len() == 11);
    assert("device_type"@.len() == 11);
    assert("reg"@.len() == 3);
    assert("enable-method"@.len() == 13);
    assert("interrupt-controller"@.len() == 20);
    assert("#interrupt-cells"@.len() == 16);
    assert("phandle"@.len() == 7);
    assert("interrupts"@.len() == 10);
    assert("always-on"@.len() == 9);
    assert("clock-frequency"@.len() == 15);
    assert("interrupt-parent"@.len() == 16);
    assert("clock-names"@.len() == 11);
    assert("method"@.len() == 6);
    assert("bootargs"@.len() == 8);
    assert("stdout-path"@.len() == 11);
    assert("linux,initrd-start"@.len() == 18);
    assert("linux,initrd-end"@.len() == 16);
    assert("compatible"@[0] != "interrupts"@[0]);
}

/// Interrupts reach the controller they are meant for: the timer and the UART
/// name as their parent the number by which the controller is known, and give
/// for each interrupt the three cells that the controller asks for. The timer
/// has the per-CPU interrupts 13, 14, 11 and 10, level-sensitive, the UART has
/// the shared interrupt 1, level-sensitive.
pub proof fn law_interrupts_are_wired(
    mem_base: u64,
    mem_size: u64,
    initrd_start: Option<u64>,
    initrd_end: Option<u64>,
) -> (at: (int, int, int))
    ensures
        ({
            let t = dtb_tokens(mem_base, mem_size, initrd_start, initrd_end);
            let (gic, timer, uart) = at;
            &&& node_begins(t, gic, 1, "intc@8000000"@)
            &&& node_begins(t, timer, 1, "timer"@)
            &&& node_begins(t, uart, 1, "pl011@9000000"@)
            &&& property(t, gic + 1, "interrupt-controller"@) == Some(Seq::<u8>::empty())
            &&& number(t, gic, "#interrupt-cells"@) == Some(3nat)
            &&& number(t, gic, "phandle"@) is Some
            &&& number(t, timer, "interrupt-parent"@) == number(t, gic, "phandle"@)
            &&& number(t, uart, "interrupt-parent"@) == number(t, gic, "phandle"@)
            &&& interrupts_of(t, timer) == Some(
                seq![1nat, 13, 0x304, 1, 14, 0x304, 1, 11, 0x304, 1, 10, 0x304],
            )
            &&& interrupts_of(t, uart) == Some(seq![0nat, 1, 4])
            &&& number(t, timer, "clock-frequency"@) == Some(24_000_000nat)
            &&& property(t, timer + 1, "always-on"@) == Some(Seq::<u8>::empty())
        }),
{
    let t = dtb_tokens(mem_base, mem_size, initrd_start, initrd_end);
    lemma_tokens(mem_base, mem_size, initrd_start, initrd_end);
    lemma_depth(mem_base, mem_size, initrd_start, initrd_end, 22);
    lemma_depth(mem_base, mem_size, initrd_start, initrd_end, 29);
    lemma_depth(mem_base, mem_size, initrd_start, initrd_end, 36);
    lemma_unit_addresses();
    lemma_names();
    assert(forall|k: int| 22 <= k < 29 ==> #[trigger] t[k] == t.subrange(22, 29)[k - 22]);
    assert(forall|k: int| 29 <= k < 36 ==> #[trigger] t[k] == t.subrange(29, 36)[k - 29]);
    assert(forall|k: int| 36 <= k < 43 ==> #[trigger] t[k] == t.subrange(36, 43)[k - 36]);
    lemma_property(t, 30, 31, "interrupt-controller"@);
    lemma_property(t, 30, 32, "#interrupt-cells"@);
    lemma_property(t, 30, 33, "phandle"@);
    lemma_be32(3);
    lemma_be32(1);
    lemma_property(t, 23, 24, "interrupts"@);
    lemma_property(t, 23, 25, "always-on"@);
    lemma_property(t, 23, 26, "clock-frequency"@);
    lemma_property(t, 23, 27, "interrupt-parent"@);
    lemma_be32(24_000_000);
    lemma_property(t, 37, 39, "interrupts"@);
    lemma_property(t, 37, 40, "interrupt-parent"@);
    lemma_cells(timer_interrupts());
    assert(timer_interrupts().map_values(|x: u32| x as nat) =~= seq![
        1nat, 13, 0x304, 1, 14, 0x304, 1, 11, 0x304, 1, 10, 0x304,
    ]);
    lemma_cells(seq![0, UART_SPI, 4]);
    assert(seq![0, UART_SPI, 4].map_values(|x: u32| x as nat) =~= seq![0nat, 1, 4]);
    (29, 22, 36)
}

/// There is one CPU, number 0 by the cell counts of its own parent, and it is
/// started by PSCI, which is called by HVC.
pub proof fn law_one_cpu(
    mem_base: u64,
    mem_size: u64,
    initrd_start: Option<u64>,
    initrd_end: Option<u64>,
) -> (at: (int, int, int))
    ensures
        ({
            let t = dtb_tokens(mem_base, mem_size, initrd_start, initrd_end);
            let (cpus, cpu, psci) = at;
            &&& node_begins(t, cpus, 1, "cpus"@)
            &&& node_begins(t, cpu, 2, "cpu@0"@)
            &&& node_begins(t, psci, 1, "psci"@)
            &&& cpus < cpu
            &&& forall|k: int|
                cpus < k <= cpu ==> fdt::open_nodes(#[trigger] t.take(k)) == 2
            &&& regions_of(t, cpus, cpu) == Some(seq![(0nat, 0nat)])
            &&& number(t, cpus, "#size-cells"@) == Some(0nat)
            &&& property(t, cpu + 1, "device_type"@) == Some(fdt::string_value("cpu"@))
            &&& property(t, cpu + 1, "compatible"@) == Some(fdt::string_value("arm,arm-v8"@))
            &&& property(t, cpu + 1, "enable-method"@) == Some(fdt::string_value("psci"@))
            &&& property(t, psci + 1, "compatible"@) == Some(fdt::string_value("arm,psci-1.0"@))
            &&& property(t, psci + 1, "method"@) == Some(fdt::string_value("hvc"@))
        }),
{
    let t = dtb_tokens(mem_base, mem_size, initrd_start, initrd_end);
    lemma_tokens(mem_base, mem_size, initrd_start, initrd_end);
    lemma_depth(mem_base, mem_size, initrd_start, initrd_end, 4);
    lemma_depth(mem_base, mem_size, initrd_start, initrd_end, 5);
    lemma_depth(mem_base, mem_size, initrd_start, initrd_end, 6);
    lemma_depth(mem_base, mem_size, initrd_start, initrd_end, 7);
    lemma_depth(mem_base, mem_size, initrd_start, initrd_end, 18);
    lemma_names();
    assert(forall|k: int| 4 <= k < 14 ==> #[trigger] t[k] == t.subrange(4, 14)[k - 4]);
    assert(forall|k: int| 18 <= k < 22 ==> #[trigger] t[k] == t.subrange(18, 22)[k - 18]);
    lemma_property(t, 5, 5, "#address-cells"@);
    lemma_property(t, 5, 6, "#size-cells"@);
    lemma_be32(1);
    lemma_be32(0);
    lemma_property(t, 8, 8, "device_type"@);
    lemma_property(t, 8, 9, "compatible"@);
    lemma_property(t, 8, 10, "reg"@);
    lemma_property(t, 8, 11, "enable-method"@);
    lemma_property(t, 19, 19, "compatible"@);
    lemma_property(t, 19, 20, "method"@);
    let value = bytes::be_bytes(0, 4);
    assert(value.take(4) =~= value);
    assert(value.subrange(4, 4) =~= Seq::empty());
    assert(value.skip(4) =~= Seq::empty());
    assert(regions(Seq::empty(), 1, 0) =~= Seq::empty());
    assert(regions(value, 1, 0) =~= seq![(0nat, 0nat)]);
    assert forall|k: int| 4 < k <= 7 implies fdt::open_nodes(#[trigger] t.take(k)) == 2 by {
        lemma_depth(mem_base, mem_size, initrd_start, initrd_end, k);
    }
    (4, 7, 18)
}

/// The kernel finds drivers by these names: each device says what it is
/// compatible with, the UART twice, as a PL011 and as a PrimeCell.
pub proof fn law_devices_say_what_they_are(
    mem_base: u64,
    mem_size: u64,
    initrd_start: Option<u64>,
    initrd_end: Option<u64>,
) -> (at: (int, int, int, int))
    ensures
        ({
            let t = dtb_tokens(mem_base, mem_size, initrd_start, initrd_end);
            let (memory, timer, gic, uart) = at;
            &&& node_begins(t, memory, 1, "memory@"@ + text::hex(mem_base as nat))
            &&& node_begins(t, timer, 1, "timer"@)
            &&& node_begins(t, gic, 1, "intc@8000000"@)
            &&& node_begins(t, uart, 1, "pl011@9000000"@)
            &&& property(t, 1, "compatible"@) == Some(fdt::string_value("linux,dummy-virt"@))
            &&& property(t, memory + 1, "device_type"@) == Some(fdt::string_value("memory"@))
            &&& property(t, timer + 1, "compatible"@) == Some(
                fdt::string_value("arm,armv8-timer"@),
            )
            &&& property(t, gic + 1, "compatible"@) == Some(fdt::string_value("arm,gic-v3"@))
            &&& property(t, uart + 1, "compatible"@) == Some(
                fdt::string_value("arm,pl011"@) + fdt::string_value("arm,primecell"@),
            )
            &&& property(t, uart + 1, "clock-names"@) == Some(
                fdt::string_value("uartclk"@) + fdt::string_value("apb_pclk"@),
            )
        }),
{
    let t = dtb_tokens(mem_base, mem_size, initrd_start, initrd_end);
    lemma_tokens(mem_base, mem_size, initrd_start, initrd_end);
    lemma_depth(mem_base, mem_size, initrd_start, initrd_end, 14);
    lemma_depth(mem_base, mem_size, initrd_start, initrd_end, 22);
    lemma_depth(mem_base, mem_size, initrd_start, initrd_end, 29);
    lemma_depth(mem_base, mem_size, initrd_start, initrd_end, 36);
    lemma_unit_addresses();
    lemma_names();
    assert(forall|k: int| 0 <= k < 4 ==> #[trigger] t[k] == t.subrange(0, 4)[k]);
    assert(forall|k: int| 14 <= k < 18 ==> #[trigger] t[k] == t.subrange(14, 18)[k - 14]);
    assert(forall|k: int| 22 <= k < 29 ==> #[trigger] t[k] == t.subrange(22, 29)[k - 22]);
    assert(forall|k: int| 29 <= k < 36 ==> #[trigger] t[k] == t.subrange(29, 36)[k - 29]);
    assert(forall|k: int| 36 <= k < 43 ==> #[trigger] t[k] == t.subrange(36, 43)[k - 36]);
    lemma_property(t, 1, 1, "compatible"@);
    lemma_property(t, 15, 15, "device_type"@);
    lemma_property(t, 23, 23, "compatible"@);
    lemma_property(t, 30, 30, "compatible"@);
    lemma_property(t, 37, 37, "compatible"@);
    lemma_property(t, 37, 41, "clock-names"@);
    (14, 22, 29, 36)
}

/// What the kernel is told at boot: its command line, that its console is the
/// UART (by the path of that node), and where the initramfs is, exactly if both
/// of its ends are known.
pub proof fn law_boot_parameters(
    mem_base: u64,
    mem_size: u64,
    initrd_start: Option<u64>,
    initrd_end: Option<u64>,
) -> (chosen: int)
    ensures
        ({
            let t = dtb_tokens(mem_base, mem_size, initrd_start, initrd_end);
            &&& node_begins(t, chosen, 1, "chosen"@)
            &&& property(t, chosen + 1, "bootargs"@) == Some(fdt::string_value(BOOTARGS@))
            &&& property(t, chosen + 1, "stdout-path"@) == Some(
                fdt::string_value("/pl011@9000000"@),
            )
            &&& initrd_start is Some && initrd_end is Some ==> {
                &&& number(t, chosen, "linux,initrd-start"@) == Some(initrd_start->0 as nat)
                &&& number(t, chosen, "linux,initrd-end"@) == Some(initrd_end->0 as nat)
            }
            &&& initrd_start is None || initrd_end is None ==> {
                &&& property(t, chosen + 1, "linux,initrd-start"@) is None
                &&& property(t, chosen + 1, "linux,initrd-end"@) is None
            }
        }),
{
    let t = dtb_tokens(mem_base, mem_size, initrd_start, initrd_end);
    lemma_tokens(mem_base, mem_size, initrd_start, initrd_end);
    lemma_depth(mem_base, mem_size, initrd_start, initrd_end, 43);
    lemma_unit_addresses();
    lemma_names();
    assert(forall|k: int| 43 <= k < 46 ==> #[trigger] t[k] == t.subrange(43, 46)[k - 43]);
    lemma_property(t, 44, 44, "bootargs"@);
    lemma_property(t, 44, 45, "stdout-path"@);
    if initrd_start is Some && initrd_end is Some {
        assert(t[46] == t.subrange(46, t.len() - 2)[0]);
        assert(t[47] == t.subrange(46, t.len() - 2)[1]);
        lemma_property(t, 44, 46, "linux,initrd-start"@);
        lemma_property(t, 44, 47, "linux,initrd-end"@);
        lemma_be64(initrd_start->0);
        lemma_be64(initrd_end->0);
    } else {
        assert(t[46] == end());
        reveal_with_fuel(property, 4);
    }
    43
}

/// The command line puts the early console at the UART's address and the
/// console on the UART, keeps chance out of the boot, and tells the kernel not
/// to calibrate its delay loop against a clock.
pub proof fn law_command_line()
    ensures
        BOOTARGS@.subrange(0, 32) == "earlycon=pl011,mmio32,0x09000000"@,
        exists|i: int| #[trigger] is_word(BOOTARGS@, i, "nokaslr"@),
        exists|i: int| #[trigger] is_word(BOOTARGS@, i, "norandmaps"@),
        exists|i: int| #[trigger] is_word(BOOTARGS@, i, "random.trust_cpu=on"@),
        exists|i: int| #[trigger] is_word(BOOTARGS@, i, "nosmp"@),
        exists|i: int| #[trigger] is_word(BOOTARGS@, i, "clocksource=arch_sys_counter"@),
        exists|i: int| #[trigger] is_word(BOOTARGS@, i, "nohz=off"@),
        exists|i: int| #[trigger] is_word(BOOTARGS@, i, "console=ttyAMA0"@),
        exists|i: int| #[trigger] is_word(BOOTARGS@, i, "lpj=50000"@),
{
    reveal_strlit("earlycon=pl011,mmio32,0x09000000 nokaslr norandmaps random.trust_cpu=on nosmp clocksource=arch_sys_counter nohz=off console=ttyAMA0 lpj=50000");
    reveal_strlit("earlycon=pl011,mmio32,0x09000000");
    reveal_strlit("nokaslr");
    reveal_strlit("norandmaps");
    reveal_strlit("random.trust_cpu=on");
    reveal_strlit("nosmp");
    reveal_strlit("clocksource=arch_sys_counter");
    reveal_strlit("nohz=off");
    reveal_strlit("console=ttyAMA0");
    reveal_strlit("lpj=50000");
    assert(BOOTARGS@.subrange(0, 32) =~= "earlycon=pl011,mmio32,0x09000000"@);
    assert(BOOTARGS@.subrange(33, 40) =~= "nokaslr"@);
    assert(is_word(BOOTARGS@, 33, "nokaslr"@));
    assert(BOOTARGS@.subrange(41, 51) =~= "norandmaps"@);
    assert(is_word(BOOTARGS@, 41, "norandmaps"@));
    assert(BOOTARGS@.subrange(52, 71) =~= "random.trust_cpu=on"@);
    assert(is_word(BOOTARGS@, 52, "random.trust_cpu=on"@));
    assert(BOOTARGS@.subrange(72, 77) =~= "nosmp"@);
    assert(is_word(BOOTARGS@, 72, "nosmp"@));
    assert(BOOTARGS@.subrange(78, 106) =~= "clocksource=arch_sys_counter"@);
    assert(is_word(BOOTARGS@, 78, "clocksource=arch_sys_counter"@));
    assert(BOOTARGS@.subrange(107, 115) =~= "nohz=off"@);
    assert(is_word(BOOTARGS@, 107, "nohz=off"@));
    assert(BOOTARGS@.subrange(116, 131) =~= "console=ttyAMA0"@);
    assert(is_word(BOOTARGS@, 116, "console=ttyAMA0"@));
    assert(BOOTARGS@.subrange(132, 141) =~= "lpj=50000"@);
    assert(is_word(BOOTARGS@, 132, "lpj=50000"@));
}

/// `word` stands at place `i` of `s`, between spaces or the ends.
pub open spec fn is_word(s: Seq<char>, i: int, word: Seq<char>) -> bool {
    &&& 0 <= i
    &&& i + word.len() <= s.len()
    &&& s.subrange(i, i + word.len()) == word
    &&& i == 0 || s[i - 1] == ' '
    &&& i + word.len() == s.len() || s[i + word.len() as int] == ' '
}

/// The tokens make one tree: the root opens first and closes last, with every
/// other node inside it and closed before.
pub proof fn law_tokens_make_one_tree(
    mem_base: u64,
    mem_size: u64,
    initrd_start: Option<u64>,
    initrd_end: Option<u64>,
    k: int,
)
    requires
        0 < k < dtb_tokens(mem_base, mem_size, initrd_start, initrd_end).len(),
    ensures
        ({
            let t = dtb_tokens(mem_base, mem_size, initrd_start, initrd_end);
            &&& t[0].0 == FDT_BEGIN_NODE
            &&& t[0].1.len() == 0
            &&& fdt::open_nodes(t.take(k)) >= 1
            &&& fdt::open_nodes(t) == 0
            &&& t[k].0 == FDT_PROP ==> t[k - 1].0 != FDT_END_NODE
        }),
{
    let t = dtb_tokens(mem_base, mem_size, initrd_start, initrd_end);
    reveal_strlit("");
    lemma_tokens(mem_base, mem_size, initrd_start, initrd_end);
    lemma_depth(mem_base, mem_size, initrd_start, initrd_end, k);
    lemma_depth(mem_base, mem_size, initrd_start, initrd_end, t.len() as int);
    lemma_kind(mem_base, mem_size, initrd_start, initrd_end, k);
    lemma_kind(mem_base, mem_size, initrd_start, initrd_end, k - 1);
    assert(t.take(t.len() as int) =~= t);
    assert(t[0] == t.subrange(0, 4)[0]);
}

} // verus!
