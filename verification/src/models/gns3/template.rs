use vstd::prelude::*;
use crate::text::owned;

verus! {

/// A node template of the emulation server.
#[derive(Debug, Clone)]
pub struct Gns3Template {
    pub name: String,
    pub category: TemplateCategory,
    pub builtin: bool,
    pub template_id: String,
    pub symbol: String,
    pub default_name_format: String,
    pub compute_id: Option<String>,
    pub template_type: TemplateType,
}

#[derive(Debug, Clone, Copy, PartialEq, Eq, Structural)]
pub enum TemplateCategory {
    Guest,
    Switch,
    Router,
}

#[derive(Debug, Clone)]
pub enum TemplateType {
    Qemu(Gns3QemuTemplate),
    Cloud,
    Nat,
    Vpcs(Gns3VpcsTemplate),
    EthernetSwitch,
    EthernetHub,
    FrameRelaySwitch,
    AtmSwitch,
}

#[derive(Debug, Clone)]
pub struct Gns3QemuTemplate {
    pub adapter_type: String,
    pub adapters: u32,
    pub custom_adapters: Vec<String>,
    pub cpus: u32,
    pub cpu_throttling: u32,
    pub ram: u32,
    pub legacy_networking: bool,
    pub replicate_network_connection_state: bool,
    pub mac_address: String,
    pub console_type: String,
    pub console_auto_start: bool,
    pub create_config_disk: bool,
    pub hda_disk_image: String,
    pub hda_disk_interface: String,
    pub hdb_disk_image: String,
    pub hdb_disk_interface: String,
    pub hdc_disk_image: String,
    pub hdc_disk_interface: String,
    pub hdd_disk_image: String,
    pub hdd_disk_interface: String,
    pub first_port_name: String,
    pub port_name_format: String,
    pub port_segment_size: u32,
    pub process_priority: String,
    pub qemu_path: String,
    pub platform: String,
    pub on_close: String,
    pub linked_clone: bool,
    pub kernel_image: String,
    pub kernel_command_line: String,
    pub cdrom_image: String,
    pub bios_image: String,
    pub boot_priority: String,
    pub initrd: String,
    pub tpm: bool,
    pub uefi: bool,
    pub options: String,
    pub usage: String,
}

/// A template of a virtual PC, with its properties by name.
#[derive(Debug, Clone)]
pub struct Gns3VpcsTemplate {
    pub properties: Vec<(String, String)>,
}


/// The settings of a QEMU template made for an experiment machine: its
/// processors, memory, adapters and disk image; telnet console, linked
/// clones, IDE disk, power off on close, the other settings empty or off.
pub open spec fn qemu_settings(
    q: Gns3QemuTemplate,
    vcpu: u32,
    ram: u32,
    adapters: u32,
    adapter_type: Seq<char>,
    image: Seq<char>,
) -> bool {
    &&& q.adapter_type@ == adapter_type
    &&& q.adapters == adapters
    &&& q.custom_adapters@.len() == 0
    &&& q.cpus == vcpu
    &&& q.cpu_throttling == 0
    &&& q.ram == ram
    &&& q.legacy_networking == false
    &&& q.replicate_network_connection_state == true
    &&& q.mac_address@.len() == 0
    &&& q.console_type@ == "telnet"@
    &&& q.console_auto_start == false
    &&& q.create_config_disk == false
    &&& q.hda_disk_image@ == image
    &&& q.hda_disk_interface@ == "ide"@
    &&& q.hdb_disk_image@.len() == 0
    &&& q.hdb_disk_interface@ == "none"@
    &&& q.hdc_disk_image@.len() == 0
    &&& q.hdc_disk_interface@ == "none"@
    &&& q.hdd_disk_image@.len() == 0
    &&& q.hdd_disk_interface@ == "none"@
    &&& q.first_port_name@.len() == 0
    &&& q.port_name_format@ == "Ethernet{0}"@
    &&& q.port_segment_size == 0
    &&& q.process_priority@ == "normal"@
    &&& q.qemu_path@.len() == 0
    &&& q.platform@ == "x86_64"@
    &&& q.on_close@ == "power_off"@
    &&& q.linked_clone == true
    &&& q.kernel_image@.len() == 0
    &&& q.kernel_command_line@.len() == 0
    &&& q.cdrom_image@.len() == 0
    &&& q.bios_image@.len() == 0
    &&& q.boot_priority@ == "c"@
    &&& q.initrd@.len() == 0
    &&& q.tpm == false
    &&& q.uefi == false
    &&& q.options@.len() == 0
    &&& q.usage@.len() == 0
}

/// The template of an experiment machine, named `name`, run by QEMU in the
/// local compute.
pub fn qemu_template(
    name: &str,
    category: TemplateCategory,
    vcpu: u32,
    ram: u32,
    adapters: u32,
    adapter_type: &str,
    image: &str,
) -> (r: Gns3Template)
    ensures
        r.name@ == name@,
        r.category == category,
        !r.builtin,
        r.template_id@.len() == 0,
        r.symbol@ == ":/symbols/classic/computer.svg"@,
        r.default_name_format@ == "{name}-{0}"@,
        r.compute_id matches Some(c) && c@ == "local"@,
        r.template_type matches TemplateType::Qemu(q) && qemu_settings(q, vcpu, ram, adapters, adapter_type@, image@),
{
    Gns3Template {
        name: owned(name),
        category,
        builtin: false,
        template_id: String::new(),
        symbol: owned(":/symbols/classic/computer.svg"),
        default_name_format: owned("{name}-{0}"),
        compute_id: Some(owned("local")),
        template_type: TemplateType::Qemu(Gns3QemuTemplate {
            adapter_type: owned(adapter_type),
            adapters: adapters,
            custom_adapters: Vec::new(),
            cpus: vcpu,
            cpu_throttling: 0,
            ram: ram,
            legacy_networking: false,
            replicate_network_connection_state: true,
            mac_address: String::new(),
            console_type: owned("telnet"),
            console_auto_start: false,
            create_config_disk: false,
            hda_disk_image: owned(image),
            hda_disk_interface: owned("ide"),
            hdb_disk_image: String::new(),
            hdb_disk_interface: owned("none"),
            hdc_disk_image: String::new(),
            hdc_disk_interface: owned("none"),
            hdd_disk_image: String::new(),
            hdd_disk_interface: owned("none"),
            first_port_name: String::new(),
            port_name_format: owned("Ethernet{0}"),
            port_segment_size: 0,
            process_priority: owned("normal"),
            qemu_path: String::new(),
            platform: owned("x86_64"),
            on_close: owned("power_off"),
            linked_clone: true,
            kernel_image: String::new(),
            kernel_command_line: String::new(),
            cdrom_image: String::new(),
            bios_image: String::new(),
            boot_priority: owned("c"),
            initrd: String::new(),
            tpm: false,
            uefi: false,
            options: String::new(),
            usage: String::new(),
        }),
    }
}

} // verus!
