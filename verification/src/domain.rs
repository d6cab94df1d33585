//! Standalone domain descriptions.
//!
//! A small, self-contained shape for a domain definition: name, processor
//! count, memory and OS subtree, rendered as an XML document for the
//! hypervisor's define-from-text primitive.

use vstd::prelude::*;
use crate::strutil::{dec_chars, u64_to_string};
use crate::xml::{xml_escaped, append_xml_escaped};

verus! {

/// The processor count element.
#[derive(Clone, Copy, PartialEq, Eq, Structural, Debug)]
pub struct CPU {
    pub num: i8,
}

/// The memory element: a unit attribute and a size.
#[derive(Clone, PartialEq, Eq, Debug)]
pub struct Memory {
    pub unit: String,
    pub size: i32,
}

/// The device a domain boots from.
#[derive(Clone, Copy, PartialEq, Eq, Structural, Debug, Default)]
pub enum OSBootDev {
    #[default]
    HD,
    FD,
    CDROM,
    Network,
}

/// The wire name of a boot device.
pub open spec fn boot_dev_chars(d: OSBootDev) -> Seq<char> {
    match d {
        OSBootDev::HD => "hd"@,
        OSBootDev::FD => "fd"@,
        OSBootDev::CDROM => "cdrom"@,
        OSBootDev::Network => "network"@,
    }
}

/// The boot element.
#[derive(Clone, Copy, PartialEq, Eq, Structural, Debug, Default)]
pub struct OSBoot {
    pub dev: OSBootDev,
}

/// The OS type element: an architecture attribute and a text.
#[derive(Clone, PartialEq, Eq, Debug)]
pub struct OSType {
    pub arch: String,
    pub text: String,
}

impl Default for OSType {
    /// The fixed machine type: 64-bit hardware virtualization.
    fn default() -> (r: OSType)
        ensures
            r.arch@ == "x86_64"@,
            r.text@ == "hvm"@,
    {
        OSType {
            arch: String::from_str("x86_64"),
            text: String::from_str("hvm"),
        }
    }
}

/// The OS subtree.
#[derive(Clone, PartialEq, Eq, Debug)]
pub struct OS {
    pub os_type: OSType,
    pub boot: OSBoot,
}

/// The virtualization flavor of a domain.
#[derive(Clone, Copy, PartialEq, Eq, Structural, Debug, Default)]
pub enum DomainType {
    #[default]
    KVM,
    XEN,
    HVF,
}

/// The wire name of a domain type.
pub open spec fn domain_type_chars(t: DomainType) -> Seq<char> {
    match t {
        DomainType::KVM => "kvm"@,
        DomainType::XEN => "xen"@,
        DomainType::HVF => "hvf"@,
    }
}

/// A standalone domain description.
#[derive(Clone, PartialEq, Eq, Debug)]
pub struct DomainConfig {
    pub domain_type: DomainType,
    pub name: String,
    pub cpus: CPU,
    pub memory: Memory,
    pub os: OS,
}

/// The document a description renders to.
pub open spec fn domain_config_xml(domain_type: DomainType, name: Seq<char>, num: i8,
    unit: Seq<char>, size: i32, arch: Seq<char>, text: Seq<char>, dev: OSBootDev)
    -> Seq<char> {
    "<domain type=\""@ + domain_type_chars(domain_type) + "\"><name>"@
        + xml_escaped(name) + "</name><vcpu>"@ + dec_chars(num as int)
        + "</vcpu><memory unit=\""@ + xml_escaped(unit) + "\">"@
        + dec_chars(size as int) + "</memory><os><type arch=\""@ + xml_escaped(arch)
        + "\">"@ + xml_escaped(text) + "</type><boot dev=\""@ + boot_dev_chars(dev)
        + "\"/></os></domain>"@
}

impl DomainConfig {
    /// A description with the default flavor, unit and OS subtree: memory
    /// in mebibytes on 64-bit hardware virtualization, booting from disk.
    pub fn new(name: String, cpus: i8, memory: i32) -> (r: DomainConfig)
        ensures
            r.domain_type == DomainType::KVM,
            r.name@ == name@,
            r.cpus == (CPU { num: cpus }),
            r.memory.unit@ == "MiB"@,
            r.memory.size == memory,
            r.os.os_type.arch@ == "x86_64"@,
            r.os.os_type.text@ == "hvm"@,
            r.os.boot.dev == OSBootDev::HD,
    {
        DomainConfig {
            domain_type: DomainType::KVM,
            name,
            cpus: CPU { num: cpus },
            memory: Memory {
                unit: String::from_str("MiB"),
                size: memory,
            },
            os: OS {
                os_type: OSType::default(),
                boot: OSBoot { dev: OSBootDev::HD },
            },
        }
    }

    /// Renders the description as its domain document.
    pub fn to_xml(&self) -> (r: String)
        requires
            self.cpus.num >= 0,
            self.memory.size >= 0,
        ensures
            r@ == domain_config_xml(self.domain_type, self.name@,
                self.cpus.num, self.memory.unit@, self.memory.size,
                self.os.os_type.arch@, self.os.os_type.text@, self.os.boot.dev),
    {
        let mut out = String::from_str("<domain type=\"");
        match self.domain_type {
            DomainType::KVM => out.append("kvm"),
            DomainType::XEN => out.append("xen"),
            DomainType::HVF => out.append("hvf"),
        }
        out.append("\"><name>");
        append_xml_escaped(&mut out, self.name.as_str());
        out.append("</name><vcpu>");
        let cpu_text = u64_to_string(self.cpus.num as u64);
        out.append(cpu_text.as_str());
        out.append("</vcpu><memory unit=\"");
        append_xml_escaped(&mut out, self.memory.unit.as_str());
        out.append("\">");
        let mem_text = u64_to_string(self.memory.size as u64);
        out.append(mem_text.as_str());
        out.append("</memory><os><type arch=\"");
        append_xml_escaped(&mut out, self.os.os_type.arch.as_str());
        out.append("\">");
        append_xml_escaped(&mut out, self.os.os_type.text.as_str());
        out.append("</type><boot dev=\"");
        match self.os.boot.dev {
            OSBootDev::HD => out.append("hd"),
            OSBootDev::FD => out.append("fd"),
            OSBootDev::CDROM => out.append("cdrom"),
            OSBootDev::Network => out.append("network"),
        }
        out.append("\"/></os></domain>");
        proof {
            assert(out@ =~= domain_config_xml(self.domain_type, self.name@,
                self.cpus.num, self.memory.unit@, self.memory.size,
                self.os.os_type.arch@, self.os.os_type.text@, self.os.boot.dev));
        }
        out
    }
}

/// A snapshot of a domain; nothing of it is kept yet.
#[derive(Debug)]
pub struct Snapshot {}

/// The lifecycle state of a standalone domain.
#[allow(non_camel_case_types)]
#[derive(Clone, Copy, PartialEq, Eq, Structural, Debug)]
pub enum State {
    STARTED,
    STOPPED,
    PAUSED,
}

/// A defined domain: its description, its state, and its snapshots. The
/// definition itself is handed to the hypervisor as the rendered document.
#[derive(Debug)]
pub struct Domain {
    config: DomainConfig,
    state: State,
    snapshots: Vec<Snapshot>,
}

impl Domain {
    /// A freshly defined domain: it starts stopped, with no snapshots.
    /// The host hands the rendered document to the hypervisor's
    /// define-from-text primitive.
    pub fn create(config: DomainConfig) -> (r: Domain)
        ensures
            r.state_spec() == State::STOPPED,
    {
        Domain {
            config,
            state: State::STOPPED,
            snapshots: Vec::new(),
        }
    }

    /// The domain's lifecycle state.
    pub closed spec fn state_spec(&self) -> State {
        self.state
    }

    /// The domain's lifecycle state.
    pub fn get_state(&self) -> (r: State)
        ensures
            r == self.state_spec(),
    {
        self.state
    }
}

} // verus!
