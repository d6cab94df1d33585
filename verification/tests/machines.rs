//! Machine lifecycle decisions, the composer, and the storage effector
//! decisions.

use virtus::cluster::catalog::Catalog;
use virtus::disk::Disk as LocalDisk;
use virtus::ids::format_id;
use virtus::image::Image;
use virtus::storage::{create_disk_command, create_disk_outcome, delete_disk_outcome,
    disk_filename};
use virtus::vm::{delete_plan, project_state, start_plan, DeleteAction, StartAction,
    VMState, VM, RAW_BLOCKED, RAW_CRASHED, RAW_PAUSED, RAW_PMSUSPENDED, RAW_RUNNING,
    RAW_SHUTDOWN, RAW_SHUTOFF};

#[test]
fn state_projection_table() {
    assert_eq!(project_state(Some(RAW_RUNNING)), VMState::RUNNING);
    assert_eq!(project_state(Some(RAW_PAUSED)), VMState::PAUSED);
    assert_eq!(project_state(Some(RAW_BLOCKED)), VMState::PAUSED);
    assert_eq!(project_state(Some(RAW_PMSUSPENDED)), VMState::PAUSED);
    assert_eq!(project_state(Some(RAW_SHUTDOWN)), VMState::SHUTTING_DOWN);
    assert_eq!(project_state(Some(RAW_SHUTOFF)), VMState::STOPPED);
    assert_eq!(project_state(Some(RAW_CRASHED)), VMState::STOPPED);
    assert_eq!(project_state(Some(0)), VMState::UNDEFINED);
    assert_eq!(project_state(Some(250)), VMState::UNDEFINED);
    assert_eq!(project_state(None), VMState::UNDEFINED);
}

#[test]
fn start_transition_table() {
    assert_eq!(start_plan(VMState::STOPPED), Ok(StartAction::Create));
    assert_eq!(start_plan(VMState::PAUSED), Ok(StartAction::Resume));
    assert_eq!(start_plan(VMState::RUNNING), Ok(StartAction::NoOp));
    assert_eq!(
        start_plan(VMState::SHUTTING_DOWN),
        Err(virtus::error::VirtusError::VMShuttingDown)
    );
    assert_eq!(
        start_plan(VMState::UNDEFINED),
        Err(virtus::error::VirtusError::VMUndefined)
    );
}

#[test]
fn delete_transition_table() {
    assert_eq!(delete_plan(VMState::RUNNING), DeleteAction::DestroyAndUndefine);
    assert_eq!(delete_plan(VMState::SHUTTING_DOWN), DeleteAction::DestroyAndUndefine);
    assert_eq!(delete_plan(VMState::PAUSED), DeleteAction::DestroyAndUndefine);
    assert_eq!(delete_plan(VMState::STOPPED), DeleteAction::Undefine);
    assert_eq!(delete_plan(VMState::UNDEFINED), DeleteAction::NoAction);
}

#[test]
fn repeated_undefine_succeeds() {
    // After a delete, the domain projects as undefined; deleting again
    // asks nothing of the hypervisor, so it cannot fail.
    let after_first_delete = project_state(None);
    assert_eq!(delete_plan(after_first_delete), DeleteAction::NoAction);
}

#[test]
fn repeated_delete_disk_succeeds() {
    assert!(delete_disk_outcome(true).is_ok());
    assert!(delete_disk_outcome(false).is_ok(), "an absent file is not an error");
}

#[test]
fn tool_failure_carries_stderr() {
    assert!(create_disk_outcome(true, "").is_ok());
    match create_disk_outcome(false, "qemu-img: cannot create") {
        Err(virtus::cluster::error::Error::CommandFailed(m)) => {
            assert_eq!(m, "qemu-img: cannot create");
        }
        _ => panic!("a non-zero exit is a command failure"),
    }
}

#[test]
fn storage_paths_and_commands_are_exact() {
    assert_eq!(
        disk_filename("/srv/p1", 5),
        "/srv/p1/00000000-0000-0000-0000-000000000005.qcow2".to_string()
    );
    assert_eq!(
        create_disk_command("/srv/p1/d.qcow2", 1),
        "qemu-img create -f qcow2 /srv/p1/d.qcow2 1".to_string()
    );
    assert_eq!(
        create_disk_command("/x", 18446744073709551615),
        "qemu-img create -f qcow2 /x 18446744073709551615".to_string()
    );
}

#[test]
fn composer_is_deterministic_and_exact() {
    let mut store = Catalog::new();
    let image = Image::new("/isos/setup.iso".to_string(), true, &mut store);
    let disk = LocalDisk::new(1024, "/var/lib/virtus", 6, true, &mut store).unwrap();
    let vm = VM::new("vm1", 2, 4096, disk.get_id(), &image, 30, &mut store).unwrap();

    let disks = vec![disk];
    let names = vec!["veth-a".to_string()];
    let one = vm.to_xml(&disks, &image, &names);
    let two = vm.to_xml(&disks, &image, &names);
    assert_eq!(one, two, "equal inputs give byte-equal documents");

    let mut expected = String::new();
    expected.push_str("<domain type=\"kvm\"><name>vm1</name><uuid>");
    expected.push_str(&format_id(vm.get_id()));
    expected.push_str("</uuid><memory unit=\"bytes\">4096</memory><vcpu>2</vcpu>");
    expected.push_str("<os><type arch=\"x86_64\" machine=\"q35\">hvm</type></os>");
    expected.push_str("<devices>");
    expected.push_str("<disk type=\"file\" device=\"disk\">");
    expected.push_str("<driver name=\"qemu\" type=\"qcow2\"/>");
    expected.push_str("<source file=\"/var/lib/virtus/disks/");
    expected.push_str(&format_id(disks[0].get_id()));
    expected.push_str(".qcow2\"/>");
    expected.push_str("<target dev=\"vda\" bus=\"virtio\"/></disk>");
    expected.push_str("<disk type=\"file\" device=\"cdrom\">");
    expected.push_str("<driver name=\"qemu\" type=\"raw\"/>");
    expected.push_str("<source file=\"/isos/setup.iso\"/>");
    expected.push_str("<target dev=\"sda\" bus=\"sata\"/>");
    expected.push_str("<boot order=\"1\"/></disk>");
    expected.push_str("<interface type=\"direct\">");
    expected.push_str("<source dev=\"veth-a\" mode=\"bridge\"/>");
    expected.push_str("<model type=\"virtio\"/></interface>");
    expected.push_str("<console type=\"pty\"/><input type=\"tablet\" bus=\"usb\"/>");
    expected.push_str(
        "<graphics type=\"spice\" port=\"-1\" tlsPort=\"-1\" autoport=\"yes\">");
    expected.push_str("<image compression=\"off\"/></graphics>");
    expected.push_str("<rng model=\"virtio\">");
    expected.push_str("<backend model=\"random\">/dev/urandom</backend></rng>");
    expected.push_str("</devices></domain>");
    assert_eq!(one, expected);
}

#[test]
fn composer_escapes_markup_in_names() {
    let mut store = Catalog::new();
    let image = Image::new("/isos/a&b.iso".to_string(), false, &mut store);
    let vm = VM::new("a<b>&\"c'", 1, 64, 1, &image, 2, &mut store).unwrap();
    let xml = vm.to_xml(&Vec::new(), &image, &Vec::new());
    assert!(xml.contains("<name>a&lt;b&gt;&amp;&quot;c&apos;</name>"));
}

#[test]
fn composer_skips_cdrom_without_installer() {
    let mut store = Catalog::new();
    let image = Image::new("/isos/tmpl.img".to_string(), false, &mut store);
    let vm = VM::new("plain", 1, 64, 1, &image, 2, &mut store).unwrap();
    let xml = vm.to_xml(&Vec::new(), &image, &Vec::new());
    assert!(!xml.contains("cdrom"));
}

#[test]
fn find_locates_by_name() {
    let mut store = Catalog::new();
    let image = Image::new("/i".to_string(), false, &mut store);
    let vm = VM::new("lookup-me", 1, 64, 1, &image, 2, &mut store).unwrap();
    let found = VM::find("lookup-me", &store).unwrap();
    assert_eq!(found.map(|v| v.get_id()), Some(vm.get_id()));
    assert!(VM::find("absent", &store).unwrap().is_none());
}

#[test]
fn local_disk_delete_hands_back_the_file() {
    let mut store = Catalog::new();
    let disk = LocalDisk::new(512, "/var/lib/virtus", 8, true, &mut store).unwrap();
    let expected = disk.get_filename();
    let removed = LocalDisk::delete_by_id(8, &mut store);
    assert_eq!(removed, Some(expected));
    assert_eq!(LocalDisk::list(&store).len(), 0);
    // Deleting again finds no record: nothing to remove, not an error.
    assert_eq!(LocalDisk::delete_by_id(8, &mut store), None);
}

#[test]
fn failed_tool_records_no_local_disk() {
    let mut store = Catalog::new();
    let r = LocalDisk::new(512, "/var/lib/virtus", 9, false, &mut store);
    assert_eq!(r.err(), Some(virtus::error::VirtusError::DiskError));
    assert_eq!(LocalDisk::list(&store).len(), 0);
}

#[test]
fn vm_delete_cascades_to_disks_and_interfaces() {
    let mut store = Catalog::new();
    let image = Image::new("/i".to_string(), false, &mut store);
    let disk = LocalDisk::new(256, "/var/lib/virtus", 41, true, &mut store).unwrap();
    let mut net = virtus::network::Network::new("lan", None, None, None, &mut store)
        .unwrap();
    let iface = virtus::interface::Interface::new(&mut net, 8, 9, &mut store);
    let vm = VM::new("gone", 1, 64, disk.get_id(), &image, iface.get_id(), &mut store)
        .unwrap();

    let teardown = VM::delete_by_id(vm.get_id(), None, &mut store)
        .expect("the machine is in the store");
    assert_eq!(teardown.action, DeleteAction::NoAction);
    assert_eq!(teardown.disk_files, vec![disk.get_filename()]);
    assert_eq!(teardown.links, vec![(8, 9)]);
    assert_eq!(VM::list(&store).len(), 0);
    assert_eq!(LocalDisk::list(&store).len(), 0);
    assert_eq!(virtus::interface::Interface::list(&store).len(), 0);
    // The network record survives, with its cached list emptied.
    let net_back = virtus::network::Network::get(net.get_id(), &store).unwrap();
    assert_eq!(net_back.get_interfaces().len(), 0);
    // Deleting the same machine again finds nothing and changes nothing.
    assert!(VM::delete_by_id(vm.get_id(), None, &mut store).is_none());
}

#[test]
fn network_delete_cascades_to_interfaces() {
    let mut store = Catalog::new();
    let mut net = virtus::network::Network::new("lan", None, None, None, &mut store)
        .unwrap();
    virtus::interface::Interface::new(&mut net, 1, 2, &mut store);
    virtus::interface::Interface::new(&mut net, 3, 4, &mut store);
    let links = virtus::network::Network::delete_by_id(net.get_id(), &mut store)
        .expect("the network is in the store");
    assert_eq!(links, vec![(1, 2), (3, 4)]);
    assert_eq!(virtus::network::Network::list(&store).len(), 0);
    assert_eq!(virtus::interface::Interface::list(&store).len(), 0);
    assert!(virtus::network::Network::delete_by_id(net.get_id(), &mut store).is_none());
}
