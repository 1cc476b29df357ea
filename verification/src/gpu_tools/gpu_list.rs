//! The graphics cards of the machine, named from the PCI id database.
use vstd::prelude::*;
use pci_ids::FromId;
use crate::gpu_tools::gpu::{GPU, GPUView, gpu_views};
use crate::utils::text::{concat, find_char, opt_view, to_string};

verus! {

/// The name of the vendor with PCI id `vendor_id` in the PCI id database.
pub uninterp spec fn pci_vendor_name(vendor_id: u16) -> Option<Seq<char>>;

/// The name of the device `device_id` of vendor `vendor_id` in the PCI id
/// database.
pub uninterp spec fn pci_device_name(vendor_id: u16, device_id: u16) -> Option<Seq<char>>;

/// `pci_ids::Vendor::from_id` and `Vendor::name`: the vendor's name in the
/// database compiled into `pci_ids`, none for an unknown vendor. Its result
/// is given the name `pci_vendor_name`.
#[verifier::external_body]
pub(crate) fn lookup_vendor_name(vendor_id: u16) -> (r: Option<String>)
    ensures
        opt_view(r) == pci_vendor_name(vendor_id),
{
    match pci_ids::Vendor::from_id(vendor_id) {
        Some(v) => Some(v.name().to_string()),
        None => None,
    }
}

/// `pci_ids::Device::from_vid_pid` and `Device::name`: the name of the
/// device of that vendor with that id in the database, none when there is
/// no such device. Its result is given the name `pci_device_name`.
#[verifier::external_body]
pub(crate) fn lookup_device_name(vendor_id: u16, device_id: u16) -> (r: Option<String>)
    ensures
        opt_view(r) == pci_device_name(vendor_id, device_id),
{
    match pci_ids::Device::from_vid_pid(vendor_id, device_id) {
        Some(d) => Some(d.name().to_string()),
        None => None,
    }
}

/// `\[(.*?)]` matches `s` at `i`: a `[` at `i`, then a `]` with no line feed
/// before it (`.` does not match a line feed).
pub open spec fn bracket_match_at(s: Seq<char>, i: int) -> bool {
    &&& 0 <= i < s.len()
    &&& s[i] == '['
    &&& find_char(s.skip(i + 1), ']') >= 0
    &&& !s.subrange(i + 1, i + 1 + find_char(s.skip(i + 1), ']')).contains('\n')
}

/// The group of the leftmost match of `\[(.*?)]` in `s`: the text between
/// the first `[` that starts a match and the next `]`.
pub open spec fn bracketed_text(s: Seq<char>) -> Option<Seq<char>> {
    if exists|i: int| bracket_match_at(s, i) {
        let i = choose|i: int| bracket_match_at(s, i) && forall|j: int| 0 <= j < i ==> !bracket_match_at(s, j);
        Some(s.subrange(i + 1, i + 1 + find_char(s.skip(i + 1), ']')))
    } else {
        None
    }
}

/// `regex::Regex::captures` with the pattern `\[(.*?)]`, and the text of its
/// first group: the regex crate finds the leftmost match, `.*?` takes as few
/// characters as it can and `.` does not match a line feed.
#[verifier::external_body]
pub(crate) fn capture_bracketed(s: &str) -> (r: Option<String>)
    ensures
        opt_view(r) == bracketed_text(s@),
{
    let re = regex::Regex::new(r"\[(.*?)]").unwrap();
    match re.captures(s) {
        Some(c) => match c.get(1) {
            Some(m) => Some(m.as_str().to_string()),
            None => None,
        },
        None => None,
    }
}

/// The model name of a card from its device name: the part in brackets
/// when there is one, else the whole device name.
pub open spec fn model_name(device_name: Seq<char>) -> Seq<char> {
    match bracketed_text(device_name) {
        Some(t) => t,
        None => device_name,
    }
}

/// The model name of a card from its device name.
pub fn model_name_of(device_name: &str) -> (r: String)
    ensures
        r@ == model_name(device_name@),
{
    match capture_bracketed(device_name) {
        Some(t) => t,
        None => to_string(device_name),
    }
}

/// The vendor's name and the model name of the device, when the database
/// knows both.
pub open spec fn gpu_names(vendor_id: u16, device_id: u16) -> Option<(Seq<char>, Seq<char>)> {
    match (pci_vendor_name(vendor_id), pci_device_name(vendor_id, device_id)) {
        (Some(v), Some(d)) => Some((v, model_name(d))),
        _ => None,
    }
}

/// The vendor's name and the model name of a device.
pub fn lookup_gpu_names(vendor_id: u16, device_id: u16) -> (r: Option<(String, String)>)
    ensures
        match r {
            Some(p) => gpu_names(vendor_id, device_id) == Some((p.0@, p.1@)),
            None => gpu_names(vendor_id, device_id) is None,
        },
{
    let vendor = match lookup_vendor_name(vendor_id) {
        Some(v) => v,
        None => return None,
    };
    let device = match lookup_device_name(vendor_id, device_id) {
        Some(d) => d,
        None => return None,
    };
    Some((vendor, model_name_of(device.as_str())))
}

/// The card with these ids, named `<vendor> <model>`; none when the database
/// does not know the vendor or the device.
pub open spec fn gpu_of(vendor_id: u16, device_id: u16) -> Option<GPUView> {
    match gpu_names(vendor_id, device_id) {
        Some((v, m)) => Some(GPUView { full_name: v + " "@ + m, vendor_id, device_id }),
        None => None,
    }
}

/// The full name of a card: its vendor's name, a space and its model
/// name.
pub fn gpu_full_name(vendor_name: &str, model: &str) -> (r: String)
    ensures
        r@ == vendor_name@ + " "@ + model@,
{
    let mut full_name = concat(vendor_name, " ");
    full_name.append(model);
    full_name
}

/// The card with these ids.
pub fn gpu_from_ids(vendor_id: u16, device_id: u16) -> (r: Option<GPU>)
    ensures
        match r {
            Some(g) => gpu_of(vendor_id, device_id) == Some(g@),
            None => gpu_of(vendor_id, device_id) is None,
        },
{
    let (vendor, model) = match lookup_gpu_names(vendor_id, device_id) {
        Some(p) => p,
        None => return None,
    };
    Some(GPU { full_name: gpu_full_name(vendor.as_str(), model.as_str()), vendor_id, device_id })
}

/// The PCI class code of display controllers.
pub const DISPLAY_CONTROLLER_CLASS: u8 = 0x03;

/// A PCI device of the machine: its vendor and device ids and its class
/// code.
pub struct PciDevice {
    pub vendor_id: u16,
    pub device_id: u16,
    pub class_code: u8,
}

/// The cards among `devices`, in order: the display controllers, each named
/// from the database. None when the database does not know one of them.
pub open spec fn gpus_of(devices: Seq<PciDevice>) -> Option<Seq<GPUView>>
    decreases devices.len(),
{
    if devices.len() == 0 {
        Some(Seq::empty())
    } else {
        let d = devices.last();
        match gpus_of(devices.drop_last()) {
            Some(rest) => if d.class_code != DISPLAY_CONTROLLER_CLASS {
                Some(rest)
            } else {
                match gpu_of(d.vendor_id, d.device_id) {
                    Some(g) => Some(rest.push(g)),
                    None => None,
                }
            },
            None => None,
        }
    }
}

/// Once a prefix of the devices cannot be named, no longer prefix can.
proof fn lemma_gpus_none(devices: Seq<PciDevice>, k: int, n: int)
    requires
        0 <= k <= n <= devices.len(),
        gpus_of(devices.take(k)) is None,
    ensures
        gpus_of(devices.take(n)) is None,
    decreases n - k,
{
    if k < n {
        assert(devices.take(k + 1).drop_last() =~= devices.take(k));
        lemma_gpus_none(devices, k + 1, n);
    }
}

/// The graphics cards among the PCI devices of the machine.
pub fn retrieve_all_gpus(devices: &Vec<PciDevice>) -> (r: Option<Vec<GPU>>)
    ensures
        match r {
            Some(v) => gpus_of(devices@) == Some(gpu_views(v@)),
            None => gpus_of(devices@) is None,
        },
{
    let mut gpus: Vec<GPU> = Vec::new();
    let mut i: usize = 0;
    assert(devices@.take(0) =~= Seq::<PciDevice>::empty());
    while i < devices.len()
        invariant
            i <= devices.len(),
            gpus_of(devices@.take(i as int)) == Some(gpu_views(gpus@)),
        decreases devices.len() - i,
    {
        assert(devices@.take(i + 1).drop_last() =~= devices@.take(i as int));
        assert(devices@.take(i + 1).last() == devices@[i as int]);
        let d = &devices[i];
        if d.class_code == DISPLAY_CONTROLLER_CLASS {
            match gpu_from_ids(d.vendor_id, d.device_id) {
                Some(g) => {
                    let ghost before = gpu_views(gpus@);
                    gpus.push(g);
                    assert(gpu_views(gpus@) =~= before.push(gpus@[gpus@.len() - 1]@));
                },
                None => {
                    proof {
                        lemma_gpus_none(devices@, i as int + 1, devices@.len() as int);
                    }
                    assert(devices@.take(devices@.len() as int) =~= devices@);
                    return None;
                },
            }
        }
        i = i + 1;
    }
    assert(devices@.take(i as int) =~= devices@);
    Some(gpus)
}

/// A copy of a list of cards.
pub fn clone_gpus(v: &Vec<GPU>) -> (r: Vec<GPU>)
    ensures
        gpu_views(r@) == gpu_views(v@),
{
    let mut r: Vec<GPU> = Vec::new();
    let mut i: usize = 0;
    while i < v.len()
        invariant
            i <= v.len(),
            gpu_views(r@) == gpu_views(v@).take(i as int),
        decreases v.len() - i,
    {
        let ghost before = gpu_views(r@);
        r.push(v[i].clone());
        assert(gpu_views(r@) =~= before.push(v@[i as int]@));
        assert(gpu_views(v@).take(i + 1) =~= gpu_views(v@).take(i as int).push(v@[i as int]@));
        i = i + 1;
    }
    assert(gpu_views(v@).take(i as int) =~= gpu_views(v@));
    r
}

/// The cards found, kept until they are looked for again.
pub struct GPUList {
    state: Vec<GPU>,
}

impl View for GPUList {
    type V = Seq<GPUView>;

    closed spec fn view(&self) -> Seq<GPUView> {
        gpu_views(self.state@)
    }
}

impl GPUList {
    /// No card found yet.
    pub fn new() -> (r: Self)
        ensures
            r@ == Seq::<GPUView>::empty(),
    {
        let r = GPUList { state: Vec::new() };
        assert(r@ =~= Seq::<GPUView>::empty());
        r
    }

    /// The cards kept.
    pub fn get_internal(&self) -> (r: Vec<GPU>)
        ensures
            gpu_views(r@) == self@,
    {
        clone_gpus(&self.state)
    }

    /// Keeps `gpus` as the cards found.
    pub fn refresh(&mut self, gpus: Vec<GPU>)
        ensures
            final(self)@ == gpu_views(gpus@),
    {
        self.state = gpus;
    }

    /// The cards kept; when none is kept, looks for them with `find_gpus`
    /// first and keeps what it finds.
    pub fn get<F: FnOnce() -> Vec<GPU>>(&mut self, find_gpus: F) -> (r: Vec<GPU>)
        requires
            call_requires(find_gpus, ()),
        ensures
            old(self)@.len() > 0 ==> final(self)@ == old(self)@,
            old(self)@.len() == 0 ==> exists|found: Vec<GPU>| call_ensures(find_gpus, (), found)
                && final(self)@ == gpu_views(found@),
            gpu_views(r@) == final(self)@,
    {
        if self.state.len() == 0 {
            let found = find_gpus();
            self.refresh(found);
        }
        self.get_internal()
    }
}

} // verus!
