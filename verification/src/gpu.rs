//! A graphics card with its model name, and the choice of the configured
//! one.
use vstd::prelude::*;
use crate::gpu_tools::gpu::formatted_id;
use crate::gpu_tools::gpu_list::{DISPLAY_CONTROLLER_CLASS, PciDevice, gpu_full_name, gpu_names, lookup_gpu_names};
use crate::utils::text::str_eq;

verus! {

/// A graphics card: its model name, its full name (vendor and model) and
/// its PCI ids.
pub struct GPU {
    pub name: String,
    pub full_name: String,
    pub vendor_id: u16,
    pub device_id: u16,
}

/// The abstract value of a graphics card.
pub struct NamedGPUView {
    pub name: Seq<char>,
    pub full_name: Seq<char>,
    pub vendor_id: u16,
    pub device_id: u16,
}

impl View for GPU {
    type V = NamedGPUView;

    open spec fn view(&self) -> NamedGPUView {
        NamedGPUView { name: self.name@, full_name: self.full_name@, vendor_id: self.vendor_id, device_id: self.device_id }
    }
}

impl Clone for GPU {
    fn clone(&self) -> (r: Self)
        ensures
            r@ == self@,
    {
        GPU { name: self.name.clone(), full_name: self.full_name.clone(), vendor_id: self.vendor_id, device_id: self.device_id }
    }
}

impl GPU {
    /// The id of the card as the configuration stores it: `0xVVVV:0xDDDD`.
    pub fn as_formatted_id(&self) -> (r: String)
        ensures
            r@ == formatted_id(self.vendor_id, self.device_id),
    {
        crate::gpu_tools::gpu::format_ids(self.vendor_id, self.device_id)
    }
}

/// The views of a list of cards.
pub open spec fn named_gpu_views(v: Seq<GPU>) -> Seq<NamedGPUView> {
    v.map_values(|g: GPU| g@)
}

/// The index of the first card whose id is `id`, if any.
pub open spec fn first_named_with_id(gpus: Seq<NamedGPUView>, id: Seq<char>) -> Option<int> {
    if exists|i: int| 0 <= i < gpus.len() && formatted_id(gpus[i].vendor_id, gpus[i].device_id) == id {
        Some(choose|i: int| 0 <= i < gpus.len() && formatted_id(gpus[i].vendor_id, gpus[i].device_id) == id
            && forall|j: int| 0 <= j < i ==> formatted_id(gpus[j].vendor_id, gpus[j].device_id) != id)
    } else {
        None
    }
}

/// The card selected in the options (`selected_gpu`) among the cards
/// found: the first with that id, or else the first card. There must be at
/// least one card.
pub fn get_gpu_from_config(selected_gpu: &str, all_gpus: &Vec<GPU>) -> (r: GPU)
    requires
        all_gpus@.len() > 0,
    ensures
        r@ == match first_named_with_id(named_gpu_views(all_gpus@), selected_gpu@) {
            Some(i) => all_gpus@[i]@,
            None => all_gpus@[0]@,
        },
{
    let ghost gv = named_gpu_views(all_gpus@);
    let mut i: usize = 0;
    while i < all_gpus.len()
        invariant
            gv == named_gpu_views(all_gpus@),
            i <= all_gpus.len(),
            forall|j: int| 0 <= j < i ==> formatted_id(gv[j].vendor_id, gv[j].device_id) != selected_gpu@,
        decreases all_gpus.len() - i,
    {
        let id = all_gpus[i].as_formatted_id();
        assert(gv[i as int] == all_gpus@[i as int]@);
        if str_eq(id.as_str(), selected_gpu) {
            proof {
                let w = choose|k: int| 0 <= k < gv.len() && formatted_id(gv[k].vendor_id, gv[k].device_id) == selected_gpu@
                    && forall|j: int| 0 <= j < k ==> formatted_id(gv[j].vendor_id, gv[j].device_id) != selected_gpu@;
                if w < i {
                } else if w > i {
                    assert(formatted_id(gv[i as int].vendor_id, gv[i as int].device_id) != selected_gpu@);
                }
            }
            return all_gpus[i].clone();
        }
        i = i + 1;
    }
    all_gpus[0].clone()
}

/// The card with these ids, with its model name and `<vendor> <model>` as
/// full name; none when the database does not know the vendor or the
/// device.
pub open spec fn named_gpu_of(vendor_id: u16, device_id: u16) -> Option<NamedGPUView> {
    match gpu_names(vendor_id, device_id) {
        Some((v, m)) => Some(NamedGPUView { name: m, full_name: v + " "@ + m, vendor_id, device_id }),
        None => None,
    }
}

/// The cards among `devices`, in order: the display controllers, each named
/// from the database. None when the database does not know one of them.
pub open spec fn named_gpus_of(devices: Seq<PciDevice>) -> Option<Seq<NamedGPUView>>
    decreases devices.len(),
{
    if devices.len() == 0 {
        Some(Seq::empty())
    } else {
        let d = devices.last();
        match named_gpus_of(devices.drop_last()) {
            Some(rest) => if d.class_code != DISPLAY_CONTROLLER_CLASS {
                Some(rest)
            } else {
                match named_gpu_of(d.vendor_id, d.device_id) {
                    Some(g) => Some(rest.push(g)),
                    None => None,
                }
            },
            None => None,
        }
    }
}

/// Once a prefix of the devices cannot be named, no longer prefix can.
proof fn lemma_named_none(devices: Seq<PciDevice>, k: int, n: int)
    requires
        0 <= k <= n <= devices.len(),
        named_gpus_of(devices.take(k)) is None,
    ensures
        named_gpus_of(devices.take(n)) is None,
    decreases n - k,
{
    if k < n {
        assert(devices.take(k + 1).drop_last() =~= devices.take(k));
        lemma_named_none(devices, k + 1, n);
    }
}

/// The graphics cards among the PCI devices of the machine.
pub fn list_all_gpus(devices: &Vec<PciDevice>) -> (r: Option<Vec<GPU>>)
    ensures
        match r {
            Some(v) => named_gpus_of(devices@) == Some(named_gpu_views(v@)),
            None => named_gpus_of(devices@) is None,
        },
{
    let mut gpus: Vec<GPU> = Vec::new();
    let mut i: usize = 0;
    assert(devices@.take(0) =~= Seq::<PciDevice>::empty());
    while i < devices.len()
        invariant
            i <= devices.len(),
            named_gpus_of(devices@.take(i as int)) == Some(named_gpu_views(gpus@)),
        decreases devices.len() - i,
    {
        assert(devices@.take(i + 1).drop_last() =~= devices@.take(i as int));
        assert(devices@.take(i + 1).last() == devices@[i as int]);
        let d = &devices[i];
        if d.class_code == DISPLAY_CONTROLLER_CLASS {
            match lookup_gpu_names(d.vendor_id, d.device_id) {
                Some((vendor, model)) => {
                    let full_name = gpu_full_name(vendor.as_str(), model.as_str());
                    let ghost before = named_gpu_views(gpus@);
                    gpus.push(GPU { name: model, full_name, vendor_id: d.vendor_id, device_id: d.device_id });
                    assert(named_gpu_views(gpus@) =~= before.push(gpus@[gpus@.len() - 1]@));
                },
                None => {
                    proof {
                        lemma_named_none(devices@, i as int + 1, devices@.len() as int);
                    }
                    assert(devices@.take(devices@.len() as int) =~= devices@);
                    return None;
                },
            }
        }
        i = i + 1;
    }
    assert(devices@.take(i as int) =~= devices@);
    Some(gpus)
}

} // verus!
