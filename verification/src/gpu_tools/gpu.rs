//! A graphics card, by its PCI vendor and device ids.
use vstd::prelude::*;
use crate::utils::numbers::{hex4, hex4_string};
use crate::utils::text::{concat, str_eq};

verus! {

/// A graphics card: its full name (vendor and model) and its PCI ids.
pub struct GPU {
    pub full_name: String,
    pub vendor_id: u16,
    pub device_id: u16,
}

/// The abstract value of a graphics card.
pub struct GPUView {
    pub full_name: Seq<char>,
    pub vendor_id: u16,
    pub device_id: u16,
}

impl View for GPU {
    type V = GPUView;

    open spec fn view(&self) -> GPUView {
        GPUView { full_name: self.full_name@, vendor_id: self.vendor_id, device_id: self.device_id }
    }
}

impl Clone for GPU {
    fn clone(&self) -> (r: Self)
        ensures
            r@ == self@,
    {
        GPU { full_name: self.full_name.clone(), vendor_id: self.vendor_id, device_id: self.device_id }
    }
}

/// The PCI vendor id of NVIDIA.
pub const NVIDIA_VENDOR_ID: u16 = 0x10DE;

/// The id of a card as the configuration stores it: `0xVVVV:0xDDDD`, with
/// four lowercase hexadecimal digits each.
pub open spec fn formatted_id(vendor_id: u16, device_id: u16) -> Seq<char> {
    "0x"@ + hex4(vendor_id) + ":0x"@ + hex4(device_id)
}

/// The views of a list of cards.
pub open spec fn gpu_views(v: Seq<GPU>) -> Seq<GPUView> {
    v.map_values(|g: GPU| g@)
}

/// The index of the first card whose id is `id`, if any.
pub open spec fn first_with_id(gpus: Seq<GPUView>, id: Seq<char>) -> Option<int> {
    if exists|i: int| 0 <= i < gpus.len() && formatted_id(gpus[i].vendor_id, gpus[i].device_id) == id {
        Some(choose|i: int| 0 <= i < gpus.len() && formatted_id(gpus[i].vendor_id, gpus[i].device_id) == id
            && forall|j: int| 0 <= j < i ==> formatted_id(gpus[j].vendor_id, gpus[j].device_id) != id)
    } else {
        None
    }
}

/// The card chosen among `gpus` for the configured id `selected`: the first
/// card with that id, or the first card when none has it.
pub open spec fn chosen_gpu(gpus: Seq<GPUView>, selected: Seq<char>) -> GPUView {
    match first_with_id(gpus, selected) {
        Some(i) => gpus[i],
        None => gpus[0],
    }
}

/// The text of an id: `0xVVVV:0xDDDD`.
pub fn format_ids(vendor_id: u16, device_id: u16) -> (r: String)
    ensures
        r@ == formatted_id(vendor_id, device_id),
{
    let mut r = concat("0x", hex4_string(vendor_id).as_str());
    r.append(":0x");
    r.append(hex4_string(device_id).as_str());
    r
}

/// The card among `all_gpus` whose id is `selected`, or else the first card.
pub fn gpu_for_selection(selected: &str, all_gpus: &Vec<GPU>) -> (r: GPU)
    requires
        all_gpus@.len() > 0,
    ensures
        r@ == chosen_gpu(gpu_views(all_gpus@), selected@),
{
    let ghost gv = gpu_views(all_gpus@);
    let mut i: usize = 0;
    while i < all_gpus.len()
        invariant
            gv == gpu_views(all_gpus@),
            i <= all_gpus.len(),
            forall|j: int| 0 <= j < i ==> formatted_id(gv[j].vendor_id, gv[j].device_id) != selected@,
        decreases all_gpus.len() - i,
    {
        let id = format_ids(all_gpus[i].vendor_id, all_gpus[i].device_id);
        if str_eq(id.as_str(), selected) {
            proof {
                assert(gv[i as int] == all_gpus@[i as int]@);
                let w = choose|k: int| 0 <= k < gv.len() && formatted_id(gv[k].vendor_id, gv[k].device_id) == selected@
                    && forall|j: int| 0 <= j < k ==> formatted_id(gv[j].vendor_id, gv[j].device_id) != selected@;
                if w < i {
                } else if w > i {
                    assert(formatted_id(gv[i as int].vendor_id, gv[i as int].device_id) != selected@);
                }
            }
            return all_gpus[i].clone();
        }
        assert(gv[i as int] == all_gpus@[i as int]@);
        i = i + 1;
    }
    assert(gv[0] == all_gpus@[0]@);
    all_gpus[0].clone()
}

impl GPU {
    /// The id of the card as the configuration stores it.
    pub fn as_formatted_id(&self) -> (r: String)
        ensures
            r@ == formatted_id(self.vendor_id, self.device_id),
    {
        format_ids(self.vendor_id, self.device_id)
    }

    /// Whether the card is made by NVIDIA.
    pub fn is_nvidia(&self) -> (r: bool)
        ensures
            r == (self.vendor_id == NVIDIA_VENDOR_ID),
    {
        self.vendor_id == NVIDIA_VENDOR_ID
    }

    /// The card selected in the options (`selected_gpu`, an id as
    /// `as_formatted_id` writes it) among the cards found: the first with
    /// that id, or the first card. There must be at least one card.
    pub fn from_config(selected_gpu: &str, all_gpus: &Vec<GPU>) -> (r: GPU)
        requires
            all_gpus@.len() > 0,
        ensures
            r@ == chosen_gpu(gpu_views(all_gpus@), selected_gpu@),
    {
        gpu_for_selection(selected_gpu, all_gpus)
    }
}


/// Different ids have different texts.
pub proof fn lemma_formatted_id_injective(v1: u16, d1: u16, v2: u16, d2: u16)
    requires
        formatted_id(v1, d1) == formatted_id(v2, d2),
    ensures
        v1 == v2,
        d1 == d2,
{
    let a = formatted_id(v1, d1);
    let b = formatted_id(v2, d2);
    reveal_strlit("0x");
    reveal_strlit(":0x");
    assert(a.len() == 13 && b.len() == 13);
    assert forall|k: int| 0 <= k < 4 implies hex4(v1)[k] == hex4(v2)[k] && hex4(d1)[k] == hex4(d2)[k] by {
        assert(a[2 + k] == hex4(v1)[k]);
        assert(b[2 + k] == hex4(v2)[k]);
        assert(a[9 + k] == hex4(d1)[k]);
        assert(b[9 + k] == hex4(d2)[k]);
    }
    lemma_hex4_injective(v1, v2);
    lemma_hex4_injective(d1, d2);
}

/// Different numbers have different hexadecimal digits.
proof fn lemma_hex4_injective(x: u16, y: u16)
    requires
        forall|k: int| 0 <= k < 4 ==> hex4(x)[k] == hex4(y)[k],
    ensures
        x == y,
{
    assert(hex4(x)[0] == hex4(y)[0]);
    assert(hex4(x)[1] == hex4(y)[1]);
    assert(hex4(x)[2] == hex4(y)[2]);
    assert(hex4(x)[3] == hex4(y)[3]);
    lemma_hex_digit_injective((x / 4096) as int, (y / 4096) as int);
    lemma_hex_digit_injective(((x / 256) % 16) as int, ((y / 256) % 16) as int);
    lemma_hex_digit_injective(((x / 16) % 16) as int, ((y / 16) % 16) as int);
    lemma_hex_digit_injective((x % 16) as int, (y % 16) as int);
    assert(x == (x / 4096) * 4096 + ((x / 256) % 16) * 256 + ((x / 16) % 16) * 16 + x % 16) by (bit_vector);
    assert(y == (y / 4096) * 4096 + ((y / 256) % 16) * 256 + ((y / 16) % 16) * 16 + y % 16) by (bit_vector);
}

/// Different digits have different characters.
proof fn lemma_hex_digit_injective(a: int, b: int)
    requires
        0 <= a < 16,
        0 <= b < 16,
        crate::utils::numbers::hex_digit_char(a) == crate::utils::numbers::hex_digit_char(b),
    ensures
        a == b,
{
    let ca = crate::utils::numbers::hex_digit_char(a);
    let cb = crate::utils::numbers::hex_digit_char(b);
    assert(ca as int == if a < 10 { 48 + a } else { 87 + a });
    assert(cb as int == if b < 10 { 48 + b } else { 87 + b });
}

/// Choosing the id of a card of the list (as the settings window stores
/// it) chooses a card with the same ids: the first such card.
pub proof fn lemma_select_own_id(gpus: Seq<GPUView>, i: int)
    requires
        0 <= i < gpus.len(),
    ensures
        chosen_gpu(gpus, formatted_id(gpus[i].vendor_id, gpus[i].device_id)).vendor_id == gpus[i].vendor_id,
        chosen_gpu(gpus, formatted_id(gpus[i].vendor_id, gpus[i].device_id)).device_id == gpus[i].device_id,
{
    let id = formatted_id(gpus[i].vendor_id, gpus[i].device_id);
    lemma_first_with_id_found(gpus, id, i);
    let k = first_with_id(gpus, id).unwrap();
    let c = chosen_gpu(gpus, id);
    assert(c == gpus[k]);
    lemma_formatted_id_injective(c.vendor_id, c.device_id, gpus[i].vendor_id, gpus[i].device_id);
}

/// A card with the id makes the search find one, at or before it.
proof fn lemma_first_with_id_found(gpus: Seq<GPUView>, id: Seq<char>, i: int)
    requires
        0 <= i < gpus.len(),
        formatted_id(gpus[i].vendor_id, gpus[i].device_id) == id,
    ensures
        first_with_id(gpus, id) matches Some(k) && 0 <= k <= i
            && formatted_id(gpus[k].vendor_id, gpus[k].device_id) == id,
    decreases i,
{
    if exists|j: int| 0 <= j < i && formatted_id(gpus[j].vendor_id, gpus[j].device_id) == id {
        let j = choose|j: int| 0 <= j < i && formatted_id(gpus[j].vendor_id, gpus[j].device_id) == id;
        lemma_first_with_id_found(gpus, id, j);
    } else {
        assert(formatted_id(gpus[i].vendor_id, gpus[i].device_id) == id
            && forall|j: int| 0 <= j < i ==> formatted_id(gpus[j].vendor_id, gpus[j].device_id) != id);
        let w = choose|k: int| 0 <= k < gpus.len() && formatted_id(gpus[k].vendor_id, gpus[k].device_id) == id
            && forall|j: int| 0 <= j < k ==> formatted_id(gpus[j].vendor_id, gpus[j].device_id) != id;
        if w > i {
            assert(formatted_id(gpus[i].vendor_id, gpus[i].device_id) != id);
        }
    }
}

} // verus!
