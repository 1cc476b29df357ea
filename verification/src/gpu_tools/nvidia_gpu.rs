//! What `nvidia-smi` reports of the NVIDIA cards.
use vstd::prelude::*;
use crate::command_helpers::{CommandPlan, CommandPlanView};
use crate::gpu_tools::gpu::GPU;
use crate::utils::numbers::{parse_hex_u32, parse_hex_u32_spec, parse_i32, parse_i32_spec};
use crate::utils::text::{lines, lines_seq, split_str, split_str_seq, to_string, trim_start_matches, trim_start_matches_seq, views};

verus! {

/// What `nvidia-smi` reports of a card: its PCI device id (device id in the
/// upper half, vendor id in the lower), its UUID and its memory in MiB.
pub struct NvidiaGPUData {
    pub device_id: u32,
    pub uuid: String,
    pub total_memory_mb: i32,
}

/// The abstract value of a card's report.
pub struct NvidiaGPUDataView {
    pub device_id: u32,
    pub uuid: Seq<char>,
    pub total_memory_mb: i32,
}

impl View for NvidiaGPUData {
    type V = NvidiaGPUDataView;

    open spec fn view(&self) -> NvidiaGPUDataView {
        NvidiaGPUDataView { device_id: self.device_id, uuid: self.uuid@, total_memory_mb: self.total_memory_mb }
    }
}

impl Clone for NvidiaGPUData {
    fn clone(&self) -> (r: Self)
        ensures
            r@ == self@,
    {
        NvidiaGPUData { device_id: self.device_id, uuid: self.uuid.clone(), total_memory_mb: self.total_memory_mb }
    }
}

/// The query that lists the cards: `nvidia-smi` with the device id, UUID and
/// total memory of each card, one card per line, without header or units.
pub open spec fn nvidia_smi_query() -> CommandPlanView {
    CommandPlanView {
        program: "nvidia-smi"@,
        args: seq!["--query-gpu=pci.device_id,uuid,memory.total"@, "--format=csv,noheader,nounits"@],
        envs: Seq::empty(),
    }
}

/// The command that asks `nvidia-smi` about the cards.
pub fn nvidia_smi_command() -> (r: CommandPlan)
    ensures
        r@ == nvidia_smi_query(),
{
    let r = CommandPlan {
        program: to_string("nvidia-smi"),
        args: vec![to_string("--query-gpu=pci.device_id,uuid,memory.total"), to_string("--format=csv,noheader,nounits")],
        envs: Vec::new(),
    };
    assert(r@.args =~= nvidia_smi_query().args);
    assert(r@.envs =~= nvidia_smi_query().envs);
    r
}

/// A line of the report read as a card: the fields between `, `; the first
/// is the device id in hexadecimal after its `0x` (0 when it cannot be
/// read), the second the UUID, the third the memory (0 when it cannot be
/// read). None when the line has fewer than three fields.
pub open spec fn card_of_line(line: Seq<char>) -> Option<NvidiaGPUDataView> {
    let fields = split_str_seq(line, ", "@);
    if fields.len() < 3 {
        None
    } else {
        Some(NvidiaGPUDataView {
            device_id: match parse_hex_u32_spec(trim_start_matches_seq(fields[0], "0x"@)) {
                Some(v) => v as u32,
                None => 0,
            },
            uuid: fields[1],
            total_memory_mb: match parse_i32_spec(fields[2]) {
                Some(v) => v as i32,
                None => 0,
            },
        })
    }
}

/// The cards of a report, one per line. None when a line has fewer than
/// three fields.
pub open spec fn cards_of_lines(ls: Seq<Seq<char>>) -> Option<Seq<NvidiaGPUDataView>>
    decreases ls.len(),
{
    if ls.len() == 0 {
        Some(Seq::empty())
    } else {
        match (cards_of_lines(ls.drop_last()), card_of_line(ls.last())) {
            (Some(rest), Some(c)) => Some(rest.push(c)),
            _ => None,
        }
    }
}

/// Reads a line of the report as a card.
pub fn parse_nvidia_line(line: &str) -> (r: Option<NvidiaGPUData>)
    ensures
        match r {
            Some(c) => card_of_line(line@) == Some(c@),
            None => card_of_line(line@) is None,
        },
{
    proof {
        reveal_strlit(", ");
    }
    let fields = split_str(line, ", ");
    if fields.len() < 3 {
        return None;
    }
    assert(views(fields@)[0] == fields@[0]@);
    assert(views(fields@)[1] == fields@[1]@);
    assert(views(fields@)[2] == fields@[2]@);
    let hex = trim_start_matches(fields[0].as_str(), "0x");
    let device_id = match parse_hex_u32(hex.as_str()) {
        Some(v) => v,
        None => 0,
    };
    let total_memory_mb = match parse_i32(fields[2].as_str()) {
        Some(v) => v,
        None => 0,
    };
    Some(NvidiaGPUData { device_id, uuid: fields[1].clone(), total_memory_mb })
}

/// The views of a list of reports.
pub open spec fn card_views(v: Seq<NvidiaGPUData>) -> Seq<NvidiaGPUDataView> {
    v.map_values(|c: NvidiaGPUData| c@)
}

/// Reads the output of `nvidia-smi` (as text): one card per line.
pub fn parse_nvidia_smi_output(stdout: &str) -> (r: Option<Vec<NvidiaGPUData>>)
    ensures
        match r {
            Some(v) => cards_of_lines(lines_seq(stdout@)) == Some(card_views(v@)),
            None => cards_of_lines(lines_seq(stdout@)) is None,
        },
{
    let ls = lines(stdout);
    let ghost lv = views(ls@);
    let mut cards: Vec<NvidiaGPUData> = Vec::new();
    let mut i: usize = 0;
    assert(lv.take(0) =~= Seq::<Seq<char>>::empty());
    while i < ls.len()
        invariant
            lv == views(ls@),
            lv == lines_seq(stdout@),
            i <= ls@.len(),
            cards_of_lines(lv.take(i as int)) == Some(card_views(cards@)),
        decreases ls.len() - i,
    {
        assert(lv.take(i + 1).drop_last() =~= lv.take(i as int));
        assert(lv.take(i + 1).last() == ls@[i as int]@);
        match parse_nvidia_line(ls[i].as_str()) {
            Some(c) => {
                let ghost before = card_views(cards@);
                cards.push(c);
                assert(card_views(cards@) =~= before.push(cards@[cards@.len() - 1]@));
            },
            None => {
                proof {
                    lemma_cards_none(lv, i as int + 1, lv.len() as int);
                }
                assert(lv.take(lv.len() as int) =~= lv);
                return None;
            },
        }
        i = i + 1;
    }
    assert(lv.take(i as int) =~= lv);
    Some(cards)
}

/// Once a line cannot be read, no longer report can.
proof fn lemma_cards_none(ls: Seq<Seq<char>>, k: int, n: int)
    requires
        0 <= k <= n <= ls.len(),
        cards_of_lines(ls.take(k)) is None,
    ensures
        cards_of_lines(ls.take(n)) is None,
    decreases n - k,
{
    if k < n {
        assert(ls.take(k + 1).drop_last() =~= ls.take(k));
        lemma_cards_none(ls, k + 1, n);
    }
}

/// The card's device id as `nvidia-smi` reports it: the upper half of the
/// PCI device id.
pub open spec fn reported_device(c: NvidiaGPUDataView) -> u16 {
    (c.device_id / 65536) as u16
}

/// The index of the first report about the card with device id `device_id`.
pub open spec fn first_report_for(cards: Seq<NvidiaGPUDataView>, device_id: u16) -> Option<int> {
    if exists|i: int| 0 <= i < cards.len() && reported_device(cards[i]) == device_id {
        Some(choose|i: int| 0 <= i < cards.len() && reported_device(cards[i]) == device_id
            && forall|j: int| 0 <= j < i ==> reported_device(cards[j]) != device_id)
    } else {
        None
    }
}

/// The report about `gpu` among the cards reported, if any.
pub fn find_nvidia_gpu(cards: &Vec<NvidiaGPUData>, gpu: &GPU) -> (r: Option<NvidiaGPUData>)
    ensures
        match first_report_for(card_views(cards@), gpu.device_id) {
            Some(i) => r matches Some(c) && c@ == cards@[i]@,
            None => r is None,
        },
{
    let ghost cv = card_views(cards@);
    let mut i: usize = 0;
    while i < cards.len()
        invariant
            cv == card_views(cards@),
            i <= cards@.len(),
            forall|j: int| 0 <= j < i ==> reported_device(cv[j]) != gpu.device_id,
        decreases cards.len() - i,
    {
        let d = cards[i].device_id;
        assert(cv[i as int].device_id == d);
        assert((d >> 16u32) == d / 65536) by (bit_vector);
        let upper: u32 = d >> 16u32;
        if upper as u16 == gpu.device_id {
            proof {
                let w = choose|k: int| 0 <= k < cv.len() && reported_device(cv[k]) == gpu.device_id
                    && forall|j: int| 0 <= j < k ==> reported_device(cv[j]) != gpu.device_id;
                if w < i {
                } else if w > i {
                    assert(reported_device(cv[i as int]) != gpu.device_id);
                }
            }
            return Some(cards[i].clone());
        }
        i = i + 1;
    }
    None
}

} // verus!
