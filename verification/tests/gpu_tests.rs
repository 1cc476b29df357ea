use simple_steam_wrapper::gpu::{get_gpu_from_config, list_all_gpus, GPU as NamedGpu};
use simple_steam_wrapper::gpu_tools::gpu::GPU;
use simple_steam_wrapper::gui::main_gui::tweaks_to_disable;
use simple_steam_wrapper::gpu_tools::gpu_list::{gpu_full_name, gpu_from_ids, model_name_of, retrieve_all_gpus, GPUList, PciDevice};
use simple_steam_wrapper::gpu_tools::nvidia_gpu::{find_nvidia_gpu, nvidia_smi_command, parse_nvidia_line, parse_nvidia_smi_output};

fn gpu(vendor_id: u16, device_id: u16) -> GPU {
    GPU { full_name: format!("{:x}:{:x}", vendor_id, device_id), vendor_id, device_id }
}

#[test]
fn formatted_id_is_lowercase_hex() {
    assert_eq!(gpu(0x10DE, 0x2484).as_formatted_id(), "0x10de:0x2484");
    assert_eq!(gpu(0x1002, 0x73bf).as_formatted_id(), "0x1002:0x73bf");
    assert_eq!(gpu(0x8086, 0x9).as_formatted_id(), "0x8086:0x0009");
    for (v, d) in [(0u16, 0u16), (0xffff, 0x1), (0xabcd, 0x0f0f)] {
        assert_eq!(gpu(v, d).as_formatted_id(), format!("0x{:04x}:0x{:04x}", v, d));
    }
}

#[test]
fn nvidia_is_vendor_10de() {
    assert!(gpu(0x10DE, 1).is_nvidia());
    assert!(!gpu(0x1002, 1).is_nvidia());
}

#[test]
fn configured_gpu_or_first() {
    let gpus = vec![gpu(0x1002, 0x73bf), gpu(0x10de, 0x2484)];
    assert_eq!(GPU::from_config("0x10de:0x2484", &gpus).vendor_id, 0x10de);
    assert_eq!(GPU::from_config("0x10DE:0x2484", &gpus).vendor_id, 0x1002);
    assert_eq!(GPU::from_config("", &gpus).device_id, 0x73bf);
    let named = vec![
        NamedGpu { name: "a".to_string(), full_name: "A".to_string(), vendor_id: 1, device_id: 2 },
        NamedGpu { name: "b".to_string(), full_name: "B".to_string(), vendor_id: 3, device_id: 4 },
    ];
    assert_eq!(get_gpu_from_config("0x0003:0x0004", &named).name, "b");
    assert_eq!(get_gpu_from_config("nope", &named).name, "a");
}

#[test]
fn model_name_is_the_bracketed_part() {
    assert_eq!(model_name_of("GA104 [GeForce RTX 3070]"), "GeForce RTX 3070");
    assert_eq!(model_name_of("Navi 21"), "Navi 21");
    assert_eq!(model_name_of("a [b] [c]"), "b");
    assert_eq!(model_name_of("x [] y"), "");
    assert_eq!(model_name_of("[a\nb] [c]"), "c");
}

#[test]
fn gpu_named_from_the_pci_database() {
    let g = gpu_from_ids(0x10de, 0x2484).unwrap();
    assert_eq!(g.full_name, "NVIDIA Corporation GeForce RTX 3070");
    assert!(gpu_from_ids(0x10de, 0xfffe).is_none());
}

#[test]
fn only_display_controllers_are_gpus() {
    let devices = vec![
        PciDevice { vendor_id: 0x8086, device_id: 0x1234, class_code: 0x06 },
        PciDevice { vendor_id: 0x10de, device_id: 0x2484, class_code: 0x03 },
    ];
    let gpus = retrieve_all_gpus(&devices).unwrap();
    assert_eq!(gpus.len(), 1);
    assert_eq!(gpus[0].device_id, 0x2484);
    let named = list_all_gpus(&devices).unwrap();
    assert_eq!(named[0].name, "GeForce RTX 3070");
    let unknown = vec![PciDevice { vendor_id: 0x10de, device_id: 0xfffe, class_code: 0x03 }];
    assert!(retrieve_all_gpus(&unknown).is_none());
}

#[test]
fn gpu_list_is_filled_once() {
    let mut list = GPUList::new();
    assert!(list.get_internal().is_empty());
    let first = list.get(|| vec![gpu(0x10de, 0x2484)]);
    assert_eq!(first.len(), 1);
    let second = list.get(|| vec![gpu(1, 1), gpu(2, 2)]);
    assert_eq!(second.len(), 1);
    list.refresh(vec![gpu(1, 1), gpu(2, 2)]);
    assert_eq!(list.get_internal().len(), 2);
}

#[test]
fn nvidia_smi_output_is_read() {
    let out = "0x248410DE, GPU-1111, 8192\n0x220410DE, GPU-2222, [N/A]\n";
    let cards = parse_nvidia_smi_output(out).unwrap();
    assert_eq!(cards.len(), 2);
    assert_eq!(cards[0].device_id, 0x248410DE);
    assert_eq!(cards[0].uuid, "GPU-1111");
    assert_eq!(cards[0].total_memory_mb, 8192);
    assert_eq!(cards[1].total_memory_mb, 0);
    let found = find_nvidia_gpu(&cards, &gpu(0x10de, 0x2204)).unwrap();
    assert_eq!(found.uuid, "GPU-2222");
    assert!(find_nvidia_gpu(&cards, &gpu(0x10de, 0x1c82)).is_none());
    assert!(parse_nvidia_line("only, two").is_none());
    assert_eq!(parse_nvidia_line("zz, u, 1").unwrap().device_id, 0);
    assert!(parse_nvidia_smi_output("a, b, 1\nbroken\n").is_none());
    assert_eq!(parse_nvidia_smi_output("").unwrap().len(), 0);
    let cmd = nvidia_smi_command();
    assert_eq!(cmd.program, "nvidia-smi");
    assert_eq!(cmd.args, vec!["--query-gpu=pci.device_id,uuid,memory.total", "--format=csv,noheader,nounits"]);
}

#[test]
fn selecting_a_cards_own_id_selects_that_card() {
    let gpus = vec![gpu(0x1002, 0x73bf), gpu(0x10de, 0x2484), gpu(0x10de, 0x2484)];
    for g in &gpus {
        let chosen = GPU::from_config(&g.as_formatted_id(), &gpus);
        assert_eq!((chosen.vendor_id, chosen.device_id), (g.vendor_id, g.device_id));
    }
}

#[test]
fn full_name_and_nvidia_only_tweaks() {
    assert_eq!(gpu_full_name("NVIDIA Corporation", "GeForce RTX 3070"), "NVIDIA Corporation GeForce RTX 3070");
    assert!(tweaks_to_disable(&gpu(0x10de, 0x2484)).is_empty());
    assert_eq!(
        tweaks_to_disable(&gpu(0x1002, 0x73bf)),
        vec!["enabled_tweaks.proton_nvapi".to_string(), "enabled_tweaks.proton_nvapi_vkreflex".to_string()]
    );
}
