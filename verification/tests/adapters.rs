use clairo::{
    adapter_selection_key, is_software_adapter, select_adapter, AdapterCandidate, AdapterInfo, Backend,
    DeviceType, GpuRequirements,
};

fn info(device_type: DeviceType, backend: Backend) -> AdapterInfo {
    AdapterInfo {
        name: String::new(),
        vendor: 0,
        device: 0,
        device_type,
        device_pci_bus_id: String::new(),
        driver: String::new(),
        driver_info: String::new(),
        backend,
    }
}

fn candidate(info: AdapterInfo) -> AdapterCandidate {
    AdapterCandidate {
        info,
        features: wgpu::Features::all(),
        limits: wgpu::Limits::default(),
    }
}

#[test]
fn software_detection_checks_type_backend_and_identity() {
    let cpu = info(DeviceType::Cpu, Backend::Vulkan);
    let noop = info(DeviceType::Other, Backend::Noop);

    assert!(is_software_adapter(&cpu));
    assert!(is_software_adapter(&noop));

    for (name, driver, driver_info) in [
        ("SwiftShader Device", "", ""),
        ("", "LLVMpipe", ""),
        ("", "", "Mesa Lavapipe"),
        ("Software Adapter", "", ""),
    ] {
        let mut info = info(DeviceType::Other, Backend::Vulkan);
        info.name = name.to_owned();
        info.driver = driver.to_owned();
        info.driver_info = driver_info.to_owned();

        assert!(is_software_adapter(&info), "{info:?}");
    }
}

#[test]
fn hardware_adapters_are_not_classified_as_software() {
    for device_type in [
        DeviceType::DiscreteGpu,
        DeviceType::IntegratedGpu,
        DeviceType::VirtualGpu,
        DeviceType::Other,
    ] {
        let info = info(device_type, Backend::Vulkan);

        assert!(!is_software_adapter(&info), "{info:?}");
    }
}

#[test]
fn markers_do_not_span_name_and_driver() {
    let mut info = info(DeviceType::DiscreteGpu, Backend::Vulkan);
    info.name = "soft".to_owned();
    info.driver = "ware".to_owned();
    assert!(!is_software_adapter(&info));
    info.name = "LLVM".to_owned();
    info.driver = "LAVA".to_owned();
    info.driver_info = "SWIFT SHADER".to_owned();
    assert!(!is_software_adapter(&info));
    info.driver_info = "SWIFTSHADER".to_owned();
    assert!(is_software_adapter(&info));
}

#[test]
fn selection_keys_hold_ranks_and_identity() {
    let mut info = info(DeviceType::VirtualGpu, Backend::Gl);
    info.vendor = 7;
    info.device = 8;
    info.device_pci_bus_id = "bus".to_owned();
    info.name = "name".to_owned();
    info.driver = "driver".to_owned();
    info.driver_info = "version".to_owned();
    let key = adapter_selection_key(&info);
    assert_eq!((key.0, key.1, key.2, key.3), (2, 4, 7, 8));
    assert_eq!([&key.4[..], &key.5[..], &key.6[..], &key.7[..]], ["bus", "name", "driver", "version"]);
}

#[test]
fn discrete_hardware_is_preferred() {
    let candidates = vec![
        candidate(info(DeviceType::Cpu, Backend::Vulkan)),
        candidate(info(DeviceType::IntegratedGpu, Backend::Metal)),
        candidate(info(DeviceType::DiscreteGpu, Backend::Gl)),
        candidate(info(DeviceType::DiscreteGpu, Backend::Vulkan)),
        candidate(info(DeviceType::DiscreteGpu, Backend::Vulkan)),
    ];
    assert_eq!(select_adapter(&candidates, &GpuRequirements::default()), Some(3));
}

#[test]
fn ties_are_broken_like_the_tuple_order() {
    let mut infos = Vec::new();
    for (vendor, device, bus, name) in [
        (2, 1, "0000:01:00.0", "A"),
        (1, 9, "0000:02:00.0", "A"),
        (1, 9, "0000:01:00.0", "é"),
        (1, 9, "0000:01:00.0", "z"),
        (1, 9, "0000:01:00.0", "za"),
    ] {
        let mut info = info(DeviceType::DiscreteGpu, Backend::Vulkan);
        info.vendor = vendor;
        info.device = device;
        info.device_pci_bus_id = bus.to_owned();
        info.name = name.to_owned();
        infos.push(info);
    }
    let keys: Vec<_> = infos.iter().map(adapter_selection_key).collect();
    let least = (0..keys.len()).min_by_key(|i| keys[*i].clone());
    let candidates: Vec<_> = infos.into_iter().map(candidate).collect();
    assert_eq!(select_adapter(&candidates, &GpuRequirements::default()), least);
    assert_eq!(least, Some(3));
}

#[test]
fn the_enumeration_order_does_not_matter() {
    let build = |names: [&str; 3]| {
        names
            .iter()
            .map(|name| {
                let mut info = info(DeviceType::IntegratedGpu, Backend::Dx12);
                info.name = name.to_string();
                candidate(info)
            })
            .collect::<Vec<_>>()
    };
    for names in [["a", "b", "c"], ["c", "b", "a"], ["b", "a", "c"]] {
        let candidates = build(names);
        let selected = select_adapter(&candidates, &GpuRequirements::default()).unwrap();
        assert_eq!(candidates[selected].info.name, "a");
    }
}

#[test]
fn unsuitable_adapters_are_passed_over() {
    let requirements = GpuRequirements::default().for_session();
    let mut without_timestamps = candidate(info(DeviceType::DiscreteGpu, Backend::Vulkan));
    without_timestamps.features = wgpu::Features::empty();
    let mut with_low_limits = candidate(info(DeviceType::DiscreteGpu, Backend::Vulkan));
    with_low_limits.limits.max_bind_groups = 1;
    let fitting = candidate(info(DeviceType::Other, Backend::Gl));

    let candidates = vec![without_timestamps, with_low_limits];
    assert_eq!(select_adapter(&candidates, &requirements), None);
    assert_eq!(select_adapter(&vec![], &requirements), None);

    let mut candidates = candidates;
    candidates.push(fitting);
    assert_eq!(select_adapter(&candidates, &requirements), Some(2));
}
