use clairo::{combine_requirements, GpuRequirements};

#[test]
fn the_default_requires_nothing_special() {
    let requirements = GpuRequirements::default();
    assert_eq!(requirements.required_features(), wgpu::Features::empty());
    assert_eq!(requirements.required_limits(), &wgpu::Limits::default());
    assert_eq!(requirements.clone(), requirements);
}

#[test]
fn features_add_up_and_limits_are_replaced() {
    let limits = wgpu::Limits { max_bind_groups: 7, ..Default::default() };
    let requirements = GpuRequirements::new(wgpu::Features::SHADER_F16, wgpu::Limits::default())
        .with_required_features(wgpu::Features::IMMEDIATES)
        .with_required_limits(limits.clone());
    assert_eq!(
        requirements.required_features(),
        wgpu::Features::SHADER_F16 | wgpu::Features::IMMEDIATES
    );
    assert_eq!(requirements.required_limits(), &limits);
}

#[test]
fn sessions_need_timestamp_queries() {
    let requirements = GpuRequirements::default().for_session();
    assert_eq!(requirements.required_features(), wgpu::Features::TIMESTAMP_QUERY);
    assert_eq!(requirements.required_limits(), &wgpu::Limits::default());
    assert_eq!(wgpu::Features::TIMESTAMP_QUERY.bits().0, [0, 1 << 7]);
}

#[test]
fn combined_requirements_are_met_exactly_with_all_of_them() {
    let left = GpuRequirements::new(
        wgpu::Features::SHADER_F16,
        wgpu::Limits { max_buffer_size: 1 << 40, ..Default::default() },
    );
    let right = GpuRequirements::new(
        wgpu::Features::IMMEDIATES,
        wgpu::Limits { min_uniform_buffer_offset_alignment: 64, ..Default::default() },
    );
    let combined = combine_requirements(&vec![left.clone(), right.clone()]);
    assert_eq!(combined, left.combine(&right));

    let features = [
        wgpu::Features::empty(),
        wgpu::Features::SHADER_F16,
        wgpu::Features::IMMEDIATES,
        wgpu::Features::SHADER_F16 | wgpu::Features::IMMEDIATES,
    ];
    let default = wgpu::Limits::default();
    let large = wgpu::Limits { max_buffer_size: 1 << 40, ..default.clone() };
    let aligned = wgpu::Limits { min_uniform_buffer_offset_alignment: 64, ..default.clone() };
    let both = wgpu::Limits { max_buffer_size: 1 << 41, ..aligned.clone() };
    let mut met = 0;
    for available in features {
        for limits in [&default, &large, &aligned, &both] {
            let each = left.met_by(available, limits) && right.met_by(available, limits);
            assert_eq!(combined.met_by(available, limits), each);
            met += u32::from(each);
        }
    }
    assert_eq!(met, 1);
}

#[test]
fn no_requirements_combine_to_the_default() {
    assert_eq!(combine_requirements(&vec![]), GpuRequirements::default());
}

#[test]
fn limits_stand_in_the_documented_order() {
    let mut names = Vec::new();
    let mut defaults = Vec::new();
    wgpu::Limits::unlimited().check_limits_with_fail_fn(&wgpu::Limits::default(), false, |name, _, allowed| {
        names.push(name);
        defaults.push(allowed);
    });
    assert_eq!(
        defaults,
        vec![
            8192, 8192, 2048, 256, 4, 24, 1000, 8, 4, 16, 16, 8, 4, 12, 0, 0, 0, 65536, 134217728, 8,
            268435456, 16, 2048, 16, 256, 256, 8, 32, 16384, 256, 256, 256, 64, 65535, 0, 1000000, 0, 0, 0,
            0, 0, 0, 0, 0, 0, 0, 0, 0, 0, 0, 0, 0, 0, 28, 0, 0, 0,
        ]
    );
    let minima: Vec<usize> = (0..names.len()).filter(|i| names[*i].starts_with("min_")).collect();
    assert_eq!(minima, vec![24, 25]);
}
