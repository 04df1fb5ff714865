use pomc::renderer::pipelines::cull::dispatch_group_count;

#[test]
fn dispatch_group_count_rounds_up() {
    assert_eq!(dispatch_group_count(0), 0);
    assert_eq!(dispatch_group_count(1), 1);
    assert_eq!(dispatch_group_count(64), 1);
    assert_eq!(dispatch_group_count(65), 2);
    assert_eq!(dispatch_group_count(u32::MAX), 67_108_864);
}
