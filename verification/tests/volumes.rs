use k3dev::cluster::docker::volumes::parse_pvc_dir_name;

#[test]
fn test_parse_pvc_dir_name() {
    let result = parse_pvc_dir_name("pvc-a1b2c3d4-e5f6-7890-abcd-ef1234567890_default_my-data");
    assert_eq!(result, Some(("default".to_string(), "my-data".to_string())));
}

#[test]
fn test_parse_pvc_dir_name_with_underscores() {
    let result =
        parse_pvc_dir_name("pvc-a1b2c3d4-e5f6-7890-abcd-ef1234567890_kube-system_my_pvc_data");
    assert_eq!(
        result,
        Some(("kube-system".to_string(), "my_pvc_data".to_string()))
    );
}

#[test]
fn test_parse_pvc_dir_name_invalid() {
    assert_eq!(parse_pvc_dir_name("pvc-abc"), None);
    assert_eq!(parse_pvc_dir_name("not-a-pvc"), None);
    assert_eq!(parse_pvc_dir_name("pvc-abc_ns_"), None);
    assert_eq!(parse_pvc_dir_name("pvc-abc__name"), None);
}
