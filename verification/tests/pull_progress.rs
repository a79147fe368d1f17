use k3dev::approx::Approx;
use k3dev::cluster::docker::image::{
    digest_prefix, extract_manifest_info, select_platform, ImageRef, ManifestLayer,
    ManifestListEntry, ManifestPlatform, ManifestV2,
};
use k3dev::cluster::docker::pull_progress::{
    aggregate_progress, ContainerPullProgress, LayerPhase, LayerTracker, PullPhase,
};
use k3dev::textmap::TextMap;

fn target_architecture() -> &'static str {
    k3dev::cluster::docker::image::target_architecture(false)
}

fn split_auth_params(s: &str) -> Vec<(String, String)> {
    k3dev::cluster::docker::image::split_auth_params(s)
}

fn pair(key: &str, value: &str) -> (String, String) {
    (key.to_string(), value.to_string())
}

fn number(x: Approx) -> f64 {
    x.bits as f64 * 2f64.powi(x.exponent)
}

#[test]
fn test_parse_simple_image() {
    let img = ImageRef::parse("nginx");
    assert_eq!(img.registry, "registry-1.docker.io");
    assert_eq!(img.repository, "library/nginx");
    assert_eq!(img.tag, "latest");
}

#[test]
fn test_parse_image_with_tag() {
    let img = ImageRef::parse("nginx:1.25");
    assert_eq!(img.registry, "registry-1.docker.io");
    assert_eq!(img.repository, "library/nginx");
    assert_eq!(img.tag, "1.25");
}

#[test]
fn test_parse_user_image() {
    let img = ImageRef::parse("myuser/myimage:v1");
    assert_eq!(img.registry, "registry-1.docker.io");
    assert_eq!(img.repository, "myuser/myimage");
    assert_eq!(img.tag, "v1");
}

#[test]
fn test_parse_custom_registry() {
    let img = ImageRef::parse("ghcr.io/owner/repo:latest");
    assert_eq!(img.registry, "ghcr.io");
    assert_eq!(img.repository, "owner/repo");
    assert_eq!(img.tag, "latest");
}

#[test]
fn test_parse_registry_with_port() {
    let img = ImageRef::parse("localhost:5000/myimage:v1");
    assert_eq!(img.registry, "localhost:5000");
    assert_eq!(img.repository, "myimage");
    assert_eq!(img.tag, "v1");
}

#[test]
fn test_parse_registry_with_port_no_tag() {
    let img = ImageRef::parse("localhost:5000/myimage");
    assert_eq!(img.registry, "localhost:5000");
    assert_eq!(img.repository, "myimage");
    assert_eq!(img.tag, "latest");
}

#[test]
fn test_parse_digest_reference() {
    let img = ImageRef::parse("nginx@sha256:abc123def456");
    assert_eq!(img.registry, "registry-1.docker.io");
    assert_eq!(img.repository, "library/nginx");
    assert_eq!(img.tag, "sha256:abc123def456");
}

#[test]
fn test_parse_nested_path() {
    let img = ImageRef::parse("registry.io/org/team/image:v1");
    assert_eq!(img.registry, "registry.io");
    assert_eq!(img.repository, "org/team/image");
    assert_eq!(img.tag, "v1");
}

#[test]
fn test_parse_registry_with_invalid_port() {
    // "localhost:abc/image" — abc is not a valid port, treat as tag
    // "localhost" alone looks like a simple image, so gets library/ prefix
    let img = ImageRef::parse("localhost:abc/image");
    assert_eq!(img.registry, "registry-1.docker.io");
    assert_eq!(img.repository, "library/localhost");
    assert_eq!(img.tag, "abc/image");
}

#[test]
fn test_with_progress_zero_total() {
    let p = ContainerPullProgress::new("test", "img").with_progress(0, 0);
    assert_eq!(number(p.progress_percent()), 0.0);
    assert!(!p.tracking_available);
}

#[test]
fn test_with_progress_partial() {
    let p = ContainerPullProgress::new("test", "img").with_progress(50, 100);
    assert!((number(p.progress_percent()) - 50.0).abs() < 0.01);
    assert!(p.tracking_available);
}

#[test]
fn test_with_progress_complete() {
    let p = ContainerPullProgress::new("test", "img").with_progress(100, 100);
    assert!((number(p.progress_percent()) - 100.0).abs() < 0.01);
    assert!(p.tracking_available);
}

#[test]
fn test_with_progress_overflow_capped() {
    let p = ContainerPullProgress::new("test", "img").with_progress(200, 100);
    assert!((number(p.progress_percent()) - 100.0).abs() < 0.01);
}

#[test]
fn test_layer_phase_from_status() {
    assert_eq!(
        LayerPhase::from_status("Pulling fs layer"),
        LayerPhase::Downloading
    );
    assert_eq!(LayerPhase::from_status("Waiting"), LayerPhase::Downloading);
    assert_eq!(
        LayerPhase::from_status("Downloading"),
        LayerPhase::Downloading
    );
    assert_eq!(
        LayerPhase::from_status("Verifying Checksum"),
        LayerPhase::Downloading
    );
    assert_eq!(
        LayerPhase::from_status("Download complete"),
        LayerPhase::Downloading
    );
    assert_eq!(
        LayerPhase::from_status("Extracting"),
        LayerPhase::Extracting
    );
    assert_eq!(LayerPhase::from_status("Pull complete"), LayerPhase::Done);
    assert_eq!(
        LayerPhase::from_status("Already exists"),
        LayerPhase::Cached
    );
    assert_eq!(
        LayerPhase::from_status("unknown status"),
        LayerPhase::Pending
    );
}

#[test]
fn test_manifest_info_extraction() {
    let manifest = ManifestV2 {
        media_type: None,
        layers: Some(vec![
            ManifestLayer {
                size: Some(1000),
                digest: Some("sha256:abcdef123456789000".to_string()),
            },
            ManifestLayer {
                size: Some(2000),
                digest: Some("sha256:fedcba987654321000".to_string()),
            },
        ]),
        manifests: None,
    };

    let info = extract_manifest_info(&manifest).unwrap();
    assert_eq!(info.total_bytes, 3000);
    assert_eq!(info.layer_sizes.len(), 2);
    assert_eq!(info.layer_sizes.get("abcdef123456"), Some(&1000));
    assert_eq!(info.layer_sizes.get("fedcba987654"), Some(&2000));
}

#[test]
fn test_manifest_info_empty_layers() {
    let manifest = ManifestV2 {
        media_type: None,
        layers: Some(vec![]),
        manifests: None,
    };
    assert!(extract_manifest_info(&manifest).is_none());
}

#[test]
fn test_manifest_info_no_layers() {
    let manifest = ManifestV2 {
        media_type: None,
        layers: None,
        manifests: None,
    };
    assert!(extract_manifest_info(&manifest).is_none());
}

#[test]
fn test_digest_prefix() {
    assert_eq!(
        digest_prefix("sha256:abcdef1234567890abcdef"),
        "abcdef123456"
    );
    assert_eq!(digest_prefix("short"), "short");
    assert_eq!(digest_prefix("sha256:abc"), "abc");
}

#[test]
fn test_aggregate_phase_downloading() {
    let mut layers = TextMap::new();
    layers.insert(
        "a".into(),
        LayerTracker {
            phase: LayerPhase::Downloading,
            current_bytes: 50,
            total_bytes: 100,
            manifest_bytes: 100,
        },
    );
    layers.insert(
        "b".into(),
        LayerTracker {
            phase: LayerPhase::Downloading,
            current_bytes: 30,
            total_bytes: 200,
            manifest_bytes: 200,
        },
    );

    let (progress, has_data) = aggregate_progress(&layers, 300, 0, &None);
    assert!(has_data);
    assert_eq!(progress.phase, PullPhase::Downloading);
    assert_eq!(progress.layers_done, 0);
    assert_eq!(progress.layers_total, 2);
    assert_eq!(progress.downloaded_bytes, 80);
    assert_eq!(progress.total_bytes, 300);
}

#[test]
fn test_aggregate_phase_extracting() {
    let mut layers = TextMap::new();
    layers.insert(
        "a".into(),
        LayerTracker {
            phase: LayerPhase::Extracting,
            current_bytes: 100,
            total_bytes: 100,
            manifest_bytes: 0,
        },
    );
    layers.insert(
        "b".into(),
        LayerTracker {
            phase: LayerPhase::Done,
            current_bytes: 200,
            total_bytes: 200,
            manifest_bytes: 0,
        },
    );

    let (progress, _) = aggregate_progress(&layers, 0, 0, &None);
    assert_eq!(progress.phase, PullPhase::Extracting);
    assert_eq!(progress.layers_done, 1);
    assert_eq!(progress.layers_total, 2);
}

#[test]
fn test_aggregate_with_cached_layers() {
    let mut layers = TextMap::new();
    layers.insert(
        "a".into(),
        LayerTracker {
            phase: LayerPhase::Cached,
            current_bytes: 0,
            total_bytes: 0,
            manifest_bytes: 0, // already zeroed
        },
    );
    layers.insert(
        "b".into(),
        LayerTracker {
            phase: LayerPhase::Downloading,
            current_bytes: 50,
            total_bytes: 200,
            manifest_bytes: 200,
        },
    );

    // manifest_total=500, cached_subtract=300 (cached layer was 300 bytes)
    let (progress, _) = aggregate_progress(&layers, 500, 300, &None);
    assert_eq!(progress.total_bytes, 200); // 500 - 300
    assert_eq!(progress.layers_done, 1); // cached layer
    assert_eq!(progress.layers_total, 2);
}

#[test]
fn test_with_phase_and_layers() {
    let p = ContainerPullProgress::new("test", "img")
        .with_progress(50, 100)
        .with_phase(PullPhase::Extracting)
        .with_layers(3, 5);
    assert_eq!(p.phase, PullPhase::Extracting);
    assert_eq!(p.layers_done, 3);
    assert_eq!(p.layers_total, 5);
    assert!(p.tracking_available);
}

#[test]
fn test_split_auth_params_standard() {
    let params = split_auth_params(
        r#"realm="https://auth.docker.io/token",service="registry.docker.io",scope="repository:library/nginx:pull""#,
    );
    assert_eq!(params.len(), 3);
    assert_eq!(params[0], pair("realm", "https://auth.docker.io/token"));
    assert_eq!(params[1], pair("service", "registry.docker.io"));
    assert_eq!(params[2], pair("scope", "repository:library/nginx:pull"));
}

#[test]
fn test_split_auth_params_unquoted() {
    let params = split_auth_params("realm=https://example.com,service=test");
    assert_eq!(params.len(), 2);
    assert_eq!(params[0], pair("realm", "https://example.com"));
    assert_eq!(params[1], pair("service", "test"));
}

#[test]
fn test_split_auth_params_empty() {
    let params = split_auth_params("");
    assert!(params.is_empty());
}

#[test]
fn test_split_auth_params_extra_whitespace() {
    let params = split_auth_params(r#"  realm="val1" ,  service="val2"  "#);
    assert_eq!(params.len(), 2);
    assert_eq!(params[0], pair("realm", "val1"));
    assert_eq!(params[1], pair("service", "val2"));
}

#[test]
fn test_split_auth_params_escaped_quotes() {
    let params = split_auth_params(r#"key="value with \"escaped\" quotes""#);
    assert_eq!(params.len(), 1);
    assert_eq!(params[0], pair("key", "value with \"escaped\" quotes"));
}

#[test]
fn test_split_auth_params_no_equals() {
    let params = split_auth_params("invalid-no-equals");
    assert!(params.is_empty());
}

#[test]
fn test_manifest_list_with_matching_platform() {
    let manifest = ManifestV2 {
        media_type: None,
        layers: None,
        manifests: Some(vec![
            ManifestListEntry {
                digest: Some("sha256:arm64digest".to_string()),
                platform: Some(ManifestPlatform {
                    architecture: Some("arm64".to_string()),
                    os: Some("linux".to_string()),
                }),
            },
            ManifestListEntry {
                digest: Some("sha256:amd64digest".to_string()),
                platform: Some(ManifestPlatform {
                    architecture: Some("amd64".to_string()),
                    os: Some("linux".to_string()),
                }),
            },
        ]),
    };

    // extract_manifest_info returns None for manifest lists (no layers)
    // This test validates the structure — the actual resolution
    // happens in fetch_manifest_total which calls fetch_manifest_by_digest
    assert!(extract_manifest_info(&manifest).is_none());
    assert!(manifest.manifests.is_some());
    let manifests = manifest.manifests.unwrap();
    let target = target_architecture();
    let entry = manifests
        .iter()
        .find(|m| {
            m.platform
                .as_ref()
                .map(|p| {
                    p.architecture.as_deref() == Some(target)
                        && p.os.as_deref() == Some("linux")
                })
                .unwrap_or(false)
        })
        .unwrap();
    assert!(entry.digest.is_some());
}

#[test]
fn test_manifest_list_no_matching_platform() {
    let manifests = [ManifestListEntry {
        digest: Some("sha256:s390xdigest".to_string()),
        platform: Some(ManifestPlatform {
            architecture: Some("s390x".to_string()),
            os: Some("linux".to_string()),
        }),
    }];

    let target = target_architecture();
    let entry = manifests.iter().find(|m| {
        m.platform
            .as_ref()
            .map(|p| {
                p.architecture.as_deref() == Some(target) && p.os.as_deref() == Some("linux")
            })
            .unwrap_or(false)
    });
    assert!(entry.is_none());
}

#[test]
fn test_manifest_list_windows_platform_skipped() {
    let manifests = [ManifestListEntry {
        digest: Some("sha256:windowsdigest".to_string()),
        platform: Some(ManifestPlatform {
            architecture: Some("amd64".to_string()),
            os: Some("windows".to_string()),
        }),
    }];

    let target = target_architecture();
    let entry = manifests.iter().find(|m| {
        m.platform
            .as_ref()
            .map(|p| {
                p.architecture.as_deref() == Some(target) && p.os.as_deref() == Some("linux")
            })
            .unwrap_or(false)
    });
    assert!(entry.is_none());
}

#[test]
fn test_manifest_list_missing_platform_field() {
    let manifests = [ManifestListEntry {
        digest: Some("sha256:noplatform".to_string()),
        platform: None,
    }];

    let target = target_architecture();
    let entry = manifests.iter().find(|m| {
        m.platform
            .as_ref()
            .map(|p| {
                p.architecture.as_deref() == Some(target) && p.os.as_deref() == Some("linux")
            })
            .unwrap_or(false)
    });
    assert!(entry.is_none());
}

#[test]
fn test_image_ref_cache_key() {
    let img = ImageRef::parse("nginx:1.25");
    assert_eq!(img.cache_key(), "registry-1.docker.io/library/nginx/1.25");

    let img2 = ImageRef::parse("ghcr.io/owner/repo:v2");
    assert_eq!(img2.cache_key(), "ghcr.io/owner/repo/v2");
}

#[test]
fn platforms_are_selected_by_architecture() {
    let entry = |digest: &str, arch: &str, os: &str| ManifestListEntry {
        digest: Some(digest.to_string()),
        platform: Some(ManifestPlatform {
            architecture: Some(arch.to_string()),
            os: Some(os.to_string()),
        }),
    };
    let list = vec![
        entry("sha256:w", "amd64", "windows"),
        entry("sha256:a", "arm64", "linux"),
        entry("sha256:b", "amd64", "linux"),
        entry("sha256:c", "amd64", "linux"),
    ];
    assert_eq!(select_platform(&list, "amd64"), Some("sha256:b".to_string()));
    assert_eq!(select_platform(&list, "arm64"), Some("sha256:a".to_string()));
    assert_eq!(select_platform(&list, "s390x"), None);
    assert_eq!(k3dev::cluster::docker::image::target_architecture(true), "arm64");
}
