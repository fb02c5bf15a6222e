use iso_code::WorktreeError;

#[test]
fn qa_g_006_network_filesystem_error_variant_exists() {
    let e = WorktreeError::NetworkFilesystem { mount_point: "/mnt/nfs".to_string() };
    let s = e.message();
    assert!(s.contains("network filesystem"), "Display: {s}");
}

#[test]
fn qa_g_007_wsl_cross_boundary_error_variant_exists() {
    let e = WorktreeError::WslCrossBoundary;
    let s = e.message();
    assert!(s.to_lowercase().contains("wsl"), "Display: {s}");
}

#[test]
fn qa_g_011_network_junction_target_error_variant_exists() {
    let e = WorktreeError::NetworkJunctionTarget { path: r"\\server\share\wt".to_string() };
    let s = e.message();
    assert!(s.contains("junction"), "Display: {s}");
}
