use greentic_dw::supplier::{AssetReadFailure, AssetSupplierError, FsAssetSupplier, MapAssetSupplier, NoAssetSupplier};

#[test]
fn no_supplier_always_errors() {
    let err = NoAssetSupplier.provide("logo").expect_err("must error");
    match err {
        AssetSupplierError::NotFound(id) => assert_eq!(id, "logo"),
        other => panic!("unexpected: {other:?}"),
    }
}

#[test]
fn map_supplier_returns_inserted_bytes() {
    let supplier = MapAssetSupplier::new().with("logo".to_string(), b"PNGBYTES".to_vec());
    let bytes = supplier.provide("logo").expect("must resolve");
    assert_eq!(bytes, b"PNGBYTES");
}

#[test]
fn map_supplier_errors_on_missing() {
    let supplier = MapAssetSupplier::new();
    assert!(matches!(supplier.provide("logo"), Err(AssetSupplierError::NotFound(_))));
}

#[test]
fn map_supplier_later_insert_replaces_earlier() {
    let supplier = MapAssetSupplier::new()
        .with("logo".to_string(), b"OLD".to_vec())
        .with("banner".to_string(), b"BANNER".to_vec())
        .with("logo".to_string(), b"NEW".to_vec());
    assert_eq!(supplier.provide("logo").expect("logo"), b"NEW");
    assert_eq!(supplier.provide("banner").expect("banner"), b"BANNER");
    assert_eq!(supplier.provide("icon"), Err(AssetSupplierError::NotFound("icon".to_string())));
}

#[test]
fn fs_supplier_keeps_its_base_dir() {
    let supplier = FsAssetSupplier::new("/srv/assets".to_string());
    assert_eq!(supplier.base_dir, "/srv/assets");
}

#[test]
fn fs_supplier_maps_read_outcomes() {
    let supplier = FsAssetSupplier::new("assets-root".to_string());
    assert_eq!(supplier.provide_from_read("logo", Ok(vec![1, 2])), Ok(vec![1, 2]));
    assert_eq!(
        supplier.provide_from_read("logo", Err(AssetReadFailure::NotFound)),
        Err(AssetSupplierError::NotFound("logo".to_string()))
    );
    assert_eq!(
        supplier.provide_from_read("logo", Err(AssetReadFailure::Other("permission denied".to_string()))),
        Err(AssetSupplierError::Io { asset_id: "logo".to_string(), message: "permission denied".to_string() })
    );
}
