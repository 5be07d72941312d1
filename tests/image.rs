use smartos_executor::image::{Image, Manifest, Requirements, Type, User};
use smartos_executor::instance::Brand;
use smartos_executor::jobs::{ImageImportParams, ImportJob, ImportStatus};
use smartos_executor::serde_helpers::{bool_from_lowercase, string_value_into_bool, string_value_into_u64};

fn image(kind: &str) -> Image {
    Image {
        manifest: Manifest::new_for_import(7, "base".to_string(), "1.0".to_string(), kind.to_string(), "smartos".to_string()),
        source: None,
        import_status: None,
    }
}

fn requiring(kind: &str, brand: Option<Brand>, bootrom: Option<&str>) -> Image {
    let mut img = image(kind);
    img.manifest.requirements = Some(Requirements {
        networks: None,
        brand,
        ssh_key: None,
        min_ram: None,
        max_ram: None,
        min_platform: None,
        max_platform: None,
        bootrom: bootrom.map(String::from),
    });
    img
}

#[test]
fn placeholder_manifest() {
    let m = Manifest::new_for_import(7, "base".to_string(), "1.0".to_string(), "lx-dataset".to_string(), "linux".to_string());
    assert_eq!(m.v, 0);
    assert_eq!(m.uuid, 7);
    assert_eq!(m.state, "importing");
    assert_eq!(m.image_type, Type::LXDataset);
    assert!(!m.public);
    assert_eq!(Manifest::new_for_import(1, "a".into(), "b".into(), "bogus".into(), "c".into()).image_type, Type::Other);
}

#[test]
fn placeholder_row_of_a_job() {
    let job = ImportJob {
        id: 9,
        params: ImageImportParams {
            url: "https://images.smartos.org/".to_string(),
            name: "n".to_string(),
            version: "v".to_string(),
            image_type: "zvol".to_string(),
            os: "linux".to_string(),
        },
        status: ImportStatus::Failed("network timeout".to_string()),
    };
    let row = Image::from_job(job);
    assert_eq!(row.manifest.uuid, 9);
    assert_eq!(row.manifest.image_type, Type::ZVol);
    assert_eq!(row.source.as_deref(), Some("https://images.smartos.org/"));
    assert!(matches!(row.import_status, Some(ImportStatus::Failed(m)) if m == "network timeout"));
}

#[test]
fn groups_and_hvm() {
    assert_eq!(image("zvol").group_name(), "Hardware Virtual Machine");
    assert_eq!(image("lx-dataset").group_name(), "Container-native Linux");
    assert_eq!(image("lxd").group_name(), "Container-native Linux");
    assert_eq!(image("zone-dataset").group_name(), "SmartOS Zone (Container)");
    assert_eq!(image("other").group_name(), "Other");
    assert!(image("zvol").is_for_hvm());
    assert!(!image("lxd").is_for_hvm());
}

#[test]
fn root_user() {
    assert!(image("zvol").has_root_user());
    assert!(!image("zone-dataset").has_root_user());
    let mut img = image("zvol");
    img.manifest.users = Some(vec![User { name: "admin".to_string() }]);
    assert!(!img.has_root_user());
    img.manifest.users = Some(vec![User { name: "admin".to_string() }, User { name: "root".to_string() }]);
    assert!(img.has_root_user());
}

#[test]
fn brands_of_images() {
    assert_eq!(image("zvol").default_brand(), Brand::Bhyve);
    assert_eq!(image("lx-dataset").default_brand(), Brand::LX);
    assert_eq!(image("other").default_brand(), Brand::Joyent);
    assert_eq!(requiring("zvol", Some(Brand::KVM), None).default_brand(), Brand::KVM);
    assert!(image("zvol").valid_brand(&Brand::KVM));
    assert!(!image("zvol").valid_brand(&Brand::LX));
    assert!(image("zone-dataset").valid_brand(&Brand::JoyentMinimal));
    assert!(image("other").valid_brand(&Brand::LXD));
    assert!(requiring("zone-dataset", Some(Brand::LX), None).valid_brand(&Brand::LX));
}

#[test]
fn uefi_bootrom() {
    assert!(requiring("zvol", None, Some("uefi")).uses_uefi_bootrom(&Brand::KVM));
    assert!(!requiring("zvol", None, Some("bios")).uses_uefi_bootrom(&Brand::KVM));
    let mut img = image("zvol");
    img.source = Some("https://images.smartos.org/".to_string());
    img.manifest.published_at = Some("2023-01-01T00:00:00Z".to_string());
    assert!(img.uses_uefi_bootrom(&Brand::Bhyve));
    assert!(!img.uses_uefi_bootrom(&Brand::KVM));
    img.manifest.published_at = Some("2022-12-31T23:59:59Z".to_string());
    assert!(!img.uses_uefi_bootrom(&Brand::Bhyve));
    img.manifest.published_at = Some("2024-06-01T00:00:00Z".to_string());
    img.source = Some("https://example.com/".to_string());
    assert!(!img.uses_uefi_bootrom(&Brand::Bhyve));
}

#[test]
fn lenient_booleans() {
    assert_eq!(string_value_into_bool("TRUE"), Some(true));
    assert_eq!(string_value_into_bool("Yes"), Some(true));
    assert_eq!(string_value_into_bool("No"), Some(false));
    assert_eq!(string_value_into_bool(""), Some(false));
    assert_eq!(string_value_into_bool("maybe"), None);
    assert_eq!(bool_from_lowercase("TRUE"), None);
    assert_eq!(bool_from_lowercase("false"), Some(false));
}

#[test]
fn lenient_integers() {
    assert_eq!(string_value_into_u64("0", None), 0);
    assert_eq!(string_value_into_u64("1", None), 1);
    assert_eq!(string_value_into_u64("-1", Some(0)), 0);
    assert_eq!(string_value_into_u64("1.0", Some(1)), 1);
    assert_eq!(string_value_into_u64("0.01", Some(0)), 0);
    assert_eq!(string_value_into_u64("hi", None), 0);
    assert_eq!(string_value_into_u64("+42", Some(7)), 42);
    assert_eq!(string_value_into_u64("NaN", Some(0)), 0);
    assert_eq!(string_value_into_u64("", None), 0);
    assert_eq!(string_value_into_u64("18446744073709551616", Some(u64::MAX)), u64::MAX);
}
