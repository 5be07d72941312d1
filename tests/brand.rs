use smartos_executor::config::Config;
use smartos_executor::image::Type;
use smartos_executor::instance::{primary_ip, Brand, BrandError, Nic};
use std::str::FromStr;

#[test]
fn brand_for_image_type() {
    assert!(Brand::Joyent.for_image_type("zone-dataset"));
    assert!(Brand::JoyentMinimal.for_image_type("zone-dataset"));
    assert!(Brand::Bhyve.for_image_type("zvol"));
    assert!(Brand::KVM.for_image_type("zvol"));
    assert!(Brand::LX.for_image_type("lx-dataset"));
    assert!(Brand::LXD.for_image_type("lxd"));
    assert!(Brand::Other.for_image_type("anything"));
    assert!(!Brand::Bhyve.for_image_type("zone-dataset"));
    assert!(!Brand::LX.for_image_type("lxd"));
}

#[test]
fn brand_flags() {
    assert!(Brand::Joyent.allows_delegate_dataset());
    assert!(Brand::LX.allows_delegate_dataset());
    assert!(!Brand::Bhyve.allows_delegate_dataset());
    assert!(Brand::Bhyve.is_hvm());
    assert!(Brand::KVM.is_hvm());
    assert!(!Brand::LXD.is_hvm());
    assert_eq!(Brand::default(), Brand::Other);
}

#[test]
fn brand_names_round_trip() {
    for b in [Brand::Joyent, Brand::JoyentMinimal, Brand::Bhyve, Brand::KVM, Brand::LX, Brand::LXD] {
        assert_eq!(Brand::from_str(b.as_str()), Ok(b));
    }
    assert_eq!(Brand::Other.as_str(), "other");
    assert_eq!(Brand::from_str("other"), Ok(Brand::LXD));
    assert_eq!(Brand::from_str("solaris"), Err(BrandError::UnknownBrand));
    assert_eq!(BrandError::UnknownBrand.message(), "Unknown Brand");
}

#[test]
fn image_types_parse() {
    for t in [Type::ZoneDataset, Type::LXDataset, Type::LXD, Type::ZVol, Type::Other] {
        assert_eq!(Type::from_str(t.as_str()), Ok(t));
    }
    assert_eq!(Type::from_str("iso"), Err("Unknown type provided: iso".to_string()));
    assert_eq!(Type::parse_or_default("iso"), Type::Other);
    assert_eq!(Type::parse_or_default("zvol"), Type::ZVol);
}

fn nic(primary: Option<bool>, ips: Option<Vec<&str>>) -> Nic {
    Nic {
        nic_tag: None,
        ips: ips.map(|v| v.into_iter().map(String::from).collect()),
        gateways: None,
        model: None,
        primary,
    }
}

#[test]
fn primary_ip_picks_first_usable_nic() {
    let nics = vec![
        nic(Some(false), Some(vec!["10.0.0.1"])),
        nic(None, Some(vec![])),
        nic(None, Some(vec!["10.0.0.2", "10.0.0.3"])),
        nic(Some(true), Some(vec!["10.0.0.4"])),
    ];
    assert_eq!(primary_ip(&nics), Some("10.0.0.2".to_string()));
    assert_eq!(primary_ip(&vec![nic(Some(false), Some(vec!["1.1.1.1"]))]), None);
    assert_eq!(primary_ip(&Vec::new()), None);
}

fn vars(pairs: &[(&str, &str)]) -> Vec<(String, String)> {
    pairs.iter().map(|(k, v)| (k.to_string(), v.to_string())).collect()
}

#[test]
fn config_defaults() {
    let c = Config::new("smartos_executor", &Vec::new());
    assert_eq!(c.log_file, "/var/log/smartos_executor.log");
    assert_eq!(c.exec_bind_address, "127.0.0.1:8081");
    assert_eq!(c.vminfo_bind_address, "127.0.0.1:9090");
    assert_eq!(c.request_body_max_bytes, 8 * 1024 * 1024);
    assert_eq!(c.exec_cache_seconds, 300);
    assert!(!c.skip_privilege_drop);
    assert_eq!(c.shadow_path, "/etc/shadow");
    assert_eq!(c.gz_config_path, "/usbkey/config");
    assert_eq!(c.login_user, "root");
}

#[test]
fn config_from_variables() {
    let c = Config::new(
        "x",
        &vars(&[
            ("EXEC_CACHE", "1"),
            ("REQ_MAX_BYTES", "oops"),
            ("SKIP_PRIVILEGE_DROP", "1"),
            ("LOGIN_USER", "admin"),
            ("LOGIN_USER", "ignored"),
        ]),
    );
    assert_eq!(c.exec_cache_seconds, 1);
    assert_eq!(c.request_body_max_bytes, 8388608);
    assert!(c.skip_privilege_drop);
    assert_eq!(c.login_user, "admin");
    assert!(!Config::new("x", &vars(&[("SKIP_PRIVILEGE_DROP", "")])).skip_privilege_drop);
}
