//! Instances: their brands, and the values exchanged about them.
use vstd::prelude::*;
use crate::runner::ProcessOutput;
use crate::text::str_eq;

verus! {

/// Used for sending the instance JSON to `vmadm validate` and `vmadm create`.
#[derive(Debug)]
pub struct InstancePayload {
    /// String containing instance JSON
    pub payload: String,
}

/// What `vmadm validate create` said of a payload.
#[derive(Debug)]
pub struct InstanceValidateResponse {
    pub message: String,
    pub success: bool,
}

impl InstanceValidateResponse {
    /// The answer of a finished validation run: whether it succeeded, with
    /// what it wrote to stderr.
    pub fn from_output(out: ProcessOutput) -> (r: InstanceValidateResponse)
        ensures
            r.message == out.stderr,
            r.success == out.success,
    {
        InstanceValidateResponse { message: out.stderr, success: out.success }
    }
}

/// A network interface of an instance.
#[derive(Debug)]
pub struct Nic {
    pub nic_tag: Option<String>,
    pub ips: Option<Vec<String>>,
    pub gateways: Option<Vec<String>>,
    pub model: Option<String>,
    pub primary: Option<bool>,
}

/// Whether `nic` can give the primary address: it is not marked
/// non-primary and has an address.
pub open spec fn gives_address(nic: Nic) -> bool {
    &&& nic.primary != Some(false)
    &&& nic.ips is Some
    &&& nic.ips.unwrap()@.len() > 0
}

/// The primary address of an instance: the first address of the first
/// interface that is not marked non-primary and has one.
pub fn primary_ip(nics: &Vec<Nic>) -> (r: Option<String>)
    ensures
        r matches Some(ip) ==> exists|i: int|
            0 <= i < nics@.len() && gives_address(nics@[i]) && (forall|j: int|
                0 <= j < i ==> !gives_address(#[trigger] nics@[j])) && ip == nics@[i].ips.unwrap()@[0],
        r is None ==> forall|i: int| 0 <= i < nics@.len() ==> !gives_address(#[trigger] nics@[i]),
{
    let mut i: usize = 0;
    while i < nics.len()
        invariant
            i <= nics@.len(),
            forall|j: int| 0 <= j < i ==> !gives_address(#[trigger] nics@[j]),
        decreases nics@.len() - i,
    {
        let nic = &nics[i];
        let skip = match nic.primary {
            Some(p) => !p,
            None => false,
        };
        if !skip {
            match &nic.ips {
                Some(ips) => {
                    if ips.len() > 0 {
                        return Some(ips[0].clone());
                    }
                },
                None => {},
            }
        }
        i = i + 1;
    }
    None
}

/// The brands of zone that SmartOS runs.
#[derive(Debug, Clone, Copy, PartialEq, Eq, Structural)]
pub enum Brand {
    Joyent,
    JoyentMinimal,
    Bhyve,
    KVM,
    LX,
    LXD,
    Other,
}

/// The error of parsing a brand name that is not known.
#[derive(Debug, PartialEq, Eq, Structural)]
pub enum BrandError {
    UnknownBrand,
}

impl BrandError {
    /// The error's message.
    pub fn message(&self) -> (r: &'static str)
        ensures
            r@ == "Unknown Brand"@,
    {
        "Unknown Brand"
    }
}

/// Whether an image of kind `image_type` can run under brand `b`.
pub open spec fn brand_fits_type(b: Brand, image_type: Seq<char>) -> bool {
    match b {
        Brand::Joyent => image_type == "zone-dataset"@,
        Brand::JoyentMinimal => image_type == "zone-dataset"@,
        Brand::Bhyve => image_type == "zvol"@,
        Brand::KVM => image_type == "zvol"@,
        Brand::LX => image_type == "lx-dataset"@,
        Brand::LXD => image_type == "lxd"@,
        Brand::Other => true,
    }
}

/// The name of a brand.
pub open spec fn brand_name(b: Brand) -> Seq<char> {
    match b {
        Brand::Joyent => "joyent"@,
        Brand::JoyentMinimal => "joyent-minimal"@,
        Brand::Bhyve => "bhyve"@,
        Brand::KVM => "kvm"@,
        Brand::LX => "lx"@,
        Brand::LXD => "lxd"@,
        Brand::Other => "other"@,
    }
}

/// The brand that a name parses to; `other` parses to `LXD`.
pub open spec fn parsed_brand(s: Seq<char>) -> Option<Brand> {
    if s == "joyent"@ {
        Some(Brand::Joyent)
    } else if s == "joyent-minimal"@ {
        Some(Brand::JoyentMinimal)
    } else if s == "bhyve"@ {
        Some(Brand::Bhyve)
    } else if s == "kvm"@ {
        Some(Brand::KVM)
    } else if s == "lx"@ {
        Some(Brand::LX)
    } else if s == "lxd"@ {
        Some(Brand::LXD)
    } else if s == "other"@ {
        Some(Brand::LXD)
    } else {
        None
    }
}

impl Brand {
    /// Whether an image of kind `image_type` can run under this brand.
    pub fn for_image_type(&self, image_type: &str) -> (r: bool)
        ensures
            r == brand_fits_type(*self, image_type@),
    {
        match self {
            Brand::Joyent => str_eq(image_type, "zone-dataset"),
            Brand::JoyentMinimal => str_eq(image_type, "zone-dataset"),
            Brand::Bhyve => str_eq(image_type, "zvol"),
            Brand::KVM => str_eq(image_type, "zvol"),
            Brand::LX => str_eq(image_type, "lx-dataset"),
            Brand::LXD => str_eq(image_type, "lxd"),
            Brand::Other => true,
        }
    }

    /// Whether instances of this brand may have a delegated dataset.
    pub fn allows_delegate_dataset(&self) -> (r: bool)
        ensures
            r == (*self == Brand::Joyent || *self == Brand::JoyentMinimal || *self == Brand::LX),
    {
        match self {
            Brand::Joyent | Brand::JoyentMinimal | Brand::LX => true,
            _ => false,
        }
    }

    /// Whether this brand runs hardware virtual machines.
    pub fn is_hvm(&self) -> (r: bool)
        ensures
            r == (*self == Brand::Bhyve || *self == Brand::KVM),
    {
        match self {
            Brand::Joyent => false,
            Brand::JoyentMinimal => false,
            Brand::Bhyve => true,
            Brand::KVM => true,
            Brand::LX => false,
            Brand::LXD => false,
            Brand::Other => false,
        }
    }

    /// The brand's name, as `vmadm` writes it.
    pub fn as_str(&self) -> (r: &'static str)
        ensures
            r@ == brand_name(*self),
    {
        match self {
            Brand::Joyent => "joyent",
            Brand::JoyentMinimal => "joyent-minimal",
            Brand::Bhyve => "bhyve",
            Brand::KVM => "kvm",
            Brand::LX => "lx",
            Brand::LXD => "lxd",
            Brand::Other => "other",
        }
    }

    /// Parses a brand name.
    pub fn parse(value: &str) -> (r: Result<Brand, BrandError>)
        ensures
            match parsed_brand(value@) {
                Some(b) => r == Ok::<Brand, BrandError>(b),
                None => r == Err::<Brand, BrandError>(BrandError::UnknownBrand),
            },
    {
        if str_eq(value, "joyent") {
            Ok(Brand::Joyent)
        } else if str_eq(value, "joyent-minimal") {
            Ok(Brand::JoyentMinimal)
        } else if str_eq(value, "bhyve") {
            Ok(Brand::Bhyve)
        } else if str_eq(value, "kvm") {
            Ok(Brand::KVM)
        } else if str_eq(value, "lx") {
            Ok(Brand::LX)
        } else if str_eq(value, "lxd") {
            Ok(Brand::LXD)
        } else if str_eq(value, "other") {
            Ok(Brand::LXD)
        } else {
            Err(BrandError::UnknownBrand)
        }
    }
}

impl Default for Brand {
    fn default() -> (r: Brand)
        ensures
            r == Brand::Other,
    {
        Brand::Other
    }
}

impl std::str::FromStr for Brand {
    type Err = BrandError;

    fn from_str(value: &str) -> Result<Brand, BrandError> {
        Brand::parse(value)
    }
}

/// Where to reach the VNC console of an instance.
#[derive(Debug)]
pub struct Vnc {
    pub host: Option<String>,
    pub port: Option<u64>,
}

/// What `vmadm info` reports of an instance.
#[derive(Debug)]
pub struct Info {
    pub vnc: Option<Vnc>,
}

} // verus!
