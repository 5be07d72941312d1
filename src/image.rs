//! Images: their kinds and states, and what an import names.
use vstd::prelude::*;
use crate::instance::Brand;
use crate::jobs::{ImportJob, ImportStatus};
use crate::text::{str_eq, str_lt};

verus! {

/// A user for whom provisioning may generate a password.
#[derive(Debug)]
pub struct User {
    pub name: String,
}

/// A network that an image requires.
#[derive(Debug)]
pub struct Network {
    pub name: String,
    pub description: String,
}

/// The state of an image in an image server.
#[derive(Debug, Clone, Copy, PartialEq, Eq, Structural)]
pub enum State {
    Active,
    Unactivated,
    Disabled,
    Creating,
    Failed,
    Unknown,
}

/// The kind of an image.
#[derive(Debug, Clone, Copy, PartialEq, Eq, Structural)]
pub enum Type {
    ZoneDataset,
    LXDataset,
    LXD,
    ZVol,
    Other,
}

/// The name of an image kind.
pub open spec fn kind_name(t: Type) -> Seq<char> {
    match t {
        Type::ZoneDataset => "zone-dataset"@,
        Type::LXDataset => "lx-dataset"@,
        Type::LXD => "lxd"@,
        Type::ZVol => "zvol"@,
        Type::Other => "other"@,
    }
}

/// The kind that a name parses to.
pub open spec fn parsed_type(s: Seq<char>) -> Option<Type> {
    if s == "zone-dataset"@ {
        Some(Type::ZoneDataset)
    } else if s == "lx-dataset"@ {
        Some(Type::LXDataset)
    } else if s == "lxd"@ {
        Some(Type::LXD)
    } else if s == "zvol"@ {
        Some(Type::ZVol)
    } else if s == "other"@ {
        Some(Type::Other)
    } else {
        None
    }
}

impl Type {
    /// The kind's name, as `imgadm` writes it.
    pub fn as_str(&self) -> (r: &'static str)
        ensures
            r@ == kind_name(*self),
    {
        match self {
            Type::ZoneDataset => "zone-dataset",
            Type::LXDataset => "lx-dataset",
            Type::LXD => "lxd",
            Type::ZVol => "zvol",
            Type::Other => "other",
        }
    }

    /// Parses a kind name; an unknown name is refused with a message that
    /// quotes it.
    pub fn parse(s: &str) -> (r: Result<Type, String>)
        ensures
            match parsed_type(s@) {
                Some(t) => r == Ok::<Type, String>(t),
                None => r matches Err(m) && m@ == "Unknown type provided: "@ + s@,
            },
    {
        if str_eq(s, "zone-dataset") {
            Ok(Type::ZoneDataset)
        } else if str_eq(s, "lx-dataset") {
            Ok(Type::LXDataset)
        } else if str_eq(s, "lxd") {
            Ok(Type::LXD)
        } else if str_eq(s, "zvol") {
            Ok(Type::ZVol)
        } else if str_eq(s, "other") {
            Ok(Type::Other)
        } else {
            Err(String::from_str("Unknown type provided: ").concat(s))
        }
    }

    /// The kind named `s`, or `Other` for a name that is not known; this is
    /// the kind that a placeholder row of an import shows.
    pub fn parse_or_default(s: &str) -> (r: Type)
        ensures
            r == (match parsed_type(s@) {
                Some(t) => t,
                None => Type::Other,
            }),
    {
        match Type::parse(s) {
            Ok(t) => t,
            Err(_) => Type::default(),
        }
    }
}

impl Default for Type {
    fn default() -> (r: Type)
        ensures
            r == Type::Other,
    {
        Type::Other
    }
}

impl std::str::FromStr for Type {
    type Err = String;

    fn from_str(s: &str) -> Result<Type, String> {
        Type::parse(s)
    }
}

/// A JSON value that manifests carry through unread.
#[verifier::external_type_specification]
#[verifier::external_body]
pub struct ExValue(serde_json::Value);

/// A set of named requirements for provisioning a VM with an image.
#[derive(Debug)]
pub struct Requirements {
    /// The networks that an instance needs.
    pub networks: Option<Vec<Network>>,
    /// The brand that an instance must have.
    pub brand: Option<Brand>,
    /// Whether provisioning needs an SSH public key.
    pub ssh_key: Option<bool>,
    /// Minimum RAM, in MiB.
    pub min_ram: Option<u64>,
    /// Maximum RAM, in MiB.
    pub max_ram: Option<u64>,
    pub min_platform: Option<serde_json::Value>,
    pub max_platform: Option<serde_json::Value>,
    /// The bootrom to boot the image with.
    pub bootrom: Option<String>,
}

/// An image manifest, version 2 of the IMGAPI format.
#[derive(Debug)]
pub struct Manifest {
    /// Version of the manifest format.
    pub v: u64,
    pub uuid: u128,
    pub owner: u128,
    pub name: String,
    pub version: String,
    pub description: Option<String>,
    pub homepage: Option<String>,
    pub eula: Option<String>,
    pub icon: Option<bool>,
    pub state: String,
    pub error: Option<serde_json::Value>,
    pub disabled: bool,
    pub public: bool,
    pub published_at: Option<String>,
    pub image_type: Type,
    pub os: String,
    pub requirements: Option<Requirements>,
    pub users: Option<Vec<User>>,
    pub billing_tags: Option<serde_json::Value>,
    pub traits: Option<serde_json::Value>,
    pub tags: Option<serde_json::Value>,
    pub generate_passwords: Option<bool>,
    pub inherited_directories: Option<Vec<String>>,
    pub nic_driver: Option<String>,
    pub disk_driver: Option<String>,
    pub cpu_type: Option<String>,
    pub image_size: Option<u64>,
    pub channels: Option<Vec<String>>,
}

impl Manifest {
    /// Just enough of a manifest to list image `uuid` while it is imported:
    /// state `importing`, the kind named by `image_type` (or `Other`), and
    /// nothing else set.
    pub fn new_for_import(
        uuid: u128,
        name: String,
        version: String,
        image_type: String,
        os: String,
    ) -> (r: Manifest)
        ensures
            r.v == 0,
            r.uuid == uuid,
            r.owner == 0,
            r.name == name,
            r.version == version,
            r.image_type == (match parsed_type(image_type@) {
                Some(t) => t,
                None => Type::Other,
            }),
            r.os == os,
            r.state@ == "importing"@,
            r.published_at is None,
            r.requirements is None,
            r.users is None,
            r.tags is None,
            !r.disabled,
            !r.public,
    {
        Manifest {
            v: 0,
            uuid,
            owner: 0,
            name,
            version,
            image_type: Type::parse_or_default(image_type.as_str()),
            os,
            state: String::from_str("importing"),
            published_at: None,
            description: None,
            homepage: None,
            eula: None,
            requirements: None,
            users: None,
            billing_tags: None,
            traits: None,
            tags: None,
            generate_passwords: None,
            inherited_directories: None,
            nic_driver: None,
            disk_driver: None,
            cpu_type: None,
            image_size: None,
            disabled: false,
            icon: None,
            error: None,
            public: false,
            channels: None,
        }
    }
}

/// An image: its manifest, where it comes from, and how its import stands
/// when it is being imported.
#[derive(Debug)]
pub struct Image {
    pub manifest: Manifest,
    pub source: Option<String>,
    pub import_status: Option<ImportStatus>,
}

/// The group under which images of a kind are listed.
pub open spec fn group_of(t: Type) -> Seq<char> {
    match t {
        Type::ZVol => "Hardware Virtual Machine"@,
        Type::LXDataset => "Container-native Linux"@,
        Type::LXD => "Container-native Linux"@,
        Type::ZoneDataset => "SmartOS Zone (Container)"@,
        Type::Other => "Other"@,
    }
}

/// The brand that images of a kind get when they require none.
pub open spec fn default_brand_of(t: Type) -> Brand {
    match t {
        Type::ZVol => Brand::Bhyve,
        Type::LXDataset => Brand::LX,
        Type::LXD => Brand::LXD,
        Type::ZoneDataset => Brand::Joyent,
        Type::Other => Brand::Joyent,
    }
}

/// Whether images of a kind run under brand `b`.
pub open spec fn kind_allows(t: Type, b: Brand) -> bool {
    match t {
        Type::ZVol => b == Brand::Bhyve || b == Brand::KVM,
        Type::LXDataset => b == Brand::LX,
        Type::LXD => b == Brand::LXD,
        Type::ZoneDataset => b == Brand::Joyent || b == Brand::JoyentMinimal,
        Type::Other => true,
    }
}

/// The brand that the manifest requires, if any.
pub open spec fn required_brand(m: Manifest) -> Option<Brand> {
    match m.requirements {
        Some(req) => req.brand,
        None => None,
    }
}

/// The image server whose images boot with UEFI on bhyve when published in
/// 2023 or later.
pub open spec fn official_source() -> Seq<char> {
    "https://images.smartos.org/"@
}

/// Lexicographic order on characters, which is the order of `str`.
pub open spec fn seq_lt(a: Seq<char>, b: Seq<char>) -> bool
    decreases a.len(),
{
    if b.len() == 0 {
        false
    } else if a.len() == 0 {
        true
    } else if a[0] != b[0] {
        a[0] < b[0]
    } else {
        seq_lt(a.drop_first(), b.drop_first())
    }
}

/// Whether an image boots with UEFI: it requires the `uefi` bootrom, or it
/// runs under bhyve, comes from the official server and was published in
/// 2023 or later.
pub open spec fn boots_uefi(img: Image, brand: Brand) -> bool {
    let requires_uefi = match img.manifest.requirements {
        Some(req) => match req.bootrom {
            Some(b) => b@ == "uefi"@,
            None => false,
        },
        None => false,
    };
    let official = match img.source {
        Some(s) => s@ == official_source(),
        None => false,
    };
    let recent = match img.manifest.published_at {
        Some(p) => !seq_lt(p@, "2023-01-01T00:00:00Z"@),
        None => false,
    };
    requires_uefi || (brand == Brand::Bhyve && official && recent)
}

/// Whether one of `users` is root.
pub open spec fn lists_root(users: Seq<User>) -> bool {
    exists|i: int| 0 <= i < users.len() && #[trigger] users[i].name@ == "root"@
}

impl Image {
    /// The row that lists a tracked import: a placeholder manifest, the
    /// source it is imported from, and the job's status.
    pub fn from_job(job: ImportJob) -> (r: Image)
        ensures
            r.manifest.uuid == job.id,
            r.manifest.name == job.params.name,
            r.manifest.version == job.params.version,
            r.manifest.os == job.params.os,
            r.manifest.image_type == (match parsed_type(job.params.image_type@) {
                Some(t) => t,
                None => Type::Other,
            }),
            r.manifest.state@ == "importing"@,
            r.source == Some(job.params.url),
            r.import_status == Some(job.status),
    {
        let ImportJob { id, params, status } = job;
        let manifest = Manifest::new_for_import(
            id,
            params.name,
            params.version,
            params.image_type,
            params.os,
        );
        Image { manifest, source: Some(params.url), import_status: Some(status) }
    }

    /// Whether the image is for a hardware virtual machine.
    pub fn is_for_hvm(&self) -> (r: bool)
        ensures
            r == (self.manifest.image_type == Type::ZVol),
    {
        self.manifest.image_type == Type::ZVol
    }

    /// The group under which the image is listed.
    pub fn group_name(&self) -> (r: String)
        ensures
            r@ == group_of(self.manifest.image_type),
    {
        match self.manifest.image_type {
            Type::ZVol => String::from_str("Hardware Virtual Machine"),
            Type::LXDataset | Type::LXD => String::from_str("Container-native Linux"),
            Type::ZoneDataset => String::from_str("SmartOS Zone (Container)"),
            Type::Other => String::from_str("Other"),
        }
    }

    /// Whether provisioning may set a root password: only for VM images,
    /// and then unless the image lists its users without root.
    pub fn has_root_user(&self) -> (r: bool)
        ensures
            r == (self.manifest.image_type == Type::ZVol && match self.manifest.users {
                Some(users) => lists_root(users@),
                None => true,
            }),
    {
        match self.manifest.image_type {
            Type::ZVol => match &self.manifest.users {
                Some(users) => {
                    let mut i: usize = 0;
                    while i < users.len()
                        invariant
                            self.manifest.image_type == Type::ZVol,
                            self.manifest.users == Some(*users),
                            i <= users@.len(),
                            forall|j: int| 0 <= j < i ==> users@[j].name@ != "root"@,
                        decreases users@.len() - i,
                    {
                        if str_eq(users[i].name.as_str(), "root") {
                            assert(users@[i as int].name@ == "root"@);
                            assert(lists_root(users@));
                            return true;
                        }
                        i = i + 1;
                    }
                    false
                },
                None => true,
            },
            _ => false,
        }
    }

    /// Whether an instance of `brand` should boot this image with UEFI.
    pub fn uses_uefi_bootrom(&self, brand: &Brand) -> (r: bool)
        ensures
            r == boots_uefi(*self, *brand),
    {
        if let Some(requirements) = &self.manifest.requirements {
            if let Some(bootrom) = &requirements.bootrom {
                if str_eq(bootrom.as_str(), "uefi") {
                    return true;
                }
            }
        }
        if *brand == Brand::Bhyve {
            if let Some(source) = &self.source {
                if str_eq(source.as_str(), "https://images.smartos.org/") {
                    if let Some(published) = &self.manifest.published_at {
                        if !str_lt(published.as_str(), "2023-01-01T00:00:00Z") {
                            return true;
                        }
                    }
                }
            }
        }
        false
    }

    /// The brand that instances of the image get by default: the one it
    /// requires, else the one of its kind.
    pub fn default_brand(&self) -> (r: Brand)
        ensures
            r == (match required_brand(self.manifest) {
                Some(b) => b,
                None => default_brand_of(self.manifest.image_type),
            }),
    {
        if let Some(requirements) = &self.manifest.requirements {
            if let Some(brand) = &requirements.brand {
                return *brand;
            }
        }
        match self.manifest.image_type {
            Type::ZVol => Brand::Bhyve,
            Type::LXDataset => Brand::LX,
            Type::LXD => Brand::LXD,
            Type::ZoneDataset => Brand::Joyent,
            Type::Other => Brand::Joyent,
        }
    }

    /// Whether instances of `brand` can run the image: it is the brand the
    /// image requires, or one that its kind allows.
    pub fn valid_brand(&self, brand: &Brand) -> (r: bool)
        ensures
            r == (required_brand(self.manifest) == Some(*brand) || kind_allows(
                self.manifest.image_type,
                *brand,
            )),
    {
        if let Some(requirements) = &self.manifest.requirements {
            if let Some(image_brand) = &requirements.brand {
                if *image_brand == *brand {
                    return true;
                }
            }
        }
        match self.manifest.image_type {
            Type::ZVol => *brand == Brand::Bhyve || *brand == Brand::KVM,
            Type::LXDataset => *brand == Brand::LX,
            Type::LXD => *brand == Brand::LXD,
            Type::ZoneDataset => *brand == Brand::Joyent || *brand == Brand::JoyentMinimal,
            Type::Other => true,
        }
    }
}

} // verus!
