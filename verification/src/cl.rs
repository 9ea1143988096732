//! Plain-value models of the driver-side objects the cache engine works
//! with.
//!
//! The driver hands out opaque handles; what the engine actually reads
//! from them is small: a device's name and its platform's name and
//! version (for keying), and raw handle values to route back to the
//! driver.  Each model type below carries exactly that as plain values.
//! The embedding program queries the driver once, builds these values,
//! and owns the handle lifetimes (retain on adoption, release on drop).

use vstd::prelude::*;

verus! {

/// The error surfaced for any driver-side failure: a human-readable
/// message, plus the driver's integer status code where one exists.
#[derive(Debug)]
pub struct OpenClError {
    pub human_error: String,
    pub error_code: Option<i32>,
}

impl OpenClError {
    /// An error carrying a driver status code.
    pub fn new(human_error: String, error_code: i32) -> (r: OpenClError)
        ensures
            r.human_error == human_error,
            r.error_code == Some(error_code),
    {
        OpenClError { human_error, error_code: Some(error_code) }
    }

    /// An error with a message only, for failures detected before any
    /// driver call was made.
    pub fn from_string(human_error: String) -> (r: OpenClError)
        ensures
            r.human_error == human_error,
            r.error_code is None,
    {
        OpenClError { human_error, error_code: None }
    }
}

/// One execution device, reduced to what the cache reads of it: the
/// driver's raw handle value, the device name, and the identity of the
/// platform it belongs to.  Devices compare equal exactly when their
/// raw ids are equal; names play no part in equality.
#[derive(Debug)]
pub struct Device {
    pub id: u64,
    pub name: String,
    pub platform_name: String,
    pub platform_version: String,
}

impl Device {
    /// The raw driver handle value this device stands for.
    pub fn get_id(&self) -> (r: u64)
        ensures
            r == self.id,
    {
        self.id
    }

    /// The driver-reported device name.
    pub fn get_name(&self) -> (r: &String)
        ensures
            r@ == self.name@,
    {
        &self.name
    }
}

impl Clone for Device {
    fn clone(&self) -> (r: Self)
        ensures
            r == *self,
    {
        Device {
            id: self.id,
            name: self.name.clone(),
            platform_name: self.platform_name.clone(),
            platform_version: self.platform_version.clone(),
        }
    }
}

impl PartialEq for Device {
    fn eq(&self, other: &Self) -> (r: bool)
        ensures
            r == (self.id == other.id),
    {
        self.id == other.id
    }
}

impl vstd::std_specs::cmp::PartialEqSpecImpl for Device {
    open spec fn obeys_eq_spec() -> bool {
        true
    }

    open spec fn eq_spec(&self, other: &Self) -> bool {
        self.id == other.id
    }
}

impl Eq for Device {}

/// A driver context, reduced to its raw handle value.  The engine never
/// reads anything of a context; it only routes the value back out so the
/// embedding program knows which context to compile or load against.
pub struct Context {
    pub raw: u64,
}

impl Context {
    /// Wraps a raw driver context handle value.
    pub fn from_id(raw: u64) -> (r: Context)
        ensures
            r.raw == raw,
    {
        Context { raw }
    }

    /// The raw driver handle value.
    pub fn get_id(&self) -> (r: u64)
        ensures
            r == self.raw,
    {
        self.raw
    }
}

impl Clone for Context {
    fn clone(&self) -> (r: Self)
        ensures
            r == *self,
    {
        Context { raw: self.raw }
    }
}

/// A platform, reduced to what the cache reads of it: the raw handle
/// value, the platform name, and the driver version string.
pub struct Platform {
    pub id: u64,
    pub name: String,
    pub version: String,
}

impl Platform {
    /// Wraps the values queried from a raw platform handle.
    pub fn from_platform_id(id: u64, name: String, version: String) -> (r: Platform)
        ensures
            r.id == id,
            r.name == name,
            r.version == version,
    {
        Platform { id, name, version }
    }

    /// The raw driver handle value.
    pub fn get_id(&self) -> (r: u64)
        ensures
            r == self.id,
    {
        self.id
    }

    /// The platform name.
    pub fn name(&self) -> (r: &String)
        ensures
            r@ == self.name@,
    {
        &self.name
    }

    /// The platform version string.
    pub fn version(&self) -> (r: &String)
        ensures
            r@ == self.version@,
    {
        &self.version
    }
}

impl Clone for Platform {
    fn clone(&self) -> (r: Self)
        ensures
            r == *self,
    {
        Platform { id: self.id, name: self.name.clone(), version: self.version.clone() }
    }
}

/// A fresh vector holding the same devices.
pub fn clone_devices(v: &Vec<Device>) -> (r: Vec<Device>)
    ensures
        r@ == v@,
{
    let mut r: Vec<Device> = Vec::new();
    let n: usize = v.len();
    let mut i: usize = 0;
    while i < n
        invariant
            n == v@.len(),
            i <= n,
            r@ == v@.take(i as int),
        decreases n - i,
    {
        r.push(v[i].clone());
        assert(v@.take(i as int + 1) == v@.take(i as int).push(v@[i as int]));
        i = i + 1;
    }
    assert(v@.take(n as int) == v@);
    r
}

// ---------------------------------------------------------------------
// Selecting platforms and devices
// ---------------------------------------------------------------------

/// The driver's device-class bits, as the C API fixes them.
pub const CL_DEVICE_TYPE_CPU: u64 = 2;

pub const CL_DEVICE_TYPE_GPU: u64 = 4;

pub const CL_DEVICE_TYPE_ACCELERATOR: u64 = 8;

pub const CL_DEVICE_TYPE_ALL: u64 = 0xFFFFFFFF;

/// A coarse device class a caller can ask for.
#[derive(Copy, Clone, Debug)]
pub enum DeviceType {
    CPU,
    GPU,
    All,
}

impl DeviceType {
    /// The driver bitmask this class stands for; a GPU query includes
    /// accelerators.
    pub fn convert_device_type(&self) -> (r: u64)
        ensures
            *self is CPU ==> r == CL_DEVICE_TYPE_CPU,
            *self is GPU ==> r == (CL_DEVICE_TYPE_GPU | CL_DEVICE_TYPE_ACCELERATOR),
            *self is All ==> r == CL_DEVICE_TYPE_ALL,
    {
        match *self {
            DeviceType::CPU => CL_DEVICE_TYPE_CPU,
            DeviceType::GPU => CL_DEVICE_TYPE_GPU | CL_DEVICE_TYPE_ACCELERATOR,
            DeviceType::All => CL_DEVICE_TYPE_ALL,
        }
    }
}

/// How a caller picks devices on a platform: one by position, a class
/// by the driver's bitmask, or those whose names match a pattern.
#[derive(Debug)]
pub enum DeviceQuery {
    Index(usize),
    Type(DeviceType),
    Regexp(String),
}

/// How a caller picks a platform: the first one, one by position, or
/// the first one once any platform name matches a pattern.
#[derive(Debug)]
pub enum PlatformQuery {
    Default,
    Index(usize),
    Regexp(String),
}

/// Whether the regular expression `pattern` matches somewhere in
/// `text`, named but not written out: the call below returns it.
pub uninterp spec fn regex_match(pattern: Seq<char>, text: Seq<char>) -> bool;

/// Relies on the regex crate: `Regex::new` compiles the pattern and
/// `is_match` answers whether it matches anywhere in the text, a
/// function of the two strings alone.  A pattern the crate refuses
/// matches nothing.
#[verifier::external_body]
fn regex_matches(pattern: &str, text: &str) -> (r: bool)
    ensures
        r == regex_match(pattern@, text@),
{
    match regex::Regex::new(pattern) {
        Ok(re) => re.is_match(text),
        Err(_) => false,
    }
}

/// The devices of `all` whose names match `pattern`, in their order.
pub open spec fn matching_devices(all: Seq<Device>, pattern: Seq<char>) -> Seq<Device>
    decreases all.len(),
{
    if all.len() == 0 {
        Seq::empty()
    } else {
        let rest = matching_devices(all.drop_last(), pattern);
        if regex_match(pattern, all.last().name@) {
            rest.push(all.last())
        } else {
            rest
        }
    }
}

/// Selects devices from an enumerated list as the query asks: one by
/// position, or those whose names match.  A class query is answered by
/// the driver's own enumeration under the class bitmask (see
/// [`DeviceType::convert_device_type`]): the list handed in is then
/// already the answer and comes back as it came.
pub fn get_devices_query(all_devices: &Vec<Device>, query: &DeviceQuery) -> (r: Vec<Device>)
    requires
        query matches DeviceQuery::Index(i) ==> i < all_devices@.len(),
    ensures
        query matches DeviceQuery::Index(i) ==> r@ == seq![all_devices@[i as int]],
        query matches DeviceQuery::Regexp(p) ==> r@ == matching_devices(all_devices@, p@),
        query is Type ==> r@ == all_devices@,
{
    match query {
        DeviceQuery::Index(i) => {
            let mut out: Vec<Device> = Vec::new();
            out.push(all_devices[*i].clone());
            proof {
                assert(out@ =~= seq![all_devices@[*i as int]]);
            }
            out
        },
        DeviceQuery::Regexp(pattern) => {
            let mut out: Vec<Device> = Vec::new();
            let n: usize = all_devices.len();
            let mut i: usize = 0;
            while i < n
                invariant
                    n == all_devices@.len(),
                    i <= n,
                    out@ == matching_devices(all_devices@.take(i as int), pattern@),
                decreases n - i,
            {
                if regex_matches(pattern.as_str(), all_devices[i].name.as_str()) {
                    out.push(all_devices[i].clone());
                }
                proof {
                    assert(all_devices@.take(i as int + 1).drop_last() == all_devices@.take(
                        i as int,
                    ));
                    assert(all_devices@.take(i as int + 1).last() == all_devices@[i as int]);
                }
                i = i + 1;
            }
            proof {
                assert(all_devices@.take(n as int) == all_devices@);
            }
            out
        },
        DeviceQuery::Type(_) => clone_devices(all_devices),
    }
}

/// The root of platform discovery.
pub struct ClRoot;

impl ClRoot {
    /// Picks a platform from the enumerated list.  `Default` is the
    /// first.  An index query expects the position to exist once any
    /// platform does.  A pattern query answers the first platform whose
    /// own name matches, and nothing when none does.
    pub fn get_platform(platforms: &Vec<Platform>, pq: &PlatformQuery) -> (r: Option<Platform>)
        requires
            pq matches PlatformQuery::Index(i) ==> (platforms@.len() > 0 ==> i
                < platforms@.len()),
        ensures
            platforms@.len() == 0 ==> r is None,
            pq is Default && platforms@.len() > 0 ==> r == Some(platforms@[0]),
            pq matches PlatformQuery::Index(i) ==> (platforms@.len() > 0 ==> r == Some(
                platforms@[i as int],
            )),
            pq matches PlatformQuery::Regexp(p) ==> ((r is Some) <==> exists|k: int|
                0 <= k < platforms@.len() && regex_match(p@, (#[trigger] platforms@[k]).name@)),
            pq matches PlatformQuery::Regexp(p) ==> (r matches Some(pl) ==> exists|k: int|
                0 <= k < platforms@.len() && pl == platforms@[k] && regex_match(
                    p@,
                    (#[trigger] platforms@[k]).name@,
                ) && (forall|j: int|
                    0 <= j < k ==> !regex_match(p@, (#[trigger] platforms@[j]).name@))),
    {
        match pq {
            PlatformQuery::Default => {
                if platforms.len() > 0 {
                    Some(platforms[0].clone())
                } else {
                    None
                }
            },
            PlatformQuery::Index(i) => {
                if platforms.len() > 0 {
                    Some(platforms[*i].clone())
                } else {
                    None
                }
            },
            PlatformQuery::Regexp(pattern) => {
                let n: usize = platforms.len();
                let mut k: usize = 0;
                while k < n
                    invariant
                        (*pq) matches PlatformQuery::Regexp(pp) && pp@ == pattern@,
                        n == platforms@.len(),
                        k <= n,
                        forall|p: int|
                            0 <= p < k ==> !regex_match(
                                pattern@,
                                (#[trigger] platforms@[p]).name@,
                            ),
                    decreases n - k,
                {
                    if regex_matches(pattern.as_str(), platforms[k].name.as_str()) {
                        return Some(platforms[k].clone());
                    }
                    k = k + 1;
                }
                None
            },
        }
    }
}

// ---------------------------------------------------------------------
// Work-size descriptors
// ---------------------------------------------------------------------

/// A one-dimensional work size: a global extent, an optional local
/// tile, and an optional offset.  The embedding program passes each to
/// the driver's range call as a pointer, null where absent.
pub struct WorkSize1D {
    pub global: [usize; 1],
    pub local: Option<[usize; 1]>,
    pub offset: Option<[usize; 1]>,
}

impl WorkSize1D {
    /// A work size with the given global extent and nothing else.
    pub fn new(global: usize) -> (r: WorkSize1D)
        ensures
            r.global@[0] == global,
            r.local is None,
            r.offset is None,
    {
        WorkSize1D { global: [global], local: None, offset: None }
    }

    /// The same work size with this offset.
    pub fn offset(self, offset: usize) -> (r: WorkSize1D)
        ensures
            r.global == self.global,
            r.local == self.local,
            r.offset matches Some(o) && o@[0] == offset,
    {
        WorkSize1D { offset: Some([offset]), ..self }
    }

    /// The same work size with this local tile.
    pub fn local(self, local: usize) -> (r: WorkSize1D)
        ensures
            r.global == self.global,
            r.offset == self.offset,
            r.local matches Some(l) && l@[0] == local,
    {
        WorkSize1D { local: Some([local]), ..self }
    }

    /// The dimensionality of this work size.
    pub fn get_dim(&self) -> (r: usize)
        ensures
            r == 1,
    {
        1
    }
}

/// A two-dimensional work size.
pub struct WorkSize2D {
    pub global: [usize; 2],
    pub local: Option<[usize; 2]>,
    pub offset: Option<[usize; 2]>,
}

impl WorkSize2D {
    /// A work size with the given global extents and nothing else.
    pub fn new(global_x: usize, global_y: usize) -> (r: WorkSize2D)
        ensures
            r.global@[0] == global_x,
            r.global@[1] == global_y,
            r.local is None,
            r.offset is None,
    {
        WorkSize2D { global: [global_x, global_y], local: None, offset: None }
    }

    /// The same work size with this offset.
    pub fn offset(self, offset_x: usize, offset_y: usize) -> (r: WorkSize2D)
        ensures
            r.global == self.global,
            r.local == self.local,
            r.offset matches Some(o) && o@[0] == offset_x && o@[1] == offset_y,
    {
        WorkSize2D { offset: Some([offset_x, offset_y]), ..self }
    }

    /// The same work size with this local tile.
    pub fn local(self, local_x: usize, local_y: usize) -> (r: WorkSize2D)
        ensures
            r.global == self.global,
            r.offset == self.offset,
            r.local matches Some(l) && l@[0] == local_x && l@[1] == local_y,
    {
        WorkSize2D { local: Some([local_x, local_y]), ..self }
    }

    /// The dimensionality of this work size.
    pub fn get_dim(&self) -> (r: usize)
        ensures
            r == 2,
    {
        2
    }
}

/// A three-dimensional work size.
pub struct WorkSize3D {
    pub global: [usize; 3],
    pub local: Option<[usize; 3]>,
    pub offset: Option<[usize; 3]>,
}

impl WorkSize3D {
    /// A work size with the given global extents and nothing else.
    pub fn new(global_x: usize, global_y: usize, global_z: usize) -> (r: WorkSize3D)
        ensures
            r.global@[0] == global_x,
            r.global@[1] == global_y,
            r.global@[2] == global_z,
            r.local is None,
            r.offset is None,
    {
        WorkSize3D { global: [global_x, global_y, global_z], local: None, offset: None }
    }

    /// The same work size with this offset.
    pub fn offset(self, offset_x: usize, offset_y: usize, offset_z: usize) -> (r: WorkSize3D)
        ensures
            r.global == self.global,
            r.local == self.local,
            r.offset matches Some(o) && o@[0] == offset_x && o@[1] == offset_y && o@[2]
                == offset_z,
    {
        WorkSize3D { offset: Some([offset_x, offset_y, offset_z]), ..self }
    }

    /// The same work size with this local tile.
    pub fn local(self, local_x: usize, local_y: usize, local_z: usize) -> (r: WorkSize3D)
        ensures
            r.global == self.global,
            r.offset == self.offset,
            r.local matches Some(l) && l@[0] == local_x && l@[1] == local_y && l@[2] == local_z,
    {
        WorkSize3D { local: Some([local_x, local_y, local_z]), ..self }
    }

    /// The dimensionality of this work size.
    pub fn get_dim(&self) -> (r: usize)
        ensures
            r == 3,
    {
        3
    }
}

/// The checks a program loaded from binaries makes before any driver
/// call: loading needs at least one device, and every binary must have
/// some size.  The embedding program runs this over a plan's binaries
/// first and surfaces the error unchanged; only a list that passes goes
/// to the driver.
pub fn check_program_binaries(devices: &Vec<Device>, binaries: &Vec<Vec<u8>>) -> (r: Result<
    (),
    OpenClError,
>)
    ensures
        r is Ok <==> (devices@.len() > 0 && forall|i: int|
            0 <= i < binaries@.len() ==> (#[trigger] binaries@[i])@.len() > 0),
        devices@.len() == 0 ==> (r matches Err(e) && e.error_code is None && e.human_error@
            == "Can't create program without devices"@),
        devices@.len() > 0 && (r is Err) ==> (r matches Err(e) && e.error_code is None
            && e.human_error@ == "Binaries need to have some size"@),
{
    if devices.len() == 0 {
        return Err(OpenClError::from_string("Can't create program without devices".to_owned()));
    }
    let n: usize = binaries.len();
    let mut i: usize = 0;
    while i < n
        invariant
            devices@.len() > 0,
            n == binaries@.len(),
            i <= n,
            forall|p: int| 0 <= p < i ==> (#[trigger] binaries@[p])@.len() > 0,
        decreases n - i,
    {
        if binaries[i].len() == 0 {
            return Err(OpenClError::from_string("Binaries need to have some size".to_owned()));
        }
        i = i + 1;
    }
    Ok(())
}

} // verus!
