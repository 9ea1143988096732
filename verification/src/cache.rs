//! The cache proper: content-addressed keys, the byte store behind the
//! engine, and the engine that compiles-or-loads per device.

use vstd::prelude::*;
use vstd::string::StringExecFns;
use crate::cl::{clone_devices, Context, Device, OpenClError};
use crypto::digest::Digest;
use crypto::sha2::Sha256;

pub mod disk;
pub mod volatile;

verus! {

/// What the cache engine can fail with.
#[derive(Debug)]
pub enum CacheError {
    /// The driver failed to build the source, or reported success and
    /// produced an empty binary; carries the per-device build logs.
    ClBuildError(Vec<(Device, String)>),
    /// Any other driver-side failure.
    ClError(OpenClError),
    /// A tag lookup found no binary for at least one of the requested
    /// devices; carries the requested device list.
    NotAllBinariesLoaded(Vec<Device>),
    /// A tag store was attempted on a program that has no binary yet for
    /// the carried device.
    NeedBinaryProgram(Device),
    /// The backend refused a write.
    CacheError,
    /// The backend failed on the byte level.
    IoError,
}

/// Why a backend could not serve a key.
#[derive(Debug)]
pub enum KeyError {
    /// The store could not be read or written.
    IoError,
    /// No entry exists under the key.
    KeyNotFound,
    /// An entry exists but its content is unusable.
    InvalidContent,
}

/// A key-to-bytes store behind the cache engine.
///
/// The contracts describe an ideal store, as the in-memory backend
/// provides it: a lookup succeeds exactly on stored keys and returns the
/// stored bytes, and a successful write stores exactly the given pair.
/// A store built over fallible media may fail a write; the engine
/// surfaces that as a hard error and promises nothing about such runs.
pub trait CacheBackend: Sized {
    /// The stored entries.  An implementation that does not say what it
    /// holds is taken to hold nothing.
    open spec fn view(&self) -> Map<Seq<char>, Seq<u8>> {
        Map::empty()
    }

    /// Reads the bytes stored under `key`.
    fn get(&self, key: &String) -> (r: Result<Vec<u8>, KeyError>)
        ensures
            r is Ok <==> self.view().contains_key(key@),
            r matches Ok(bytes) ==> bytes@ == self.view()[key@],
    ;

    /// Stores `payload` under `key`, overwriting in place.
    fn put(&mut self, key: &String, payload: &Vec<u8>) -> (r: Result<(), KeyError>)
        ensures
            r is Ok ==> final(self).view() == old(self).view().insert(key@, payload@),
    ;
}

/// A fresh vector holding the same bytes.
pub fn copy_bytes(v: &Vec<u8>) -> (r: Vec<u8>)
    ensures
        r@ == v@,
{
    let mut r: Vec<u8> = Vec::new();
    let n: usize = v.len();
    let mut i: usize = 0;
    while i < n
        invariant
            n == v@.len(),
            i <= n,
            r@ == v@.take(i as int),
        decreases n - i,
    {
        r.push(v[i]);
        assert(v@.take(i as int + 1) == v@.take(i as int).push(v@[i as int]));
        i = i + 1;
    }
    assert(v@.take(n as int) == v@);
    r
}

// ---------------------------------------------------------------------
// Content-addressed keys
// ---------------------------------------------------------------------

/// The SHA-256 digest of a string's bytes, named but not written out:
/// nothing here recomputes it, the digest call below returns it.
pub uninterp spec fn sha256_of(s: Seq<char>) -> Seq<u8>;

/// Relies on rust-crypto's `Sha256`: `input_str` feeds the string's
/// UTF-8 bytes into a fresh digest, `result` writes the 32-byte SHA-256
/// digest, a function of the input characters alone.
#[verifier::external_body]
fn sha256_digest(s: &str) -> (r: Vec<u8>)
    ensures
        r@ == sha256_of(s@),
        r@.len() == 32,
{
    let mut digester = Sha256::new();
    digester.input_str(s);
    let mut out: Vec<u8> = vec![0u8; 32];
    digester.result(&mut out);
    out
}

/// Relies on std's `String::push`: appends the character to the string.
pub assume_specification[ String::push ](s: &mut String, c: char)
    ensures
        final(s)@ == old(s)@.push(c),
;

/// The lowercase hexadecimal digit for a value below sixteen.
pub open spec fn hex_digit(n: u8) -> char
    recommends
        n < 16,
{
    if n == 0 { '0' } else if n == 1 { '1' } else if n == 2 { '2' } else if n == 3 { '3' }
    else if n == 4 { '4' } else if n == 5 { '5' } else if n == 6 { '6' } else if n == 7 { '7' }
    else if n == 8 { '8' } else if n == 9 { '9' } else if n == 10 { 'a' } else if n == 11 { 'b' }
    else if n == 12 { 'c' } else if n == 13 { 'd' } else if n == 14 { 'e' } else { 'f' }
}

fn hex_digit_char(n: u8) -> (r: char)
    requires
        n < 16,
    ensures
        r == hex_digit(n),
{
    match n {
        0 => '0',
        1 => '1',
        2 => '2',
        3 => '3',
        4 => '4',
        5 => '5',
        6 => '6',
        7 => '7',
        8 => '8',
        9 => '9',
        10 => 'a',
        11 => 'b',
        12 => 'c',
        13 => 'd',
        14 => 'e',
        _ => 'f',
    }
}

/// The lowercase hexadecimal rendering of a byte sequence, two digits
/// per byte, high nibble first.
pub open spec fn hex_of(bytes: Seq<u8>) -> Seq<char>
    decreases bytes.len(),
{
    if bytes.len() == 0 {
        Seq::empty()
    } else {
        hex_of(bytes.drop_last()).push(hex_digit(bytes.last() / 16)).push(
            hex_digit(bytes.last() % 16),
        )
    }
}

/// Hex doubles the length.
pub proof fn lemma_hex_of_len(bytes: Seq<u8>)
    ensures
        hex_of(bytes).len() == 2 * bytes.len(),
    decreases bytes.len(),
{
    if bytes.len() > 0 {
        lemma_hex_of_len(bytes.drop_last());
    }
}

/// Renders bytes as lowercase hex.
fn to_hex(bytes: &Vec<u8>) -> (r: String)
    ensures
        r@ == hex_of(bytes@),
{
    let mut r = String::new();
    let n: usize = bytes.len();
    let mut i: usize = 0;
    while i < n
        invariant
            n == bytes@.len(),
            i <= n,
            r@ == hex_of(bytes@.take(i as int)),
        decreases n - i,
    {
        let b = bytes[i];
        r.push(hex_digit_char(b / 16));
        r.push(hex_digit_char(b % 16));
        proof {
            assert(bytes@.take(i as int + 1).drop_last() == bytes@.take(i as int));
            assert(bytes@.take(i as int + 1).last() == bytes@[i as int]);
        }
        i = i + 1;
    }
    proof {
        assert(bytes@.take(n as int) == bytes@);
    }
    r
}

/// The text hashed for a source entry: the source, the device name, the
/// platform name, the platform version, and the build options, in that
/// order and with nothing between them.
pub open spec fn key_preimage(source: Seq<char>, d: Device, options: Seq<char>) -> Seq<char> {
    source + d.name@ + d.platform_name@ + d.platform_version@ + options
}

/// The content address of a source entry: 64 lowercase hex characters.
pub open spec fn source_key(source: Seq<char>, d: Device, options: Seq<char>) -> Seq<char> {
    hex_of(sha256_of(key_preimage(source, d, options)))
}

/// The device fingerprint within a tag key: the digest of the device
/// name, platform name and platform version, as 64 hex characters.
pub open spec fn tag_fingerprint(d: Device) -> Seq<char> {
    hex_of(sha256_of(d.name@ + d.platform_name@ + d.platform_version@))
}

/// The key of a tag entry: the tag verbatim — kept greppable on disk —
/// followed by the device fingerprint.
pub open spec fn tag_key(tag: Seq<char>, d: Device) -> Seq<char> {
    tag + tag_fingerprint(d)
}

/// Derives content addresses for cache entries.  The digest state is
/// fresh for every call, so each key depends on the call's arguments
/// alone.
pub struct DefaultHasher {}

impl DefaultHasher {
    /// A hasher with a fresh digest.
    pub fn new() -> DefaultHasher {
        DefaultHasher {}
    }

    /// The key of the source entry for `source` built with `options` on
    /// `device`.
    pub fn get_key(&mut self, device: &Device, source: &String, options: &String) -> (r: Result<
        String,
        CacheError,
    >)
        ensures
            r matches Ok(k) ==> k@ == source_key(source@, *device, options@),
            r matches Ok(k) ==> k@.len() == 64,
            r is Ok,
    {
        let mut content = String::new();
        content.append(source.as_str());
        content.append(device.name.as_str());
        content.append(device.platform_name.as_str());
        content.append(device.platform_version.as_str());
        content.append(options.as_str());
        proof {
            assert(content@ == key_preimage(source@, *device, options@));
        }
        let digest = sha256_digest(content.as_str());
        proof {
            lemma_hex_of_len(digest@);
        }
        Ok(to_hex(&digest))
    }

    /// The key of the tag entry for `tag` on `device`.
    pub fn get_tag_key(&mut self, device: &Device, tag: &str) -> (r: Result<String, CacheError>)
        ensures
            r matches Ok(k) ==> k@ == tag_key(tag@, *device),
            r matches Ok(k) ==> k@.len() == tag@.len() + 64,
            r is Ok,
    {
        let mut content = String::new();
        content.append(device.name.as_str());
        content.append(device.platform_name.as_str());
        content.append(device.platform_version.as_str());
        let digest = sha256_digest(content.as_str());
        proof {
            lemma_hex_of_len(digest@);
        }
        let fingerprint = to_hex(&digest);
        let mut key = String::new();
        key.append(tag);
        key.append(fingerprint.as_str());
        Ok(key)
    }
}

// ---------------------------------------------------------------------
// What the key derivation guarantees
// ---------------------------------------------------------------------

/// The key reads nothing of a device but its name and its platform's
/// name and version: two devices that agree on those — whatever their
/// raw handles — get the same key for the same source and options.
/// In particular the key of given arguments is one fixed value.
pub proof fn lemma_key_deterministic(d1: Device, d2: Device, source: Seq<char>, options: Seq<char>)
    requires
        d1.name@ == d2.name@,
        d1.platform_name@ == d2.platform_name@,
        d1.platform_version@ == d2.platform_version@,
    ensures
        source_key(source, d1, options) == source_key(source, d2, options),
{
}

/// Devices of one platform with different names hash different texts
/// for the same source and options.  (That the digests themselves then
/// differ is the collision-freedom of SHA-256, which no proof here can
/// supply; the tests check it on concrete values.)
pub proof fn lemma_device_separation(source: Seq<char>, d1: Device, d2: Device, options: Seq<char>)
    requires
        d1.name@ != d2.name@,
        d1.platform_name@ == d2.platform_name@,
        d1.platform_version@ == d2.platform_version@,
    ensures
        key_preimage(source, d1, options) != key_preimage(source, d2, options),
{
    let p1 = key_preimage(source, d1, options);
    let p2 = key_preimage(source, d2, options);
    let n1 = d1.name@;
    let n2 = d2.name@;
    if p1 == p2 {
        if n1.len() == n2.len() {
            assert forall|k: int| 0 <= k < n1.len() implies n1[k] == n2[k] by {
                assert(p1[source.len() + k] == n1[k]);
                assert(p2[source.len() + k] == n2[k]);
            }
            assert(n1 =~= n2);
        } else {
            assert(p1.len() != p2.len());
        }
        assert(false);
    }
}

// ---------------------------------------------------------------------
// The engine
// ---------------------------------------------------------------------

/// An instruction to the embedding program: construct a driver program
/// from these per-device binaries against this context, then build it
/// once more to finalise it.  `binaries[i]` belongs to `devices[i]`, in
/// the order the caller gave.
pub struct ProgramPlan {
    pub context: Context,
    pub devices: Vec<Device>,
    pub binaries: Vec<Vec<u8>>,
}

/// A pending compile.  The probe found the positions `miss_indices` of
/// `devices` unserved by the store; the embedding program compiles
/// `source` with `options` against `context` for exactly those devices,
/// queries their build logs, and hands everything to
/// [`Cache::finish_compile`].
pub struct CompileRequest {
    pub context: Context,
    pub source: String,
    pub options: String,
    pub devices: Vec<Device>,
    pub keys: Vec<String>,
    pub cached: Vec<Option<Vec<u8>>>,
    pub miss_indices: Vec<usize>,
}

impl CompileRequest {
    /// The shape every probe result has: one key and one probe outcome
    /// per device, and `miss_indices` listing exactly the unserved
    /// positions, in increasing order.
    pub open spec fn wf(self) -> bool {
        &&& self.keys@.len() == self.devices@.len()
        &&& self.cached@.len() == self.devices@.len()
        &&& forall|j: int|
            0 <= j < self.miss_indices@.len() ==> (#[trigger] self.miss_indices@[j]) < self.devices@.len()
                && self.cached@[self.miss_indices@[j] as int] is None
        &&& forall|j1: int, j2: int|
            0 <= j1 < j2 < self.miss_indices@.len() ==> self.miss_indices@[j1] < self.miss_indices@[j2]
        &&& forall|i: int|
            0 <= i < self.cached@.len() && self.cached@[i] is None ==> self.miss_indices@.contains(
                i as usize,
            )
    }

    /// The keys of the unserved positions, in order.
    pub open spec fn miss_keys(self) -> Seq<Seq<char>> {
        self.miss_indices@.map_values(|mi: usize| self.keys@[mi as int]@)
    }

    /// The devices of the unserved positions, in order.
    pub open spec fn miss_device_seq(self) -> Seq<Device> {
        self.miss_indices@.map_values(|mi: usize| self.devices@[mi as int])
    }

    /// The request records a probe of the store `m` for `source` built
    /// with `options` on `devices`: the keys are the source keys, and an
    /// entry is cached here if and only if the store holds its key, with
    /// the stored bytes.
    pub open spec fn reflects(
        self,
        m: Map<Seq<char>, Seq<u8>>,
        source: Seq<char>,
        options: Seq<char>,
        devices: Seq<Device>,
    ) -> bool {
        &&& self.source@ == source
        &&& self.options@ == options
        &&& self.devices@ == devices
        &&& forall|i: int|
            0 <= i < devices.len() ==> (#[trigger] self.keys@[i])@ == source_key(
                source,
                devices[i],
                options,
            )
        &&& forall|i: int|
            0 <= i < devices.len() ==> ((#[trigger] self.cached@[i]) is Some <==> m.contains_key(
                source_key(source, devices[i], options),
            ))
        &&& forall|i: int|
            0 <= i < devices.len() ==> ((#[trigger] self.cached@[i]) matches Some(b) ==> b@
                == m[source_key(source, devices[i], options)])
    }

    /// The devices the embedding program must compile for, in input
    /// order.
    pub fn miss_devices(&self) -> (r: Vec<Device>)
        requires
            self.wf(),
        ensures
            r@ == self.miss_device_seq(),
    {
        let mut r: Vec<Device> = Vec::new();
        let n: usize = self.miss_indices.len();
        let mut j: usize = 0;
        while j < n
            invariant
                self.wf(),
                n == self.miss_indices@.len(),
                j <= n,
                r@ == self.miss_device_seq().take(j as int),
            decreases n - j,
        {
            let mi = self.miss_indices[j];
            r.push(self.devices[mi].clone());
            proof {
                assert(self.miss_device_seq().take(j as int + 1) == self.miss_device_seq().take(
                    j as int,
                ).push(self.miss_device_seq()[j as int]));
            }
            j = j + 1;
        }
        proof {
            assert(self.miss_device_seq().take(n as int) == self.miss_device_seq());
        }
        r
    }
}

/// What came back from the driver for a pending compile: whether the
/// build call succeeded, the per-device binaries extracted afterwards
/// (empty when it did not), and the per-device build logs, `None` where
/// the log query itself failed.  Position `j` of each vector belongs to
/// the device at `miss_indices[j]` of the request.
pub struct CompileOutcome {
    pub build_ok: bool,
    pub binaries: Vec<Vec<u8>>,
    pub logs: Vec<Option<String>>,
}

/// What a probe of the store concludes.
pub enum GetOutcome {
    /// Every device was served from the store: load this plan.
    Ready(ProgramPlan),
    /// At least one device missed: compile, then finish.
    NeedCompile(CompileRequest),
}

/// Every source key for `(source, options)` on `devices` is present in
/// the store: a probe would hit on every device.
pub open spec fn warm(
    m: Map<Seq<char>, Seq<u8>>,
    source: Seq<char>,
    options: Seq<char>,
    devices: Seq<Device>,
) -> bool {
    forall|i: int|
        0 <= i < devices.len() ==> m.contains_key(#[trigger] source_key(source, devices[i], options))
}

/// Every tag key for `tag` on `devices` is present in the store.
pub open spec fn tag_warm(m: Map<Seq<char>, Seq<u8>>, tag: Seq<char>, devices: Seq<Device>) -> bool {
    forall|i: int| 0 <= i < devices.len() ==> m.contains_key(#[trigger] tag_key(tag, devices[i]))
}

/// The store after writing `vals[j]` under `keys[j]`, in order.
pub open spec fn stored_after(
    m: Map<Seq<char>, Seq<u8>>,
    keys: Seq<Seq<char>>,
    vals: Seq<Seq<u8>>,
) -> Map<Seq<char>, Seq<u8>>
    recommends
        keys.len() == vals.len(),
    decreases keys.len(),
{
    if keys.len() == 0 {
        m
    } else {
        stored_after(m, keys.drop_last(), vals.drop_last()).insert(keys.last(), vals.last())
    }
}

/// Writing never removes: whatever the store held it still holds.
pub proof fn lemma_stored_after_monotone(
    m: Map<Seq<char>, Seq<u8>>,
    keys: Seq<Seq<char>>,
    vals: Seq<Seq<u8>>,
    k: Seq<char>,
)
    requires
        m.contains_key(k),
    ensures
        stored_after(m, keys, vals).contains_key(k),
    decreases keys.len(),
{
    if keys.len() > 0 {
        lemma_stored_after_monotone(m, keys.drop_last(), vals.drop_last(), k);
    }
}

/// Every written key is present afterwards.
pub proof fn lemma_stored_after_contains(
    m: Map<Seq<char>, Seq<u8>>,
    keys: Seq<Seq<char>>,
    vals: Seq<Seq<u8>>,
    j: int,
)
    requires
        keys.len() == vals.len(),
        0 <= j < keys.len(),
    ensures
        stored_after(m, keys, vals).contains_key(keys[j]),
    decreases keys.len(),
{
    if j < keys.len() - 1 {
        lemma_stored_after_contains(m, keys.drop_last(), vals.drop_last(), j);
    }
}

/// When the written keys are pairwise distinct, each one ends up holding
/// exactly its written value.
pub proof fn lemma_stored_after_distinct(
    m: Map<Seq<char>, Seq<u8>>,
    keys: Seq<Seq<char>>,
    vals: Seq<Seq<u8>>,
    j: int,
)
    requires
        keys.len() == vals.len(),
        0 <= j < keys.len(),
        forall|p: int, q: int| 0 <= p < q < keys.len() ==> keys[p] != keys[q],
    ensures
        stored_after(m, keys, vals)[keys[j]] == vals[j],
    decreases keys.len(),
{
    lemma_stored_after_contains(m, keys, vals, j);
    if j < keys.len() - 1 {
        assert(keys.last() != keys[j]);
        lemma_stored_after_distinct(m, keys.drop_last(), vals.drop_last(), j);
    }
}

/// The per-device log map assembled from the log queries that came back:
/// one pair per device whose log could be read.
pub open spec fn build_log_map(devices: Seq<Device>, logs: Seq<Option<String>>) -> Seq<
    (Device, String),
>
    recommends
        devices.len() == logs.len(),
    decreases devices.len(),
{
    if devices.len() == 0 {
        Seq::empty()
    } else {
        let rest = build_log_map(devices.drop_last(), logs.drop_last());
        match logs.last() {
            Some(l) => rest.push((devices.last(), l)),
            None => rest,
        }
    }
}

/// Pairs each device with its build log, skipping devices whose log
/// query failed.
pub fn get_build_logs(devices: &Vec<Device>, logs: &Vec<Option<String>>) -> (r: Vec<
    (Device, String),
>)
    requires
        devices@.len() == logs@.len(),
    ensures
        r@ == build_log_map(devices@, logs@),
{
    let mut r: Vec<(Device, String)> = Vec::new();
    let n: usize = devices.len();
    let mut i: usize = 0;
    while i < n
        invariant
            n == devices@.len(),
            n == logs@.len(),
            i <= n,
            r@ == build_log_map(devices@.take(i as int), logs@.take(i as int)),
        decreases n - i,
    {
        match &logs[i] {
            Some(l) => {
                r.push((devices[i].clone(), l.clone()));
            },
            None => {},
        }
        proof {
            assert(devices@.take(i as int + 1).drop_last() == devices@.take(i as int));
            assert(logs@.take(i as int + 1).drop_last() == logs@.take(i as int));
            assert(devices@.take(i as int + 1).last() == devices@[i as int]);
            assert(logs@.take(i as int + 1).last() == logs@[i as int]);
        }
        i = i + 1;
    }
    proof {
        assert(devices@.take(n as int) == devices@);
        assert(logs@.take(n as int) == logs@);
    }
    r
}

/// What a probe promises.  On `Ready` the store was warm and the plan
/// carries the stored bytes for every device, in input order; on
/// `NeedCompile` at least one device missed and the request records the
/// whole probe.
pub open spec fn get_post(
    r: Result<GetOutcome, CacheError>,
    m: Map<Seq<char>, Seq<u8>>,
    source: Seq<char>,
    options: Seq<char>,
    devices: Seq<Device>,
    ctx: Context,
) -> bool {
    &&& r is Ok
    &&& (r matches Ok(GetOutcome::Ready(plan)) ==> {
        &&& warm(m, source, options, devices)
        &&& plan.context == ctx
        &&& plan.devices@ == devices
        &&& plan.binaries@.len() == devices.len()
        &&& forall|i: int|
            0 <= i < devices.len() ==> (#[trigger] plan.binaries@[i])@ == m[source_key(
                source,
                devices[i],
                options,
            )]
    })
    &&& (r matches Ok(GetOutcome::NeedCompile(req)) ==> {
        &&& !warm(m, source, options, devices)
        &&& req.wf()
        &&& req.context == ctx
        &&& req.miss_indices@.len() > 0
        &&& req.reflects(m, source, options, devices)
    })
}

/// What finishing a compile promises.  On success the store gained
/// exactly the miss keys with the fresh binaries, and the plan carries,
/// in input order, the cached bytes for the original hits and the fresh
/// bytes for the misses.  A failed build, or a build that produced an
/// empty binary, is surfaced with the per-device logs and writes
/// nothing.  A refused write is surfaced as the generic cache error.
/// With no missed device there is nothing to build or store, and the
/// plan is owed outright.
pub open spec fn finish_post(
    r: Result<ProgramPlan, CacheError>,
    m0: Map<Seq<char>, Seq<u8>>,
    m1: Map<Seq<char>, Seq<u8>>,
    req: CompileRequest,
    out: CompileOutcome,
) -> bool {
    &&& (r matches Ok(plan) ==> {
        &&& (req.miss_indices@.len() > 0 ==> out.build_ok)
        &&& forall|j: int| 0 <= j < out.binaries@.len() ==> (#[trigger] out.binaries@[j])@.len() > 0
        &&& m1 == stored_after(m0, req.miss_keys(), out.binaries@.map_values(|b: Vec<u8>| b@))
        &&& plan.context == req.context
        &&& plan.devices@ == req.devices@
        &&& plan.binaries@.len() == req.devices@.len()
        &&& forall|i: int|
            0 <= i < req.devices@.len() ==> ((#[trigger] req.cached@[i]) matches Some(b)
                ==> plan.binaries@[i]@ == b@)
        &&& forall|j: int|
            0 <= j < req.miss_indices@.len() ==> plan.binaries@[req.miss_indices@[j] as int]@ == (
            #[trigger] out.binaries@[j])@
    })
    &&& (req.miss_indices@.len() == 0 ==> r is Ok)
    &&& (((!out.build_ok && req.miss_indices@.len() > 0) || exists|j: int|
        0 <= j < out.binaries@.len() && (#[trigger] out.binaries@[j])@.len() == 0) <==> (
    r matches Err(e) && e is ClBuildError))
    &&& (r matches Err(e) ==> e matches CacheError::ClBuildError(logs) ==> {
        &&& logs@ == build_log_map(req.miss_device_seq(), out.logs@)
        &&& m1 == m0
    })
    &&& (r matches Err(e) ==> e is ClBuildError || e is CacheError)
}

/// The tag keys of a device list, in order.
pub open spec fn tag_keys_of(tag: Seq<char>, devices: Seq<Device>) -> Seq<Seq<char>> {
    devices.map_values(|d: Device| tag_key(tag, d))
}

/// What storing under a tag promises.  When some binary is empty the
/// first such device is surfaced and nothing is written; otherwise, on
/// success, the store gained exactly the tag keys with the binaries.
pub open spec fn put_tag_post(
    r: Result<(), CacheError>,
    m0: Map<Seq<char>, Seq<u8>>,
    m1: Map<Seq<char>, Seq<u8>>,
    tag: Seq<char>,
    devices: Seq<Device>,
    binaries: Seq<Vec<u8>>,
) -> bool {
    &&& (r is Ok ==> {
        &&& forall|i: int| 0 <= i < binaries.len() ==> (#[trigger] binaries[i])@.len() > 0
        &&& m1 == stored_after(m0, tag_keys_of(tag, devices), binaries.map_values(|b: Vec<u8>| b@))
    })
    &&& ((r matches Err(e) && e is NeedBinaryProgram) <==> exists|i: int|
        0 <= i < binaries.len() && (#[trigger] binaries[i])@.len() == 0)
    &&& (r matches Err(e) ==> e matches CacheError::NeedBinaryProgram(d) ==> {
        &&& m1 == m0
        &&& exists|i: int|
            0 <= i < devices.len() && (#[trigger] binaries[i])@.len() == 0 && d == devices[i] && (
            forall|p: int| 0 <= p < i ==> binaries[p]@.len() > 0)
    })
    &&& (r matches Err(e) ==> e is NeedBinaryProgram || e is CacheError)
}

/// The cache: a backend holding the bytes, and the hasher deriving the
/// keys.  Its view is the backend's.
pub struct Cache<B: CacheBackend> {
    backend: B,
    key_hasher: DefaultHasher,
}

impl<B: CacheBackend> View for Cache<B> {
    type V = Map<Seq<char>, Seq<u8>>;

    closed spec fn view(&self) -> Map<Seq<char>, Seq<u8>> {
        self.backend.view()
    }
}

impl<B: CacheBackend> Cache<B> {
    /// A cache over the given backend, keyed by the default hasher.
    pub fn new(backend: B) -> (r: Cache<B>)
        ensures
            r@ == backend.view(),
    {
        Cache { backend, key_hasher: DefaultHasher::new() }
    }

    /// Probes the store for `source` compiled with empty options on each
    /// of `devices`; shorthand for [`Cache::get_with_options`].
    pub fn get(&mut self, source: &str, devices: &Vec<Device>, ctx: &Context) -> (r: Result<
        GetOutcome,
        CacheError,
    >)
        ensures
            final(self)@ == old(self)@,
            get_post(r, old(self)@, source@, ""@, devices@, *ctx),
    {
        self.get_with_options(source, devices, ctx, "")
    }

    /// Probes the store for `source` compiled with `options` on each of
    /// `devices`, in order.  Every device's key is probed; a store error
    /// counts as a miss.  When all hit, the result is a ready plan; when
    /// any misses, the result is the compile request for exactly the
    /// missed devices.  Nothing is written.
    pub fn get_with_options(
        &mut self,
        source: &str,
        devices: &Vec<Device>,
        ctx: &Context,
        options: &str,
    ) -> (r: Result<GetOutcome, CacheError>)
        ensures
            final(self)@ == old(self)@,
            get_post(r, old(self)@, source@, options@, devices@, *ctx),
    {
        let source_string = source.to_owned();
        let options_string = options.to_owned();
        let n: usize = devices.len();
        let mut keys: Vec<String> = Vec::new();
        let mut cached: Vec<Option<Vec<u8>>> = Vec::new();
        let mut miss_indices: Vec<usize> = Vec::new();
        let mut i: usize = 0;
        while i < n
            invariant
                self@ == old(self)@,
                source_string@ == source@,
                options_string@ == options@,
                n == devices@.len(),
                i <= n,
                keys@.len() == i,
                cached@.len() == i,
                forall|p: int|
                    0 <= p < i ==> (#[trigger] keys@[p])@ == source_key(
                        source@,
                        devices@[p],
                        options@,
                    ),
                forall|p: int|
                    0 <= p < i ==> ((#[trigger] cached@[p]) is Some <==> old(self)@.contains_key(
                        source_key(source@, devices@[p], options@),
                    )),
                forall|p: int|
                    0 <= p < i ==> ((#[trigger] cached@[p]) matches Some(b) ==> b@ == old(
                        self,
                    )@[source_key(source@, devices@[p], options@)]),
                forall|j: int|
                    0 <= j < miss_indices@.len() ==> (#[trigger] miss_indices@[j]) < i
                        && cached@[miss_indices@[j] as int] is None,
                forall|j1: int, j2: int|
                    0 <= j1 < j2 < miss_indices@.len() ==> miss_indices@[j1] < miss_indices@[j2],
                forall|p: int|
                    0 <= p < i && cached@[p] is None ==> miss_indices@.contains(p as usize),
            decreases n - i,
        {
            let key = match self.key_hasher.get_key(&devices[i], &source_string, &options_string) {
                Ok(k) => k,
                Err(e) => {
                    return Err(e);
                },
            };
            match self.backend.get(&key) {
                Ok(binary) => {
                    cached.push(Some(binary));
                },
                Err(_) => {
                    let ghost mi0 = miss_indices@;
                    cached.push(None);
                    miss_indices.push(i);
                    proof {
                        assert forall|p: int|
                            0 <= p < i as int + 1 && cached@[p] is None implies miss_indices@.contains(
                            p as usize,
                        ) by {
                            if p < i as int {
                                let j = choose|j: int| 0 <= j < mi0.len() && mi0[j] == p as usize;
                                assert(miss_indices@[j] == p as usize);
                            } else {
                                assert(miss_indices@[miss_indices@.len() - 1] == i as usize);
                            }
                        }
                    }
                },
            }
            keys.push(key);
            i = i + 1;
        }
        if miss_indices.len() == 0 {
            let mut binaries: Vec<Vec<u8>> = Vec::new();
            let mut p: usize = 0;
            while p < n
                invariant
                    n == devices@.len(),
                    n == cached@.len(),
                    p <= n,
                    binaries@.len() == p,
                    forall|q: int|
                        0 <= q < n ==> ((#[trigger] cached@[q]) is Some <==> old(
                            self,
                        )@.contains_key(source_key(source@, devices@[q], options@))),
                    forall|q: int|
                        0 <= q < n ==> ((#[trigger] cached@[q]) matches Some(b) ==> b@ == old(
                            self,
                        )@[source_key(source@, devices@[q], options@)]),
                    forall|q: int| 0 <= q < n ==> !((#[trigger] cached@[q]) is None),
                    forall|q: int|
                        0 <= q < p ==> (#[trigger] binaries@[q])@ == old(self)@[source_key(
                            source@,
                            devices@[q],
                            options@,
                        )],
                decreases n - p,
            {
                match &cached[p] {
                    Some(b) => {
                        binaries.push(copy_bytes(b));
                    },
                    None => {
                        let b = vstd::pervasive::unreached();
                        binaries.push(b);
                    },
                }
                p = p + 1;
            }
            proof {
                assert forall|q: int| 0 <= q < devices@.len() implies old(self)@.contains_key(
                    #[trigger] source_key(source@, devices@[q], options@),
                ) by {
                    assert(cached@[q] is Some);
                }
                assert(warm(old(self)@, source@, options@, devices@));
            }
            Ok(
                GetOutcome::Ready(
                    ProgramPlan {
                        context: ctx.clone(),
                        devices: clone_devices(devices),
                        binaries,
                    },
                ),
            )
        } else {
            proof {
                let mi0 = miss_indices@[0];
                assert(cached@[mi0 as int] is None);
                assert(!old(self)@.contains_key(
                    source_key(source@, devices@[mi0 as int], options@),
                ));
                assert(!warm(old(self)@, source@, options@, devices@));
            }
            Ok(
                GetOutcome::NeedCompile(
                    CompileRequest {
                        context: ctx.clone(),
                        source: source_string,
                        options: options_string,
                        devices: clone_devices(devices),
                        keys,
                        cached,
                        miss_indices,
                    },
                ),
            )
        }
    }

    /// Takes the driver's answer to a pending compile.  A failed build,
    /// or one that produced an empty binary — some drivers report
    /// success and hand back nothing — is surfaced with the per-device
    /// build logs, and nothing is written.  Otherwise every fresh binary
    /// is persisted under its key; only then is the full binary vector
    /// reassembled in the caller's device order and returned as a plan.
    /// A refused write is a hard error: what cannot be read back out is
    /// not returned either.
    pub fn finish_compile(&mut self, request: CompileRequest, outcome: CompileOutcome) -> (r:
        Result<ProgramPlan, CacheError>)
        requires
            request.wf(),
            outcome.binaries@.len() == request.miss_indices@.len(),
            outcome.logs@.len() == request.miss_indices@.len(),
        ensures
            finish_post(r, old(self)@, final(self)@, request, outcome),
    {
        let nmiss: usize = request.miss_indices.len();
        if nmiss > 0 && !outcome.build_ok {
            let miss_devices = request.miss_devices();
            let logs = get_build_logs(&miss_devices, &outcome.logs);
            return Err(CacheError::ClBuildError(logs));
        }
        let mut any_empty: bool = false;
        let mut j: usize = 0;
        while j < nmiss
            invariant
                nmiss == outcome.binaries@.len(),
                j <= nmiss,
                any_empty <==> exists|q: int|
                    0 <= q < j && (#[trigger] outcome.binaries@[q])@.len() == 0,
            decreases nmiss - j,
        {
            if outcome.binaries[j].len() == 0 {
                any_empty = true;
            }
            j = j + 1;
        }
        if any_empty {
            let miss_devices = request.miss_devices();
            let logs = get_build_logs(&miss_devices, &outcome.logs);
            return Err(CacheError::ClBuildError(logs));
        }
        let ghost m0 = self@;
        let ghost mkeys = request.miss_keys();
        let ghost mvals = outcome.binaries@.map_values(|b: Vec<u8>| b@);
        let mut j: usize = 0;
        while j < nmiss
            invariant
                request.wf(),
                nmiss > 0 ==> outcome.build_ok,
                nmiss == request.miss_indices@.len(),
                nmiss == outcome.binaries@.len(),
                forall|q: int| 0 <= q < nmiss ==> (#[trigger] outcome.binaries@[q])@.len() > 0,
                j <= nmiss,
                mkeys == request.miss_keys(),
                mvals == outcome.binaries@.map_values(|b: Vec<u8>| b@),
                m0 == old(self)@,
                self@ == stored_after(m0, mkeys.take(j as int), mvals.take(j as int)),
            decreases nmiss - j,
        {
            let mi = request.miss_indices[j];
            match self.backend.put(&request.keys[mi], &outcome.binaries[j]) {
                Ok(_) => {},
                Err(_) => {
                    return Err(CacheError::CacheError);
                },
            }
            proof {
                assert(mkeys.take(j as int + 1).drop_last() == mkeys.take(j as int));
                assert(mvals.take(j as int + 1).drop_last() == mvals.take(j as int));
                assert(mkeys.take(j as int + 1).last() == mkeys[j as int]);
                assert(mvals.take(j as int + 1).last() == mvals[j as int]);
                assert(mkeys[j as int] == request.keys@[mi as int]@);
                assert(mvals[j as int] == outcome.binaries@[j as int]@);
            }
            j = j + 1;
        }
        proof {
            assert(mkeys.take(nmiss as int) == mkeys);
            assert(mvals.take(nmiss as int) == mvals);
        }
        let n: usize = request.devices.len();
        let mut binaries: Vec<Vec<u8>> = Vec::new();
        let mut k: usize = 0;
        let mut i: usize = 0;
        while i < n
            invariant
                request.wf(),
                nmiss > 0 ==> outcome.build_ok,
                n == request.devices@.len(),
                nmiss == request.miss_indices@.len(),
                nmiss == outcome.binaries@.len(),
                forall|q: int| 0 <= q < nmiss ==> (#[trigger] outcome.binaries@[q])@.len() > 0,
                mkeys == request.miss_keys(),
                mvals == outcome.binaries@.map_values(|b: Vec<u8>| b@),
                m0 == old(self)@,
                self@ == stored_after(m0, mkeys, mvals),
                i <= n,
                k <= nmiss,
                binaries@.len() == i,
                forall|j2: int| 0 <= j2 < k ==> (#[trigger] request.miss_indices@[j2]) < i,
                k < nmiss ==> request.miss_indices@[k as int] >= i,
                forall|p: int|
                    0 <= p < i ==> ((#[trigger] request.cached@[p]) matches Some(b)
                        ==> binaries@[p]@ == b@),
                forall|j2: int|
                    0 <= j2 < k ==> binaries@[request.miss_indices@[j2] as int]@ == (
                    #[trigger] outcome.binaries@[j2])@,
            decreases n - i,
        {
            match &request.cached[i] {
                Some(b) => {
                    proof {
                        if k < nmiss {
                            assert(request.cached@[request.miss_indices@[k as int] as int] is None);
                            assert(request.miss_indices@[k as int] != i as usize);
                        }
                    }
                    binaries.push(copy_bytes(b));
                },
                None => {
                    proof {
                        assert(request.miss_indices@.contains(i as usize));
                        let jstar = choose|j2: int|
                            0 <= j2 < request.miss_indices@.len() && request.miss_indices@[j2]
                                == i as usize;
                        assert(k <= jstar);
                        assert(k < nmiss);
                        if k < jstar {
                            assert(request.miss_indices@[k as int]
                                < request.miss_indices@[jstar]);
                        }
                        assert(request.miss_indices@[k as int] == i as usize);
                    }
                    binaries.push(copy_bytes(&outcome.binaries[k]));
                    k = k + 1;
                },
            }
            i = i + 1;
        }
        proof {
            if k < nmiss {
                assert(request.miss_indices@[k as int] < request.devices@.len());
                assert(false);
            }
        }
        Ok(
            ProgramPlan {
                context: request.context,
                devices: clone_devices(&request.devices),
                binaries,
            },
        )
    }

    /// Serves `tag` for each of `devices` from the store alone.  There
    /// is no source to fall back on: if any device's tag entry is
    /// missing the whole lookup fails, naming every requested device.
    /// Nothing is written.
    pub fn get_with_tag(&mut self, tag: &str, devices: &Vec<Device>, ctx: &Context) -> (r: Result<
        ProgramPlan,
        CacheError,
    >)
        ensures
            final(self)@ == old(self)@,
            (r is Ok) <==> tag_warm(old(self)@, tag@, devices@),
            r matches Ok(plan) ==> {
                &&& plan.context == *ctx
                &&& plan.devices@ == devices@
                &&& plan.binaries@.len() == devices@.len()
                &&& forall|i: int|
                    0 <= i < devices@.len() ==> (#[trigger] plan.binaries@[i])@ == old(
                        self,
                    )@[tag_key(tag@, devices@[i])]
            },
            r matches Err(e) ==> e matches CacheError::NotAllBinariesLoaded(ds) && ds@ == devices@,
    {
        let n: usize = devices.len();
        let mut binaries: Vec<Vec<u8>> = Vec::new();
        let mut i: usize = 0;
        while i < n
            invariant
                self@ == old(self)@,
                n == devices@.len(),
                i <= n,
                binaries@.len() == i,
                forall|p: int|
                    0 <= p < i ==> old(self)@.contains_key(#[trigger] tag_key(tag@, devices@[p])),
                forall|p: int|
                    0 <= p < i ==> (#[trigger] binaries@[p])@ == old(self)@[tag_key(
                        tag@,
                        devices@[p],
                    )],
            decreases n - i,
        {
            let key = match self.key_hasher.get_tag_key(&devices[i], tag) {
                Ok(k) => k,
                Err(e) => {
                    return Err(e);
                },
            };
            match self.backend.get(&key) {
                Ok(binary) => {
                    binaries.push(binary);
                },
                Err(_) => {
                    proof {
                        assert(!old(self)@.contains_key(tag_key(tag@, devices@[i as int])));
                        assert(!tag_warm(old(self)@, tag@, devices@));
                    }
                    return Err(CacheError::NotAllBinariesLoaded(clone_devices(devices)));
                },
            }
            i = i + 1;
        }
        proof {
            assert(tag_warm(old(self)@, tag@, devices@));
        }
        Ok(ProgramPlan { context: ctx.clone(), devices: clone_devices(devices), binaries })
    }

    /// Stores the per-device binaries of a built program under `tag`.
    /// A program not yet built has an empty binary: the first such
    /// device is surfaced as `NeedBinaryProgram` and nothing is
    /// written.  Otherwise every binary is written under its tag key;
    /// a refused write is the generic cache error.  The binaries stand
    /// in the same order as the devices they were extracted for.
    pub fn put_with_tag(&mut self, tag: &str, devices: &Vec<Device>, binaries: &Vec<Vec<u8>>) -> (r:
        Result<(), CacheError>)
        requires
            devices@.len() == binaries@.len(),
        ensures
            put_tag_post(r, old(self)@, final(self)@, tag@, devices@, binaries@),
    {
        let n: usize = devices.len();
        let mut idx: usize = 0;
        while idx < n
            invariant
                self@ == old(self)@,
                n == devices@.len(),
                n == binaries@.len(),
                idx <= n,
                forall|p: int| 0 <= p < idx ==> (#[trigger] binaries@[p])@.len() > 0,
            decreases n - idx,
        {
            if binaries[idx].len() == 0 {
                return Err(CacheError::NeedBinaryProgram(devices[idx].clone()));
            }
            idx = idx + 1;
        }
        let ghost m0 = self@;
        let ghost tkeys = tag_keys_of(tag@, devices@);
        let ghost tvals = binaries@.map_values(|b: Vec<u8>| b@);
        let mut idx: usize = 0;
        while idx < n
            invariant
                n == devices@.len(),
                n == binaries@.len(),
                idx <= n,
                forall|p: int| 0 <= p < n ==> (#[trigger] binaries@[p])@.len() > 0,
                tkeys == tag_keys_of(tag@, devices@),
                tvals == binaries@.map_values(|b: Vec<u8>| b@),
                m0 == old(self)@,
                self@ == stored_after(m0, tkeys.take(idx as int), tvals.take(idx as int)),
            decreases n - idx,
        {
            let key = match self.key_hasher.get_tag_key(&devices[idx], tag) {
                Ok(k) => k,
                Err(e) => {
                    return Err(e);
                },
            };
            match self.backend.put(&key, &binaries[idx]) {
                Ok(_) => {},
                Err(_) => {
                    return Err(CacheError::CacheError);
                },
            }
            proof {
                assert(tkeys.take(idx as int + 1).drop_last() == tkeys.take(idx as int));
                assert(tvals.take(idx as int + 1).drop_last() == tvals.take(idx as int));
                assert(tkeys.take(idx as int + 1).last() == tkeys[idx as int]);
                assert(tvals.take(idx as int + 1).last() == tvals[idx as int]);
                assert(tkeys[idx as int] == tag_key(tag@, devices@[idx as int]));
                assert(tvals[idx as int] == binaries@[idx as int]@);
            }
            idx = idx + 1;
        }
        proof {
            assert(tkeys.take(n as int) == tkeys);
            assert(tvals.take(n as int) == tvals);
        }
        Ok(())
    }
}

// ---------------------------------------------------------------------
// What probing, compiling and tagging guarantee together
// ---------------------------------------------------------------------

/// After a probe that missed and a compile that was finished
/// successfully, the store holds the source key of every requested
/// device: the original hits were never removed, and every miss key was
/// just written.  By the probe's own contract — it never writes, and on
/// a store holding every key it answers `Ready` — a second lookup of the
/// same arguments is then served whole from the store, with zero
/// compiles and zero writes.
pub proof fn lemma_second_get_sees_no_misses(
    m0: Map<Seq<char>, Seq<u8>>,
    m1: Map<Seq<char>, Seq<u8>>,
    req: CompileRequest,
    out: CompileOutcome,
    source: Seq<char>,
    options: Seq<char>,
    devices: Seq<Device>,
)
    requires
        req.wf(),
        req.reflects(m0, source, options, devices),
        out.binaries@.len() == req.miss_indices@.len(),
        m1 == stored_after(m0, req.miss_keys(), out.binaries@.map_values(|b: Vec<u8>| b@)),
    ensures
        warm(m1, source, options, devices),
{
    let ks = req.miss_keys();
    let vs = out.binaries@.map_values(|b: Vec<u8>| b@);
    assert forall|i: int| 0 <= i < devices.len() implies m1.contains_key(
        #[trigger] source_key(source, devices[i], options),
    ) by {
        let k = source_key(source, devices[i], options);
        if req.cached@[i] is Some {
            assert(m0.contains_key(k));
            lemma_stored_after_monotone(m0, ks, vs, k);
        } else {
            vstd::std_specs::vec::axiom_spec_len(&req.cached);
            assert(req.cached@.len() <= usize::MAX);
            assert(req.miss_indices@.contains(i as usize));
            let j = choose|j: int|
                0 <= j < req.miss_indices@.len() && req.miss_indices@[j] == i as usize;
            assert(ks[j] == req.keys@[req.miss_indices@[j] as int]@);
            assert(ks[j] == req.keys@[i]@);
            assert(req.keys@[i]@ == k);
            lemma_stored_after_contains(m0, ks, vs, j);
        }
    }
}

/// Round trip: after binaries were stored under a tag for devices whose
/// tag keys are pairwise distinct, the store holds, under each device's
/// tag key, exactly that device's bytes.  A tag lookup of the same
/// devices then succeeds, and by its own contract returns per-device
/// binaries byte-identical to what was stored.
pub proof fn lemma_tag_round_trip(
    m0: Map<Seq<char>, Seq<u8>>,
    m1: Map<Seq<char>, Seq<u8>>,
    tag: Seq<char>,
    devices: Seq<Device>,
    binaries: Seq<Vec<u8>>,
)
    requires
        devices.len() == binaries.len(),
        m1 == stored_after(m0, tag_keys_of(tag, devices), binaries.map_values(|b: Vec<u8>| b@)),
        forall|i: int, j: int|
            0 <= i < j < devices.len() ==> tag_key(tag, devices[i]) != tag_key(tag, devices[j]),
    ensures
        tag_warm(m1, tag, devices),
        forall|i: int|
            0 <= i < devices.len() ==> m1[#[trigger] tag_key(tag, devices[i])] == binaries[i]@,
{
    let ks = tag_keys_of(tag, devices);
    let vs = binaries.map_values(|b: Vec<u8>| b@);
    assert forall|i: int|
        0 <= i < devices.len() implies m1.contains_key(#[trigger] tag_key(tag, devices[i])) && m1[tag_key(
        tag,
        devices[i],
    )] == binaries[i]@ by {
        assert(ks[i] == tag_key(tag, devices[i]));
        lemma_stored_after_contains(m0, ks, vs, i);
        assert forall|p: int, q: int| 0 <= p < q < ks.len() implies ks[p] != ks[q] by {
            assert(ks[p] == tag_key(tag, devices[p]));
            assert(ks[q] == tag_key(tag, devices[q]));
        }
        lemma_stored_after_distinct(m0, ks, vs, i);
        assert(vs[i] == binaries[i]@);
    }
}

/// Different build options hash different texts for the same source and
/// device.  (As above, the digests' distinctness is SHA-256's to give.)
pub proof fn lemma_options_separation(source: Seq<char>, d: Device, o1: Seq<char>, o2: Seq<char>)
    requires
        o1 != o2,
    ensures
        key_preimage(source, d, o1) != key_preimage(source, d, o2),
{
    let p1 = key_preimage(source, d, o1);
    let p2 = key_preimage(source, d, o2);
    let prefix = source + d.name@ + d.platform_name@ + d.platform_version@;
    assert(p1 == prefix + o1);
    assert(p2 == prefix + o2);
    if p1 == p2 {
        assert((prefix + o1).len() == prefix.len() + o1.len());
        assert((prefix + o2).len() == prefix.len() + o2.len());
        assert(o1.len() == o2.len());
        assert forall|k: int| 0 <= k < o1.len() implies o1[k] == o2[k] by {
            assert(p1[prefix.len() + k] == o1[k]);
            assert(p2[prefix.len() + k] == o2[k]);
        }
        assert(o1 =~= o2);
        assert(false);
    }
}

} // verus!
