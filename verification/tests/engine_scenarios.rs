use clcache::cache::volatile::Volatile;
use clcache::cache::{Cache, CacheBackend, CacheError, CompileOutcome, DefaultHasher, GetOutcome, KeyError};
use clcache::cl::{Context, Device};

fn device(id: u64, name: &str) -> Device {
    Device {
        id,
        name: name.to_string(),
        platform_name: "Portable Platform".to_string(),
        platform_version: "OpenCL 1.2".to_string(),
    }
}

fn vector_add_source() -> &'static str {
    "__kernel void vector_add(__global const long *A, __global const long *B, __global long *C){int i=get_global_id(0); C[i]=A[i]+B[i];}"
}

/// A store that counts writes, so a test can see how often the engine
/// persisted anything.
struct CountingBackend {
    inner: Volatile,
    puts: u32,
}

impl CacheBackend for CountingBackend {
    fn get(&self, key: &String) -> Result<Vec<u8>, KeyError> {
        self.inner.get(key)
    }

    fn put(&mut self, key: &String, payload: &Vec<u8>) -> Result<(), KeyError> {
        self.puts += 1;
        self.inner.put(key, payload)
    }
}

/// A store that accepts nothing.
struct RefusingBackend;

impl CacheBackend for RefusingBackend {
    fn get(&self, _: &String) -> Result<Vec<u8>, KeyError> {
        Err(KeyError::KeyNotFound)
    }

    fn put(&mut self, _: &String, _: &Vec<u8>) -> Result<(), KeyError> {
        Err(KeyError::IoError)
    }
}

fn compile_whole(cache: &mut Cache<CountingBackend>, source: &str, devices: &Vec<Device>, ctx: &Context) -> Vec<Vec<u8>> {
    match cache.get(source, devices, ctx).unwrap() {
        GetOutcome::Ready(plan) => plan.binaries,
        GetOutcome::NeedCompile(request) => {
            let n = request.miss_indices.len();
            let mut binaries = Vec::new();
            for j in 0..n {
                let mi = request.miss_indices[j];
                binaries.push(vec![0xC0u8, devices[mi].id as u8, j as u8]);
            }
            let outcome = CompileOutcome { build_ok: true, binaries, logs: vec![None; n] };
            cache.finish_compile(request, outcome).unwrap().binaries
        },
    }
}

#[test]
fn cold_get_compiles_then_warm_get_runs_zero_puts() {
    let d0 = device(1, "Device A");
    let ctx = Context::from_id(3);
    let devices = vec![d0];
    let backend = CountingBackend { inner: Volatile::new(), puts: 0 };
    let mut cache = Cache::new(backend);
    let src = vector_add_source();

    let first = compile_whole(&mut cache, src, &devices, &ctx);
    assert_eq!(first.len(), 1);

    // the second lookup is served whole: no compile, no put
    match cache.get(src, &devices, &ctx).unwrap() {
        GetOutcome::Ready(plan) => {
            assert_eq!(plan.binaries, first);
        },
        GetOutcome::NeedCompile(_) => panic!("a warm cache must not compile again"),
    }
}

#[test]
fn key_is_deterministic_across_calls() {
    let d0 = device(1, "Device A");
    let mut hasher = DefaultHasher::new();
    let src = vector_add_source().to_string();
    let options = "".to_string();
    let k1 = hasher.get_key(&d0, &src, &options).unwrap();
    let k2 = hasher.get_key(&d0, &src, &options).unwrap();
    assert_eq!(k1, k2);
}

#[test]
fn partial_hit_compiles_only_the_missing_device() {
    let d0 = device(1, "Device A");
    let d1 = device(2, "Device B");
    let ctx = Context::from_id(3);
    let src = vector_add_source();

    // pre-populate the store with d0's entry only
    let mut hasher = DefaultHasher::new();
    let k0 = hasher.get_key(&d0, &src.to_string(), &"".to_string()).unwrap();
    let cached_bytes = vec![0xAAu8, 0xBB];
    let mut store = Volatile::new();
    store.put(&k0, &cached_bytes).unwrap();

    let devices = vec![d0, d1];
    let mut cache = Cache::new(store);
    match cache.get(src, &devices, &ctx).unwrap() {
        GetOutcome::Ready(_) => panic!("device B has no entry yet"),
        GetOutcome::NeedCompile(request) => {
            // exactly one device goes to the compiler: d1
            assert_eq!(request.miss_indices, vec![1usize]);
            let misses = request.miss_devices();
            assert_eq!(misses.len(), 1);
            assert_eq!(misses[0].id, 2);

            let fresh = vec![0xCCu8, 0xDD];
            let outcome = CompileOutcome {
                build_ok: true,
                binaries: vec![fresh.clone()],
                logs: vec![None],
            };
            let plan = cache.finish_compile(request, outcome).unwrap();
            // reassembly is in the caller's order: the cached bytes for
            // d0, the fresh bytes for d1
            assert_eq!(plan.binaries, vec![cached_bytes, fresh]);
        },
    }
}

#[test]
fn failed_build_surfaces_the_log_of_each_device() {
    let d0 = device(1, "Device A");
    let ctx = Context::from_id(3);
    let devices = vec![d0];
    let mut cache = Cache::new(Volatile::new());
    let src = "__kernel void bad(){ this is not valid }";

    match cache.get(src, &devices, &ctx).unwrap() {
        GetOutcome::Ready(_) => panic!("nothing was stored yet"),
        GetOutcome::NeedCompile(request) => {
            let outcome = CompileOutcome {
                build_ok: false,
                binaries: vec![],
                logs: vec![Some("bad.cl:1: error: expected expression".to_string())],
            };
            match cache.finish_compile(request, outcome) {
                Err(CacheError::ClBuildError(logs)) => {
                    assert_eq!(logs.len(), 1);
                    assert_eq!(logs[0].0.id, 1);
                    assert!(logs[0].1.len() > 0);
                },
                _ => panic!("a failed build must surface the logs"),
            }
        },
    }
}

#[test]
fn empty_binary_counts_as_a_failed_build() {
    let d0 = device(1, "Device A");
    let ctx = Context::from_id(3);
    let devices = vec![d0];
    let mut cache = Cache::new(Volatile::new());

    match cache.get(vector_add_source(), &devices, &ctx).unwrap() {
        GetOutcome::Ready(_) => panic!("nothing was stored yet"),
        GetOutcome::NeedCompile(request) => {
            // the driver reported success yet handed back nothing
            let outcome = CompileOutcome {
                build_ok: true,
                binaries: vec![vec![]],
                logs: vec![Some("".to_string())],
            };
            match cache.finish_compile(request, outcome) {
                Err(CacheError::ClBuildError(_)) => (),
                _ => panic!("an empty binary must count as a build failure"),
            }
        },
    }
}

#[test]
fn refused_write_is_a_hard_error() {
    let d0 = device(1, "Device A");
    let ctx = Context::from_id(3);
    let devices = vec![d0];
    let mut cache = Cache::new(RefusingBackend);

    match cache.get(vector_add_source(), &devices, &ctx).unwrap() {
        GetOutcome::Ready(_) => panic!("nothing was stored yet"),
        GetOutcome::NeedCompile(request) => {
            let outcome = CompileOutcome {
                build_ok: true,
                binaries: vec![vec![1u8]],
                logs: vec![None],
            };
            match cache.finish_compile(request, outcome) {
                Err(CacheError::CacheError) => (),
                _ => panic!("a refused write must not return the program"),
            }
        },
    }
}

#[test]
fn tag_round_trip_returns_byte_identical_binaries() {
    let d0 = device(1, "Device A");
    let ctx = Context::from_id(3);
    let devices = vec![d0];
    let stored = vec![vec![0x10u8, 0x20, 0x30, 0x40]];
    let mut cache = Cache::new(Volatile::new());

    cache.put_with_tag("v1", &devices, &stored).unwrap();
    let plan = cache.get_with_tag("v1", &devices, &ctx).unwrap();
    assert_eq!(plan.binaries, stored);
    assert_eq!(plan.devices.len(), 1);
    assert_eq!(plan.devices[0].id, 1);
}

#[test]
fn tag_miss_lists_every_requested_device() {
    let d0 = device(1, "Device A");
    let d1 = device(2, "Device B");
    let ctx = Context::from_id(3);
    let devices = vec![d0, d1];
    let mut cache = Cache::new(Volatile::new());

    match cache.get_with_tag("nonexistent", &devices, &ctx) {
        Err(CacheError::NotAllBinariesLoaded(listed)) => {
            assert_eq!(listed.len(), 2);
            assert_eq!(listed[0].id, 1);
            assert_eq!(listed[1].id, 2);
        },
        _ => panic!("an empty cache cannot serve a tag"),
    }
}

#[test]
fn need_binary_program_names_the_first_unbuilt_device() {
    let d0 = device(1, "Device A");
    let d1 = device(2, "Device B");
    let devices = vec![d0, d1];
    let binaries = vec![vec![9u8], vec![]];
    let mut cache = Cache::new(Volatile::new());

    match cache.put_with_tag("v1", &devices, &binaries) {
        Err(CacheError::NeedBinaryProgram(d)) => assert_eq!(d.id, 2),
        _ => panic!("an empty binary cannot be tagged"),
    }
}

#[test]
fn devices_with_one_identity_share_one_entry() {
    // two handles with the same name on the same platform key alike:
    // the store ends up with one entry, and both positions of the plan
    // carry the bytes written last under that key
    let d0 = device(1, "Device A");
    let mut twin = device(1, "Device A");
    twin.id = 99;
    let ctx = Context::from_id(3);
    let devices = vec![d0, twin];
    let mut cache = Cache::new(Volatile::new());

    match cache.get(vector_add_source(), &devices, &ctx).unwrap() {
        GetOutcome::Ready(_) => panic!("nothing was stored yet"),
        GetOutcome::NeedCompile(request) => {
            assert_eq!(request.miss_indices, vec![0usize, 1usize]);
            let outcome = CompileOutcome {
                build_ok: true,
                binaries: vec![vec![1u8], vec![2u8]],
                logs: vec![None, None],
            };
            cache.finish_compile(request, outcome).unwrap();
        },
    }
    match cache.get(vector_add_source(), &devices, &ctx).unwrap() {
        GetOutcome::Ready(plan) => {
            assert_eq!(plan.binaries, vec![vec![2u8], vec![2u8]]);
        },
        GetOutcome::NeedCompile(_) => panic!("both positions share the stored key"),
    }
}

#[test]
fn options_separate_cache_entries() {
    // a source cached without options is still a miss with them
    let d0 = device(1, "Device A");
    let ctx = Context::from_id(3);
    let devices = vec![d0];
    let backend = CountingBackend { inner: Volatile::new(), puts: 0 };
    let mut cache = Cache::new(backend);
    let src = vector_add_source();

    compile_whole(&mut cache, src, &devices, &ctx);
    match cache.get_with_options(src, &devices, &ctx, "-D X=1").unwrap() {
        GetOutcome::NeedCompile(request) => {
            assert_eq!(request.miss_indices, vec![0usize]);
        },
        GetOutcome::Ready(_) => panic!("the options are part of the key"),
    }
}

#[test]
fn empty_device_list_yields_an_empty_plan() {
    // the engine does not reject an empty device list itself: the probe
    // finds no misses and returns an empty plan, which the pre-load
    // check then refuses before any driver call
    let ctx = Context::from_id(3);
    let devices: Vec<Device> = vec![];
    let mut cache = Cache::new(Volatile::new());

    match cache.get(vector_add_source(), &devices, &ctx).unwrap() {
        GetOutcome::Ready(plan) => {
            assert_eq!(plan.binaries.len(), 0);
            let check = clcache::cl::check_program_binaries(&plan.devices, &plan.binaries);
            match check {
                Err(e) => assert_eq!(e.human_error, "Can't create program without devices"),
                Ok(()) => panic!("loading needs at least one device"),
            }
        },
        GetOutcome::NeedCompile(_) => panic!("no device can miss"),
    }
}
