use clcache::cache::volatile::Volatile;
use clcache::cache::{Cache, CacheBackend, CacheError, CompileOutcome, DefaultHasher, GetOutcome, KeyError};
use clcache::cl::{Context, Device};

struct DummyCacheBackend;

impl CacheBackend for DummyCacheBackend {
    fn get(&self, _: &String) -> Result<Vec<u8>, KeyError> {
        Err(KeyError::KeyNotFound)
    }

    fn put(&mut self, _: &String, _: &Vec<u8>) -> Result<(), KeyError> {
        Ok(())
    }
}

fn create_cache_dummy_backend() -> Cache<DummyCacheBackend> {
    Cache::new(DummyCacheBackend)
}

fn create_cache_volatile_backend() -> Cache<Volatile> {
    Cache::new(Volatile::new())
}

fn get_demo_source() -> &'static str {
    return "__kernel void vector_add(__global const long *A, __global const long *B, __global long *C) {
                    int i = get_global_id(0);
                    C[i] = A[i] + B[i];
        }";
}

fn make_device(id: u64, name: &str) -> Device {
    Device {
        id,
        name: name.to_string(),
        platform_name: "Portable Platform".to_string(),
        platform_version: "OpenCL 1.2".to_string(),
    }
}

fn get_context() -> (Context, Vec<Device>) {
    let devices = vec![make_device(1, "Device A"), make_device(2, "Device B")];
    (Context::from_id(7), devices)
}

#[test]
pub fn it_can_create_a_cache() {
    let _ = create_cache_dummy_backend();
}

#[test]
fn it_does_not_create_same_hash_with_same_source_but_distinct_device() {
    let src = get_demo_source();
    let (_, devices) = get_context();
    let mut hasher = DefaultHasher::new();

    assert!(devices.len() >= 2);

    let keys: Vec<String> = devices
        .iter()
        .map(|x| hasher.get_key(&x, &src.to_string(), &"".to_string()).unwrap())
        .collect();

    let mut unique_keys = keys.clone();
    unique_keys.sort();
    unique_keys.dedup();

    assert!(keys.len() == unique_keys.len());
}

#[test]
fn it_should_compile_for_all_devices_if_not_in_cache() {
    let mut c = create_cache_dummy_backend();
    let src = get_demo_source();
    let (ctx, devices) = get_context();

    let outcome = c.get(&src, &devices, &ctx).unwrap();
    match outcome {
        GetOutcome::NeedCompile(request) => {
            assert_eq!(request.miss_indices.len(), devices.len());
            let n = request.miss_indices.len();
            let outcome = CompileOutcome {
                build_ok: true,
                binaries: vec![vec![1u8, 2, 3]; n],
                logs: vec![None; n],
            };
            c.finish_compile(request, outcome).unwrap();
        },
        GetOutcome::Ready(_) => panic!("an empty cache cannot serve a program"),
    }
}

#[test]
fn it_creates_distinct_hashes_with_options_and_without() {
    let src = get_demo_source();
    let (_, devices) = get_context();
    let mut hasher = DefaultHasher::new();

    let device = &devices[0];
    let key_wo_options = hasher.get_key(&device, &src.to_string(), &"".to_string()).unwrap();
    let key_with_options = hasher.get_key(&device, &src.to_string(), &"-D test=2".to_string()).unwrap();

    assert!(key_wo_options != key_with_options)
}

#[test]
fn it_can_not_put_with_tag_with_program_from_source() {
    let mut c = create_cache_dummy_backend();
    let (_, devices) = get_context();
    // a program fresh from source has no binaries yet: every blob is empty
    let binaries: Vec<Vec<u8>> = devices.iter().map(|_| Vec::new()).collect();

    let put_result = c.put_with_tag("test", &devices, &binaries);
    match put_result {
        Err(CacheError::NeedBinaryProgram(_)) => (),
        _ => panic!("Needed a binary program"),
    }
}

#[test]
fn it_can_put_with_tag_and_recover_a_progran_with_cached_contents() {
    let mut c = create_cache_volatile_backend();
    let (ctx, devices) = get_context();
    let binaries: Vec<Vec<u8>> = devices
        .iter()
        .enumerate()
        .map(|(i, _)| vec![i as u8 + 1, 7, 9])
        .collect();

    c.put_with_tag("test", &devices, &binaries).unwrap();

    let new_program = c.get_with_tag("test", &devices, &ctx).unwrap();
    if new_program.binaries.iter().all(|x| x.len() > 0) == false {
        panic!("All the binaries should have length >= 1")
    }
}

#[test]
fn it_can_not_cache_same_program_with_distinct_options_and_same_tag() {
}

#[test]
fn it_returns_none_on_empty_cache() {
    let c = Volatile::new();
    assert!(c.get(&("test".to_string())).is_err());
}
