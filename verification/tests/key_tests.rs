use clcache::cache::disk::FileSystemCache;
use clcache::cache::DefaultHasher;
use clcache::cl::Device;

fn tiny_device() -> Device {
    Device {
        id: 42,
        name: "dev".to_string(),
        platform_name: "plat".to_string(),
        platform_version: "1.0".to_string(),
    }
}

#[test]
fn source_key_is_the_sha256_of_the_concatenation() {
    // sha256("src" + "dev" + "plat" + "1.0" + "") in lowercase hex
    let mut hasher = DefaultHasher::new();
    let key = hasher.get_key(&tiny_device(), &"src".to_string(), &"".to_string()).unwrap();
    assert_eq!(key, "2eee5fcd52ed5f7942fbccfe688427f382e605cad2144acae05cd1aa9b3f3cb7");
}

#[test]
fn tag_key_is_the_tag_verbatim_before_the_fingerprint() {
    // "v1" + sha256("dev" + "plat" + "1.0")
    let mut hasher = DefaultHasher::new();
    let key = hasher.get_tag_key(&tiny_device(), "v1").unwrap();
    assert_eq!(key, "v105111188f4fac4911f2ea961d089df1ff9aef4a4e41231d1364967c403c2e10d");
    assert!(key.starts_with("v1"));
    assert_eq!(key.len(), 2 + 64);
}

#[test]
fn source_key_is_64_hex_characters() {
    let mut hasher = DefaultHasher::new();
    let key = hasher.get_key(&tiny_device(), &"anything".to_string(), &"-O2".to_string()).unwrap();
    assert_eq!(key.len(), 64);
    assert!(key.chars().all(|c| c.is_ascii_hexdigit() && !c.is_ascii_uppercase()));
}

#[test]
fn platform_version_participates_in_the_key() {
    // a driver upgrade must invalidate the cache
    let mut hasher = DefaultHasher::new();
    let old_driver = tiny_device();
    let mut new_driver = tiny_device();
    new_driver.platform_version = "2.0".to_string();
    let src = "src".to_string();
    let opts = "".to_string();
    let k_old = hasher.get_key(&old_driver, &src, &opts).unwrap();
    let k_new = hasher.get_key(&new_driver, &src, &opts).unwrap();
    assert_ne!(k_old, k_new);
}

#[test]
fn raw_handle_value_plays_no_part_in_the_key() {
    let mut hasher = DefaultHasher::new();
    let mut twin = tiny_device();
    twin.id = 4242;
    let src = "src".to_string();
    let opts = "".to_string();
    let k1 = hasher.get_key(&tiny_device(), &src, &opts).unwrap();
    let k2 = hasher.get_key(&twin, &src, &opts).unwrap();
    assert_eq!(k1, k2);
}

#[test]
fn entry_path_is_key_dot_clbin_under_the_root() {
    let cache = FileSystemCache::new("/tmp/clcache-root".to_string());
    let path = cache.get_path(&"abc123".to_string());
    assert_eq!(path, "/tmp/clcache-root/abc123.clbin");
}
