use pulsar_hub::template_cache::{entry_name, fnv1a, TemplateCacheService};

fn reference_fnv1a(data: &str) -> u64 {
    let mut hash: u64 = 0xcbf2_9ce4_8422_2325;
    for byte in data.bytes() {
        hash ^= byte as u64;
        hash = hash.wrapping_mul(0x0000_0100_0000_01b3);
    }
    hash
}

#[test]
fn fnv1a_known_values() {
    assert_eq!(fnv1a(""), 0xcbf2_9ce4_8422_2325);
    assert_eq!(fnv1a("a"), 0xaf63_dc4c_8601_ec8c);
    for s in ["https://github.com/foo/bar", "ünïcode", "x".repeat(300).as_str()] {
        assert_eq!(fnv1a(s), reference_fnv1a(s));
    }
}

#[test]
fn entry_name_is_slug_and_hash() {
    let url = "https://github.com/Far-Beyond-Pulsar/Blank_Template.git/";
    assert_eq!(
        entry_name(url),
        format!("Blank_Template-{:08x}", reference_fnv1a(url) as u32)
    );
    let odd = "https://example.com/my repo!.git.git";
    assert_eq!(entry_name(odd), format!("my-repo--{:08x}", reference_fnv1a(odd) as u32));
    assert_eq!(entry_name(""), format!("template-{:08x}", reference_fnv1a("") as u32));
    assert_eq!(entry_name("https://x.org/ünï"), format!("ünï-{:08x}", reference_fnv1a("https://x.org/ünï") as u32));
}

#[test]
fn entry_dir_is_inside_cache_dir() {
    let url = "https://github.com/foo/bar";
    let dir = TemplateCacheService::entry_dir(url);
    assert!(dir.starts_with(&TemplateCacheService::cache_dir()));
    assert!(dir.ends_with(&entry_name(url)));
}
