use oci_desktop::models::profile::OciProfile;
use oci_desktop::oci::config_parser::{
    build_profile, default_config_path, default_config_path_in, expand_tilde, parse_config,
    parse_config_in, resolve_key_file_path, write_config, SectionFields,
};
use oci_desktop::oci::regions::{get_available_regions, region_to_endpoint};
use oci_desktop::text::{chars_of, decimal_string, string_of};

fn profile(name: &str, key_file: &str) -> OciProfile {
    OciProfile {
        name: name.to_string(),
        user: "ocid1.user.oc1..test".to_string(),
        tenancy: "ocid1.tenancy.oc1..test".to_string(),
        region: "ap-tokyo-1".to_string(),
        fingerprint: "aa:bb:cc:dd".to_string(),
        key_file: key_file.to_string(),
    }
}

#[test]
fn test_parse_config() {
    let content = "[DEFAULT]
user=ocid1.user.oc1..aaaatest
fingerprint=aa:bb:cc:dd:ee:ff
tenancy=ocid1.tenancy.oc1..aaaatest
region=ap-tokyo-1
key_file=/home/test/.oci/key.pem

[PRODUCTION]
user=ocid1.user.oc1..bbbbtest
fingerprint=11:22:33:44:55:66
tenancy=ocid1.tenancy.oc1..bbbbtest
region=us-ashburn-1
key_file=/home/test/.oci/prod_key.pem

";
    let profiles = parse_config(content, "/tmp/work/config");
    assert_eq!(profiles.len(), 2);
    assert_eq!(profiles[0].name, "DEFAULT");
    assert_eq!(profiles[0].region, "ap-tokyo-1");
    assert_eq!(profiles[1].name, "PRODUCTION");
    assert_eq!(profiles[1].region, "us-ashburn-1");
}

#[test]
fn test_write_and_read_config() {
    let profiles = vec![OciProfile {
        name: "DEFAULT".to_string(),
        user: "ocid1.user.oc1..test".to_string(),
        tenancy: "ocid1.tenancy.oc1..test".to_string(),
        region: "ap-tokyo-1".to_string(),
        fingerprint: "aa:bb:cc:dd".to_string(),
        key_file: "/home/test/.oci/key.pem".to_string(),
    }];

    let content = write_config(&profiles);
    let parsed = parse_config(&content, "/tmp/work/config");
    assert_eq!(parsed.len(), 1);
    assert_eq!(parsed[0].name, "DEFAULT");
    assert_eq!(parsed[0].user, "ocid1.user.oc1..test");
}

#[test]
fn write_config_gives_the_exact_text() {
    let profiles = vec![profile("A", "/k/a.pem"), profile("B", "/k/b.pem")];
    let expected = "[A]\nuser=ocid1.user.oc1..test\nfingerprint=aa:bb:cc:dd\n\
tenancy=ocid1.tenancy.oc1..test\nregion=ap-tokyo-1\nkey_file=/k/a.pem\n\n\
[B]\nuser=ocid1.user.oc1..test\nfingerprint=aa:bb:cc:dd\n\
tenancy=ocid1.tenancy.oc1..test\nregion=ap-tokyo-1\nkey_file=/k/b.pem\n";
    assert_eq!(write_config(&profiles), expected);
    assert_eq!(write_config(&Vec::new()), "");
}

#[test]
fn round_trip_keeps_every_field_and_resolves_the_key_file() {
    let profiles = vec![
        profile("DEFAULT", "/abs/key.pem"),
        profile("REL", "keys/a.pem"),
        profile("HOME", "~/.oci/a.pem"),
    ];
    let content = write_config(&profiles);
    let parsed = parse_config_in(&content, "/home/u/.oci/config", Some("/home/u"));
    assert_eq!(parsed.len(), 3);
    assert_eq!(parsed[0], profiles[0]);
    assert_eq!(parsed[1], profile("REL", "/home/u/.oci/keys/a.pem"));
    assert_eq!(parsed[2], profile("HOME", "/home/u/.oci/a.pem"));
}

#[test]
fn incomplete_sections_are_dropped_and_parsing_goes_on() {
    let content = "user=stray\n[ONE]\nuser=u1\ntenancy=t1\nregion=r1\nfingerprint=f1\n\
[TWO]\nuser=u2\ntenancy=t2\nregion=r2\nfingerprint=f2\nkey_file=/k2\n\
[THREE]\nkey_file=/k3\n[FOUR]\nuser=u4\ntenancy=t4\nregion=r4\nfingerprint=f4\nkey_file=/k4";
    let parsed = parse_config_in(content, "/c/config", None);
    assert_eq!(parsed.len(), 2);
    assert_eq!(parsed[0].name, "TWO");
    assert_eq!(parsed[0].user, "u2");
    assert_eq!(parsed[0].key_file, "/k2");
    assert_eq!(parsed[1].name, "FOUR");
    assert_eq!(parsed[1].fingerprint, "f4");
}

#[test]
fn lines_are_trimmed_and_comments_skipped() {
    let content = "  # a comment\r\n\r\n [ SPACED ] \r\n user = u \r\n\ttenancy\t=\tt\r\n\
region=r=x\r\nfingerprint =\r\nnot a pair\r\n# key_file=/wrong\r\nkey_file= /k \r\nuser=last\r\n";
    let parsed = parse_config_in(content, "/c/config", None);
    assert_eq!(parsed.len(), 1);
    assert_eq!(parsed[0].name, "SPACED");
    assert_eq!(parsed[0].user, "last");
    assert_eq!(parsed[0].tenancy, "t");
    assert_eq!(parsed[0].region, "r=x");
    assert_eq!(parsed[0].fingerprint, "");
    assert_eq!(parsed[0].key_file, "/k");
}

#[test]
fn empty_and_headerless_texts_hold_no_profile() {
    assert_eq!(parse_config_in("", "/c/config", None).len(), 0);
    assert_eq!(parse_config_in("user=u\nkey_file=/k\n", "/c/config", None).len(), 0);
    assert_eq!(parse_config_in("[", "/c/config", None).len(), 0);
}

#[test]
fn relative_key_file_is_resolved_beside_the_config_file() {
    let content = "[P]\nuser=u\ntenancy=t\nregion=r\nfingerprint=f\nkey_file=keys/a.pem\n";
    let parsed = parse_config_in(content, "/home/u/.oci/config", Some("/somewhere/else"));
    assert_eq!(parsed[0].key_file, "/home/u/.oci/keys/a.pem");
    assert_eq!(resolve_key_file_path("keys/a.pem", "/home/u/.oci", None), "/home/u/.oci/keys/a.pem");
    assert_eq!(resolve_key_file_path("keys/a.pem", "/", None), "/keys/a.pem");
    assert_eq!(resolve_key_file_path("keys/a.pem", "", None), "keys/a.pem");
    assert_eq!(resolve_key_file_path("/abs/a.pem", "/home/u/.oci", None), "/abs/a.pem");
}

#[test]
fn tilde_is_resolved_against_the_home_directory() {
    let content = "[P]\nuser=u\ntenancy=t\nregion=r\nfingerprint=f\nkey_file=~/.oci/a.pem\n";
    let parsed = parse_config_in(content, "/etc/oci/config", Some("/home/u"));
    assert_eq!(parsed[0].key_file, "/home/u/.oci/a.pem");
    let other = parse_config_in(content, "/var/lib/x/config", Some("/home/u"));
    assert_eq!(other[0].key_file, "/home/u/.oci/a.pem");
    assert_eq!(expand_tilde("~/.oci/a.pem", Some("/home/u")), "/home/u/.oci/a.pem");
    assert_eq!(expand_tilde("~/.oci/a.pem", None), "~/.oci/a.pem");
    assert_eq!(expand_tilde("a~b", Some("/home/u")), "a~b");
    assert_eq!(resolve_key_file_path("~/a.pem", "/c", None), "/c/~/a.pem");
}

#[test]
fn config_directory_is_the_parent_of_the_config_path() {
    let content = "[P]\nuser=u\ntenancy=t\nregion=r\nfingerprint=f\nkey_file=k.pem\n";
    assert_eq!(parse_config_in(content, "/config", None)[0].key_file, "/k.pem");
    assert_eq!(parse_config_in(content, "config", None)[0].key_file, "k.pem");
    assert_eq!(parse_config_in(content, "", None)[0].key_file, "/k.pem");
    assert_eq!(parse_config_in(content, "a/b/config", None)[0].key_file, "a/b/k.pem");
    assert_eq!(parse_config_in(content, "/a//config/", None)[0].key_file, "/a/k.pem");
}

#[test]
fn default_path_lies_under_the_home_directory() {
    assert_eq!(default_config_path_in(Some("/home/u")), "/home/u/.oci/config");
    assert_eq!(default_config_path_in(Some("/")), "/.oci/config");
    assert_eq!(default_config_path_in(None), "~/.oci/config");
    assert!(default_config_path().ends_with("/.oci/config"));
}

#[test]
fn build_profile_needs_all_five_keys() {
    let fields = SectionFields::new()
        .insert("user", "u".to_string())
        .insert("tenancy", "t".to_string())
        .insert("region", "r".to_string())
        .insert("other", "x".to_string())
        .insert("fingerprint", "f".to_string());
    assert_eq!(build_profile("P", &fields, "/c", None), None);
    let fields = fields.insert("key_file", "k.pem".to_string());
    let built = build_profile("P", &fields, "/c", None).unwrap();
    assert_eq!(built.name, "P");
    assert_eq!(built.user, "u");
    assert_eq!(built.tenancy, "t");
    assert_eq!(built.region, "r");
    assert_eq!(built.fingerprint, "f");
    assert_eq!(built.key_file, "/c/k.pem");
}

#[test]
fn regions_are_listed_in_order() {
    let regions = get_available_regions();
    assert_eq!(regions.len(), 30);
    assert_eq!(regions[0].code, "ap-tokyo-1");
    assert_eq!(regions[0].display_name, "東京");
    assert_eq!(regions[9].code, "us-ashburn-1");
    assert_eq!(regions[29].code, "sa-vinhedo-1");
    assert_eq!(regions[29].display_name, "ヴィニェード");
}

#[test]
fn endpoint_is_service_region_domain() {
    assert_eq!(region_to_endpoint("ap-tokyo-1", "identity"), "identity.ap-tokyo-1.oraclecloud.com");
}

#[test]
fn decimal_strings() {
    assert_eq!(decimal_string(0), "0");
    assert_eq!(decimal_string(7), "7");
    assert_eq!(decimal_string(10), "10");
    assert_eq!(decimal_string(401), "401");
    assert_eq!(decimal_string(1234567890), "1234567890");
}

#[test]
fn strings_and_characters_convert_both_ways() {
    let chars = chars_of("a東b");
    assert_eq!(chars, vec!['a', '東', 'b']);
    assert_eq!(string_of(&chars), "a東b");
}

#[test]
fn parsed_store_is_written_and_read_back_unchanged() {
    let content = " [ A ] \r\nuser = u \ntenancy=t\nregion=r\nfingerprint=f\nkey_file=keys/a.pem\n\
[HALF]\nuser=x\n[B]\nuser=u2\ntenancy=t2\nregion=r2\nfingerprint=\nkey_file=~/b.pem\n\
[C]\nuser=u3\ntenancy=t3\nregion=r3\nfingerprint=f3\nkey_file=";
    let first = parse_config_in(content, "/home/u/.oci/config", Some("/home/u"));
    assert_eq!(first.len(), 3);
    assert_eq!(first[0].key_file, "/home/u/.oci/keys/a.pem");
    assert_eq!(first[1].key_file, "/home/u/b.pem");
    assert_eq!(first[2].key_file, "/home/u/.oci/");
    let second = parse_config_in(&write_config(&first), "/home/u/.oci/config", Some("/home/u"));
    assert_eq!(second, first);
}

#[test]
fn relative_config_path_resolves_a_relative_key_file_again() {
    let content = "[A]\nuser=u\ntenancy=t\nregion=r\nfingerprint=f\nkey_file=k.pem\n";
    let first = parse_config_in(content, "a/config", None);
    assert_eq!(first[0].key_file, "a/k.pem");
    let second = parse_config_in(&write_config(&first), "a/config", None);
    assert_eq!(second[0].key_file, "a/a/k.pem");
}
