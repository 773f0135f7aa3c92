use oci_desktop::commands::auth::{
    connection_request, connection_result, is_valid_fingerprint, is_valid_identifier,
    validate_profile, validation_result,
};
use oci_desktop::commands::profile::{
    create_profile, delete_profile, get_profile, get_regions, list_profiles, update_profile,
    StoreError,
};
use oci_desktop::commands::resources;
use oci_desktop::models::profile::{position_of, OciProfile};
use oci_desktop::oci::client::{
    classify_response, find_profile, get_request, load_profile, load_profile_in, ClientError,
    HttpOutcome,
};
use oci_desktop::oci::signature::Method;
use oci_desktop::text::{str_eq, str_is_blank};

fn profile(name: &str) -> OciProfile {
    OciProfile {
        name: name.to_string(),
        user: "ocid1.user.oc1..aaaa".to_string(),
        tenancy: "ocid1.tenancy.oc1..bbbb".to_string(),
        region: "ap-tokyo-1".to_string(),
        fingerprint: "aa:bb:cc:dd:ee:ff:00:11:22:33:44:55:66:77:88:99".to_string(),
        key_file: "/home/u/.oci/key.pem".to_string(),
    }
}

fn response(status: u16, body: &str) -> HttpOutcome {
    HttpOutcome::Response { status, body: body.to_string() }
}

#[test]
fn fingerprint_needs_sixteen_groups() {
    assert!(is_valid_fingerprint("aa:bb:cc:dd:ee:ff:00:11:22:33:44:55:66:77:88:99"));
    assert!(is_valid_fingerprint("AA:BB:CC:DD:EE:FF:00:11:22:33:44:55:66:77:88:99"));
    assert!(!is_valid_fingerprint("aa:bb:cc"));
    assert!(!is_valid_fingerprint("aa:bb:cc:dd:ee:ff:00:11:22:33:44:55:66:77:88:9g"));
    assert!(!is_valid_fingerprint("aa:bb:cc:dd:ee:ff:00:11:22:33:44:55:66:77:88:99:00"));
    assert!(!is_valid_fingerprint(""));
}

#[test]
fn identifier_has_prefix_category_and_realm() {
    assert!(is_valid_identifier("ocid1.user.oc1..aaaa"));
    assert!(is_valid_identifier("ocid1.tenancy.oc12.region.x"));
    assert!(!is_valid_identifier("ocid2.user.oc1..aaaa"));
    assert!(!is_valid_identifier("xocid1.user.oc1..aaaa"));
    assert!(!is_valid_identifier("ocid1.User.oc1..aaaa"));
    assert!(!is_valid_identifier("ocid1.user.oc1"));
}

#[test]
fn valid_profile_has_no_errors() {
    let result = validate_profile(&profile("DEFAULT"), true);
    assert!(result.valid);
    assert!(result.errors.is_empty());
}

#[test]
fn every_failed_check_gives_its_message_in_order() {
    let bad = OciProfile {
        name: "  ".to_string(),
        user: "user".to_string(),
        tenancy: "tenancy".to_string(),
        region: "".to_string(),
        fingerprint: "aa:bb:cc".to_string(),
        key_file: " ".to_string(),
    };
    let result = validate_profile(&bad, true);
    assert!(!result.valid);
    assert_eq!(
        result.errors,
        vec![
            "プロファイル名を入力してください。".to_string(),
            "ユーザー OCID の形式が無効です。（例: ocid1.user.oc1..xxx）".to_string(),
            "テナンシー OCID の形式が無効です。（例: ocid1.tenancy.oc1..xxx）".to_string(),
            "リージョンを選択してください。".to_string(),
            "フィンガープリントの形式が無効です。（例: aa:bb:cc:dd:...）".to_string(),
            "秘密鍵ファイルのパスを指定してください。".to_string(),
        ]
    );
}

#[test]
fn validation_follows_the_results_of_the_checks() {
    let good = validation_result(&profile("DEFAULT"), true, true, true, true);
    assert!(good.valid);
    assert!(good.errors.is_empty());
    let bad_user = validation_result(&profile("DEFAULT"), false, true, true, true);
    assert!(!bad_user.valid);
    assert_eq!(
        bad_user.errors,
        vec!["ユーザー OCID の形式が無効です。（例: ocid1.user.oc1..xxx）".to_string()]
    );
    let two = validation_result(&profile("DEFAULT"), true, false, false, true);
    assert_eq!(
        two.errors,
        vec![
            "テナンシー OCID の形式が無効です。（例: ocid1.tenancy.oc1..xxx）".to_string(),
            "フィンガープリントの形式が無効です。（例: aa:bb:cc:dd:...）".to_string(),
        ]
    );
    let mut blank = profile(" ");
    blank.region = "\t".to_string();
    blank.key_file = "".to_string();
    let three = validation_result(&blank, true, true, true, false);
    assert_eq!(
        three.errors,
        vec![
            "プロファイル名を入力してください。".to_string(),
            "リージョンを選択してください。".to_string(),
            "秘密鍵ファイルのパスを指定してください。".to_string(),
        ]
    );
}

#[test]
fn missing_key_file_is_reported() {
    let result = validate_profile(&profile("DEFAULT"), false);
    assert!(!result.valid);
    assert_eq!(result.errors, vec!["指定された秘密鍵ファイルが見つかりません。".to_string()]);
}

#[test]
fn status_401_is_an_authentication_failure() {
    assert_eq!(classify_response(response(401, "denied")), Err(ClientError::Authentication));
}

#[test]
fn status_500_is_an_api_error_with_the_body() {
    assert_eq!(
        classify_response(response(500, "{\"code\": \"Internal\"}\n")),
        Err(ClientError::Api { status: 500, body: "{\"code\": \"Internal\"}\n".to_string() })
    );
    assert_eq!(
        classify_response(response(199, "x")),
        Err(ClientError::Api { status: 199, body: "x".to_string() })
    );
    assert_eq!(
        classify_response(response(300, "x")),
        Err(ClientError::Api { status: 300, body: "x".to_string() })
    );
}

#[test]
fn connect_timeout_is_a_network_failure() {
    assert_eq!(
        classify_response(HttpOutcome::Failed { detail: "connect timed out".to_string() }),
        Err(ClientError::Network { detail: "connect timed out".to_string() })
    );
}

#[test]
fn success_gives_the_body() {
    assert_eq!(classify_response(response(200, "[]")), Ok("[]".to_string()));
    assert_eq!(classify_response(response(299, "ok")), Ok("ok".to_string()));
}

#[test]
fn client_errors_have_messages() {
    assert_eq!(
        ClientError::ProfileNotFound { name: "X".to_string() }.message(),
        "プロファイル 'X' が見つかりません。"
    );
    assert_eq!(
        ClientError::Authentication.message(),
        "認証エラー。OCID、フィンガープリント、秘密鍵を確認してください。"
    );
    assert_eq!(
        ClientError::Api { status: 404, body: "gone".to_string() }.message(),
        "API エラー（ステータス: 404）: gone"
    );
    assert_eq!(
        ClientError::Network { detail: "dns".to_string() }.message(),
        "API リクエストに失敗しました: dns"
    );
}

#[test]
fn get_request_has_host_path_and_url() {
    let plan = get_request(&profile("DEFAULT"), "objectstorage", "/n/ns/b/", Some("compartmentId=c"));
    assert_eq!(plan.request.method, Method::Get);
    assert_eq!(plan.request.host, "objectstorage.ap-tokyo-1.oraclecloud.com");
    assert_eq!(plan.request.path, "/n/ns/b/?compartmentId=c");
    assert_eq!(plan.request.body, None);
    assert_eq!(plan.url, "https://objectstorage.ap-tokyo-1.oraclecloud.com/n/ns/b/?compartmentId=c");
    let plain = get_request(&profile("DEFAULT"), "iaas", "/20160918/instances", None);
    assert_eq!(plain.request.path, "/20160918/instances");
    assert_eq!(plain.url, "https://iaas.ap-tokyo-1.oraclecloud.com/20160918/instances");
}

#[test]
fn profile_is_found_by_its_exact_name() {
    let profiles = vec![profile("A"), profile("B"), profile("A")];
    assert_eq!(position_of(&profiles, "A"), Some(0));
    assert_eq!(position_of(&profiles, "B"), Some(1));
    assert_eq!(position_of(&profiles, "b"), None);
    assert_eq!(find_profile(&profiles, "B"), Ok(profile("B")));
    assert_eq!(
        find_profile(&profiles, "C"),
        Err(ClientError::ProfileNotFound { name: "C".to_string() })
    );
    assert_eq!(get_profile(&profiles, "A"), Ok(profile("A")));
}

#[test]
fn profile_is_loaded_from_the_text_of_the_file() {
    let content = "[A]\nuser=u\ntenancy=t\nregion=r\nfingerprint=f\nkey_file=~/a.pem\n\
[B]\nuser=u2\ntenancy=t2\nregion=r2\nfingerprint=f2\nkey_file=b.pem\n";
    let a = load_profile_in(content, "/home/u/.oci/config", Some("/home/u"), "A").unwrap();
    assert_eq!(a.key_file, "/home/u/a.pem");
    let b = load_profile(content, "/home/u/.oci/config", "B").unwrap();
    assert_eq!(b.user, "u2");
    assert_eq!(b.key_file, "/home/u/.oci/b.pem");
    assert_eq!(
        load_profile(content, "/home/u/.oci/config", "C"),
        Err(ClientError::ProfileNotFound { name: "C".to_string() })
    );
}

#[test]
fn profiles_are_listed_created_updated_and_deleted() {
    let profiles = vec![profile("A"), profile("B")];
    assert_eq!(list_profiles(&profiles), vec!["A".to_string(), "B".to_string()]);

    let created = create_profile(vec![profile("A"), profile("B")], profile("C")).unwrap();
    assert_eq!(created, vec![profile("A"), profile("B"), profile("C")]);
    assert_eq!(
        create_profile(vec![profile("A"), profile("B")], profile("B")),
        Err(StoreError::AlreadyExists)
    );

    let mut changed = profile("B2");
    changed.region = "us-ashburn-1".to_string();
    let updated = update_profile(vec![profile("A"), profile("B")], "B", changed).unwrap();
    assert_eq!(updated.len(), 2);
    assert_eq!(updated[0], profile("A"));
    assert_eq!(updated[1].name, "B2");
    assert_eq!(updated[1].region, "us-ashburn-1");
    assert_eq!(
        update_profile(vec![profile("A")], "Z", profile("Z")),
        Err(StoreError::NotFound)
    );
    assert_eq!(
        update_profile(vec![profile("A"), profile("B")], "A", profile("B")),
        Err(StoreError::AlreadyExists)
    );
    assert_eq!(
        update_profile(vec![profile("A"), profile("B")], "Z", profile("B")),
        Err(StoreError::NotFound)
    );
    let mut same = profile("A");
    same.user = "ocid1.user.oc1..other".to_string();
    let kept = update_profile(vec![profile("A"), profile("B")], "A", same).unwrap();
    assert_eq!(kept[0].name, "A");
    assert_eq!(kept[0].user, "ocid1.user.oc1..other");
    assert_eq!(kept[1], profile("B"));

    let deleted = delete_profile(vec![profile("A"), profile("B"), profile("A")], "A").unwrap();
    assert_eq!(deleted, vec![profile("B")]);
    assert_eq!(delete_profile(vec![profile("A")], "Z"), Err(StoreError::NotFound));
    assert_eq!(delete_profile(Vec::new(), "Z"), Err(StoreError::NotFound));
}

#[test]
fn store_errors_have_messages() {
    assert_eq!(StoreError::NotFound.message("X"), "プロファイル 'X' が見つかりません。");
    assert_eq!(StoreError::AlreadyExists.message("X"), "プロファイル 'X' は既に存在します。");
}

#[test]
fn regions_command_gives_the_table() {
    assert_eq!(get_regions().len(), 30);
    assert_eq!(get_regions()[1].code, "ap-osaka-1");
}

#[test]
fn connection_test_reads_the_tenancy() {
    let plan = connection_request(&profile("DEFAULT"));
    assert_eq!(plan.request.method, Method::Get);
    assert_eq!(plan.request.host, "identity.ap-tokyo-1.oraclecloud.com");
    assert_eq!(plan.request.path, "/20160918/tenancies/ocid1.tenancy.oc1..bbbb");
    assert_eq!(
        plan.url,
        "https://identity.ap-tokyo-1.oraclecloud.com/20160918/tenancies/ocid1.tenancy.oc1..bbbb"
    );
}

#[test]
fn connection_result_tells_what_happened() {
    let ok = connection_result(&response(200, "{}"));
    assert!(ok.success);
    assert_eq!(ok.message, "接続テスト成功。認証が正常に確認されました。");
    let denied = connection_result(&response(401, "{}"));
    assert!(!denied.success);
    assert_eq!(denied.message, "認証エラー。OCID、フィンガープリント、秘密鍵を確認してください。");
    let failed = connection_result(&response(503, "busy"));
    assert!(!failed.success);
    assert_eq!(failed.message, "API エラー（ステータス: 503）: busy");
    let lost = connection_result(&HttpOutcome::Failed { detail: "timeout".to_string() });
    assert!(!lost.success);
    assert_eq!(lost.message, "接続に失敗しました: timeout");
}

#[test]
fn text_helpers() {
    assert!(str_eq("abc", "abc"));
    assert!(!str_eq("abc", "abd"));
    assert!(str_is_blank(""));
    assert!(str_is_blank(" \t\r\n\u{3000}"));
    assert!(!str_is_blank(" x "));
}

#[test]
fn listing_requests_name_service_path_and_compartment() {
    let p = profile("DEFAULT");
    let instances = resources::list_instances(&p, "ocid1.compartment.oc1..c");
    assert_eq!(instances.request.host, "iaas.ap-tokyo-1.oraclecloud.com");
    assert_eq!(
        instances.request.path,
        "/20160918/instances?compartmentId=ocid1.compartment.oc1..c"
    );
    assert_eq!(
        instances.url,
        "https://iaas.ap-tokyo-1.oraclecloud.com/20160918/instances?compartmentId=ocid1.compartment.oc1..c"
    );
    let systems = resources::list_db_systems(&p, "c");
    assert_eq!(systems.request.host, "database.ap-tokyo-1.oraclecloud.com");
    assert_eq!(systems.request.path, "/20160918/dbSystems?compartmentId=c");
    let users = resources::list_users(&p);
    assert_eq!(users.request.host, "identity.ap-tokyo-1.oraclecloud.com");
    assert_eq!(users.request.path, "/20160918/users?compartmentId=ocid1.tenancy.oc1..bbbb");
    let groups = resources::list_groups(&p);
    assert_eq!(groups.request.path, "/20160918/groups?compartmentId=ocid1.tenancy.oc1..bbbb");
    let vcns = resources::list_vcns(&p, "c");
    assert_eq!(vcns.request.host, "iaas.ap-tokyo-1.oraclecloud.com");
    assert_eq!(vcns.request.path, "/20160918/vcns?compartmentId=c");
    let namespace = resources::get_namespace(&p);
    assert_eq!(namespace.request.host, "objectstorage.ap-tokyo-1.oraclecloud.com");
    assert_eq!(namespace.request.path, "/n/");
    let buckets = resources::list_buckets(&p, "c", "ns");
    assert_eq!(buckets.request.path, "/n/ns/b/?compartmentId=c");
    assert_eq!(buckets.request.method, Method::Get);
    assert_eq!(buckets.request.body, None);
}
