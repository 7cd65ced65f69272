use cmdproxy::params::{cloud_key, directory_content_type, is_packed_directory, Param};

#[test]
fn test_conversion() {
    let fake_file = tempfile::NamedTempFile::new().unwrap();

    let param = Param::ipath(fake_file.path().to_str().unwrap()).unwrap();
    assert!(matches!(param, Param::InLocalFileParam { .. }));

    let param = param.as_cloud();
    assert!(matches!(param, Param::InCloudFileParam { .. }));

    let param = Param::opath(fake_file.path().to_str().unwrap()).unwrap();
    assert!(matches!(param, Param::OutLocalFileParam { .. }));

    let param = param.as_cloud();
    assert!(matches!(param, Param::OutCloudFileParam { .. }));
}

#[test]
fn constructors_build_their_variants() {
    assert_eq!(Param::str("v"), Param::StrParam { value: "v".to_string() });
    assert_eq!(Param::env("HOME"), Param::EnvParam { name: "HOME".to_string() });
    assert_eq!(Param::remote_env("HOME"), Param::RemoteEnvParam { name: "HOME".to_string() });
    assert_eq!(Param::cmd_name("sh"), Param::CmdNameParam { name: "sh".to_string() });
    assert_eq!(Param::cmd_path("/bin/sh"), Param::CmdPathParam { path: "/bin/sh".to_string() });
}

#[test]
fn format_keeps_bindings_in_order() {
    let param = Param::format("{a} {b}", vec![("a", Param::str("1")), ("b", Param::env("B"))]);
    assert_eq!(
        param,
        Param::FormatParam {
            tmpl: "{a} {b}".to_string(),
            args: vec![
                ("a".to_string(), Param::str("1")),
                ("b".to_string(), Param::env("B")),
            ],
        }
    );
}

#[test]
fn format_without_bindings() {
    let param = Param::format("plain", vec![]);
    assert_eq!(param, Param::FormatParam { tmpl: "plain".to_string(), args: vec![] });
}

#[test]
fn local_files_take_the_given_host() {
    let input = Param::local_input("/tmp/in.txt", Some("host1".to_string())).unwrap();
    assert_eq!(
        input,
        Param::InLocalFileParam {
            filepath: "/tmp/in.txt".to_string(),
            hostname: "host1".to_string()
        }
    );
    let output = Param::local_output("/tmp/out.txt", Some("host1".to_string())).unwrap();
    assert_eq!(
        output,
        Param::OutLocalFileParam {
            filepath: "/tmp/out.txt".to_string(),
            hostname: "host1".to_string()
        }
    );
}

#[test]
fn local_files_need_a_host() {
    assert!(Param::local_input("/tmp/in.txt", None).is_none());
    assert!(Param::local_output("/tmp/out.txt", None).is_none());
}

#[test]
fn ipath_keeps_the_path_and_names_this_host() {
    let param = Param::ipath("/a/b").unwrap();
    assert_eq!(param.filepath(), "/a/b");
    let again = Param::opath("/c/d").unwrap();
    assert_eq!(again.filepath(), "/c/d");
    assert_eq!(param.hostname(), again.hostname());
    assert!(!param.hostname().is_empty());
}

#[test]
fn predicates_tell_the_file_variants_apart() {
    let host = || Some("h".to_string());
    let in_local = Param::local_input("/p", host()).unwrap();
    let out_local = Param::local_output("/p", host()).unwrap();
    let in_cloud = in_local.as_cloud();
    let out_cloud = out_local.as_cloud();

    assert!(in_local.is_input() && in_local.is_local());
    assert!(!in_local.is_output() && !in_local.is_cloud());
    assert!(out_local.is_output() && out_local.is_local());
    assert!(!out_local.is_input() && !out_local.is_cloud());
    assert!(in_cloud.is_input() && in_cloud.is_cloud());
    assert!(!in_cloud.is_output() && !in_cloud.is_local());
    assert!(out_cloud.is_output() && out_cloud.is_cloud());
    assert!(!out_cloud.is_input() && !out_cloud.is_local());

    let plain = Param::str("x");
    assert!(!plain.is_input() && !plain.is_output() && !plain.is_local() && !plain.is_cloud());
    let template = Param::format("{x}", vec![("x", Param::str("y"))]);
    assert!(!template.is_input() && !template.is_output());
}

#[test]
fn as_cloud_keeps_host_and_path() {
    let local = Param::local_input("/a/b", Some("host1".to_string())).unwrap();
    let cloud = local.as_cloud();
    assert_eq!(
        cloud,
        Param::InCloudFileParam { filepath: "/a/b".to_string(), hostname: "host1".to_string() }
    );
    assert_eq!(cloud.hostname(), "host1");
    assert_eq!(cloud.filepath(), "/a/b");
}

#[test]
fn as_cloud_twice_is_as_cloud_once() {
    for local in [
        Param::local_input("/a/b", Some("host1".to_string())).unwrap(),
        Param::local_output("/a/b", Some("host1".to_string())).unwrap(),
    ] {
        let once = local.as_cloud();
        let twice = once.as_cloud();
        assert_eq!(once, twice);
    }
}

#[test]
fn cloud_url_is_at_host_colon_path() {
    let local = Param::local_output("/a/b", Some("host1".to_string())).unwrap();
    assert_eq!(local.cloud_url(), "@host1:/a/b");
    assert_eq!(local.as_cloud().cloud_url(), "@host1:/a/b");
    assert_eq!(cloud_key("", ""), "@:");
    assert_eq!(cloud_key("h", "/x:y@z"), "@h:/x:y@z");
}

#[test]
fn clone_copies_every_level() {
    let param = Param::format(
        "{a}",
        vec![("a", Param::format("{b}", vec![("b", Param::cmd_name("sh"))]))],
    );
    assert_eq!(param.clone(), param);
}

#[test]
fn a_packed_directory_is_told_by_its_content_type() {
    assert_eq!(directory_content_type(), "application/directory+zip");
    assert!(is_packed_directory(Some("application/directory+zip")));
    assert!(!is_packed_directory(Some("application/zip")));
    assert!(!is_packed_directory(Some("")));
    assert!(!is_packed_directory(None));
}
