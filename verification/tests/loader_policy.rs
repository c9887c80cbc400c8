use workflow_engine::file_source::{Error, FileSource};
use workflow_engine::loader::{
    admit_local, admit_remote, allowed_root, first_layer, plan, received, was_read, Fetch,
    DEFAULT_ROOT, WASM_MEDIA_TYPE,
};

#[test]
fn configured_root_comes_first() {
    assert_eq!(allowed_root(Some("/cfg".to_string()), Some("/cwd/wasm".to_string())), "/cfg");
    assert_eq!(allowed_root(Some("/cfg".to_string()), None), "/cfg");
}

#[test]
fn working_directory_root_comes_second() {
    assert_eq!(allowed_root(None, Some("/cwd/wasm".to_string())), "/cwd/wasm");
}

#[test]
fn default_root_comes_last() {
    assert_eq!(allowed_root(None, None), "./wasm");
    assert_eq!(DEFAULT_ROOT, "./wasm");
}

#[test]
fn path_within_the_root_is_admitted() {
    assert!(admit_local("/srv/wasm/hello.wasm", "/srv/wasm").is_ok());
    assert!(admit_local("/srv/wasm/sub/hello.wasm", "/srv/wasm").is_ok());
    assert!(admit_local("/srv/wasm", "/srv/wasm").is_ok());
}

#[test]
fn local_path_outside_the_allowed_root_is_forbidden() {
    match admit_local("/etc/passwd", "/srv/wasm") {
        Err(Error::ForbiddenPath(path)) => assert_eq!(path, "/etc/passwd"),
        other => panic!("unexpected: {other:?}"),
    }
}

#[test]
fn a_sibling_that_shares_a_prefix_of_the_name_is_outside() {
    assert!(matches!(
        admit_local("/srv/wasm-other/hello.wasm", "/srv/wasm"),
        Err(Error::ForbiddenPath(_))
    ));
}

#[test]
fn https_is_admitted() {
    assert!(admit_remote("https://example.com/x.wasm").is_ok());
}

#[test]
fn forbidden_remote() {
    match admit_remote("http://example.com/x.wasm") {
        Err(Error::ForbiddenScheme(url)) => assert_eq!(url, "http://example.com/x.wasm"),
        other => panic!("unexpected: {other:?}"),
    }
    let source = FileSource::parse("http://example.com/x.wasm").unwrap();
    assert!(matches!(plan(&source), Err(Error::ForbiddenScheme(_))));
}

#[test]
fn text_that_is_no_url_is_forbidden_as_remote() {
    assert!(matches!(admit_remote("example.com/x.wasm"), Err(Error::ForbiddenScheme(_))));
    assert!(matches!(admit_remote(""), Err(Error::ForbiddenScheme(_))));
    assert!(matches!(admit_remote("ftp://example.com/x"), Err(Error::ForbiddenScheme(_))));
}

#[test]
fn scheme_is_read_as_the_url_parser_reads_it() {
    assert_eq!(FileSource::scheme("HTTPS://example.com/x.wasm").as_deref(), Some("https"));
    assert!(admit_remote("HTTPS://example.com/x.wasm").is_ok());
    assert_eq!(FileSource::scheme("./x.wasm"), None);
}

#[test]
fn plan_for_each_kind_of_source() {
    match plan(&FileSource::local("./a.wasm".to_string())).unwrap() {
        Fetch::Read(path) => assert_eq!(path, "./a.wasm"),
        other => panic!("unexpected: {other:?}"),
    }
    match plan(&FileSource::remote("https://example.com/a.wasm".to_string())).unwrap() {
        Fetch::Get(url) => assert_eq!(url, "https://example.com/a.wasm"),
        other => panic!("unexpected: {other:?}"),
    }
    match plan(&FileSource::oci("ghcr.io/acme/a:1".to_string())).unwrap() {
        Fetch::Pull { image, media_type } => {
            assert_eq!(image, "ghcr.io/acme/a:1");
            assert_eq!(media_type, "application/wasm");
            assert_eq!(media_type, WASM_MEDIA_TYPE);
        }
        other => panic!("unexpected: {other:?}"),
    }
}

#[test]
fn empty_body_is_success_with_zero_bytes() {
    assert_eq!(received(200, vec![]).unwrap(), Vec::<u8>::new());
}

#[test]
fn body_of_a_success_is_handed_on() {
    assert_eq!(received(200, vec![0, 97, 115, 109]).unwrap(), vec![0, 97, 115, 109]);
    assert_eq!(received(204, vec![1]).unwrap(), vec![1]);
    assert_eq!(received(299, vec![2]).unwrap(), vec![2]);
}

#[test]
fn status_that_is_no_success_is_the_error() {
    for status in [0u16, 100, 199, 300, 301, 404, 500, 65535] {
        match received(status, vec![1, 2, 3]) {
            Err(Error::Http(code)) => assert_eq!(code, status),
            other => panic!("unexpected: {other:?}"),
        }
    }
}

#[test]
fn image_is_its_first_layer() {
    assert_eq!(first_layer(vec![vec![1, 2], vec![3]]).unwrap(), vec![1, 2]);
    assert_eq!(first_layer(vec![vec![]]).unwrap(), Vec::<u8>::new());
}

#[test]
fn image_without_layers_is_an_error() {
    assert!(matches!(first_layer(vec![]), Err(Error::OciPull(_))));
}

#[test]
fn an_empty_file_is_read_as_no_bytes() {
    assert_eq!(was_read(Ok(Vec::new())).unwrap(), Vec::<u8>::new());
}

#[test]
fn what_was_read_is_handed_on_as_it_is() {
    assert_eq!(was_read(Ok(vec![0, 97, 115, 109])).unwrap(), vec![0, 97, 115, 109]);
}

#[test]
fn a_failed_reading_is_an_io_error() {
    match was_read(Err("entity not found".to_string())) {
        Err(Error::Io(failure)) => assert_eq!(failure, "entity not found"),
        _ => panic!("unexpected outcome"),
    }
}

#[test]
fn an_empty_body_is_received_as_no_bytes() {
    assert_eq!(received(200, Vec::new()).unwrap(), Vec::<u8>::new());
}
