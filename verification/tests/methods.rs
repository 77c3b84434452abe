use abap_lsp::context::ContextStore;
use abap_lsp::document::{CacheControlled, SourceCodeDocument};
use abap_lsp::methods::connection::{
    address, base_url, begin_connect, complete_connect, connection_options, decimal_string,
    options_url, Authentication, ConnectParams, ConnectResult, ConnectStep, ConnectionOptions,
    OptionsError,
};
use abap_lsp::methods::filesystem::{
    expand_result, read_request, read_result, ReadFileParams, RequestError,
};
use abap_lsp::vfs::nodes::Facet;
use abap_lsp::vfs::query::{Object, RepositoryContent, VirtualFolder};
use abap_lsp::vfs::tree::VirtualFileTree;
use slotmap::DefaultKey;

fn params(system_id: &str, authentication: Authentication) -> ConnectParams {
    ConnectParams {
        system_id: system_id.to_owned(),
        hostname: "localhost".to_owned(),
        port: 50000,
        client: "001".to_owned(),
        language: "EN".to_owned(),
        authentication,
        ssl: false,
        custom_certificate: None,
        accept_invalid_hostname: false,
        accept_invalid_certs: false,
    }
}

fn password() -> Authentication {
    Authentication::Password { username: "DEVELOPER".to_owned(), password: "secret".to_owned() }
}

#[test]
fn connected_session_stays_as_it_is() {
    let mut store: ContextStore<u32> = ContextStore::new();
    store.store("A4H", 1);
    store.start_custom_ttl("A4H", 0, 10);
    let step = begin_connect(true, &mut store, &params("A4H", password()));
    assert!(matches!(step, ConnectStep::AlreadyConnected));
    // The time-to-live was not touched.
    store.drop_expired_contexts(11);
    assert_eq!(store.try_restore("A4H"), None);
}

#[test]
fn stored_context_is_restored() {
    let mut store: ContextStore<u32> = ContextStore::new();
    store.store("A4H", 1);
    store.start_custom_ttl("A4H", 0, 10);
    let step = begin_connect(false, &mut store, &params("A4H", Authentication::SecurityToken("t".to_owned())));
    assert!(matches!(step, ConnectStep::Restored(1)));
    store.drop_expired_contexts(11);
    assert_eq!(store.try_restore("A4H"), Some(1));
}

#[test]
fn new_connection_needs_a_password() {
    let mut store: ContextStore<u32> = ContextStore::new();
    store.store("NPL", 1);
    assert!(matches!(
        begin_connect(false, &mut store, &params("A4H", password())),
        ConnectStep::Establish
    ));
    assert!(matches!(
        begin_connect(false, &mut store, &params("A4H", Authentication::SecurityToken("t".to_owned()))),
        ConnectStep::Unsupported
    ));
    assert!(matches!(
        begin_connect(false, &mut store, &params("A4H", Authentication::SAPSSO2("t".to_owned()))),
        ConnectStep::Unsupported
    ));
    assert_eq!(store.try_restore("A4H"), None);
}

#[test]
fn established_connection_is_stored() {
    let mut store: ContextStore<u32> = ContextStore::new();
    let request = params("A4H", password());
    assert_eq!(complete_connect(&mut store, &request, 5), ConnectResult::Created);
    assert!(matches!(begin_connect(false, &mut store, &request), ConnectStep::Restored(5)));
}

fn tree_with_object() -> (VirtualFileTree, DefaultKey, DefaultKey) {
    let mut tree = VirtualFileTree::new("A4H".to_owned());
    let groups = tree.expand(tree.root(), &Vec::new()).unwrap();
    let answer = RepositoryContent {
        folders: vec![VirtualFolder {
            facet: Facet::Package,
            name: "ZPKG".to_owned(),
            display_name: "ZPKG".to_owned(),
            has_children_of_same_facet: false,
        }],
        objects: vec![Object {
            name: "ZPROG".to_owned(),
            kind: "PROG/P".to_owned(),
            uri: "/sap/bc/adt/programs/programs/zprog".to_owned(),
        }],
    };
    let ids = tree.expand(groups[1], &vec![answer]).unwrap();
    (tree, ids[0], ids[1])
}

#[test]
fn read_asks_for_the_source_of_the_object() {
    let (tree, _, object) = tree_with_object();
    let request = read_request(
        &tree,
        &ReadFileParams { id: object, uri: "adt://a4h/zprog".to_owned(), version: None },
    )
    .unwrap();
    assert_eq!(request.url(), "/sap/bc/adt/programs/programs/zprog/source/main");
    assert_eq!(request.parameters(), vec![]);
    assert_eq!(
        request.headers().unwrap().get("cache-control").unwrap().to_str().unwrap(),
        "no-cache"
    );
}

#[test]
fn read_of_folders_and_unknown_nodes_is_refused() {
    let (tree, folder, _) = tree_with_object();
    let read = |id| read_request(&tree, &ReadFileParams { id, uri: "u".to_owned(), version: None });
    assert_eq!(read(folder), Err(RequestError::NotAnObject));
    assert_eq!(read(tree.root()), Err(RequestError::NotAnObject));
    assert_eq!(read(DefaultKey::default()), Err(RequestError::UnknownNode));
}

#[test]
fn expand_answer_holds_the_children() {
    let (tree, folder, object) = tree_with_object();
    let answer = expand_result(&tree, &vec![folder, object]).unwrap();
    assert_eq!(answer.children.len(), 2);
    assert_eq!(&answer.children[0], tree.lookup(folder).unwrap());
    assert_eq!(&answer.children[1], tree.lookup(object).unwrap());
    assert_eq!(
        expand_result(&tree, &vec![folder, DefaultKey::default()]),
        Err(RequestError::UnknownNode)
    );
    assert_eq!(expand_result(&tree, &Vec::new()).unwrap().children, vec![]);
}

#[test]
fn read_answer_is_the_text_of_the_document() {
    let language = tree_sitter_json::LANGUAGE.into();
    let document = SourceCodeDocument::fetch(
        "adt://a4h/zprog",
        "/sap/bc/adt/programs/programs/zprog",
        &CacheControlled::Modified("[1, 2]".to_owned()),
        &language,
    )
    .unwrap();
    assert_eq!(read_result(&document).content, "[1, 2]");
}

fn request_address(hostname: &str, port: u16, ssl: bool) -> String {
    let mut request = params("A4H", password());
    request.hostname = hostname.to_owned();
    request.port = port;
    request.ssl = ssl;
    let url = base_url(&request);
    assert_eq!(url, address(hostname, port, ssl));
    url
}

#[test]
fn address_of_the_system() {
    assert_eq!(request_address("localhost", 50000, false), "http://localhost:50000");
    assert_eq!(request_address("a4h.example.org", 44300, true), "https://a4h.example.org:44300");
}

#[test]
fn scheme_of_the_hostname_is_dropped() {
    assert_eq!(request_address("http://localhost", 50000, false), "http://localhost:50000");
    assert_eq!(request_address("https://localhost", 50000, false), "http://localhost:50000");
    assert_eq!(request_address("http://localhost", 443, true), "https://localhost:443");
    assert_eq!(request_address("http://https://host", 1, true), "https://host:1");
    // Matches are taken from the left and do not overlap.
    assert_eq!(request_address("hthttp://tp://x", 8000, false), "http://http://x:8000");
    assert_eq!(request_address("", 0, false), "http://:0");
}

#[test]
fn ports_in_decimal() {
    assert_eq!(decimal_string(0), "0");
    assert_eq!(decimal_string(7), "7");
    assert_eq!(decimal_string(10), "10");
    assert_eq!(decimal_string(443), "443");
    assert_eq!(decimal_string(8080), "8080");
    assert_eq!(decimal_string(50000), "50000");
    assert_eq!(decimal_string(65535), "65535");
}

#[test]
fn options_with_all_that_is_needed() {
    let options = connection_options(
        Some("a4h.example.org"),
        Some(44300),
        Some(true),
        Some("/etc/ssl/a4h.pem"),
        Some(true),
        None,
    );
    let expected = ConnectionOptions {
        hostname: "a4h.example.org".to_owned(),
        port: 44300,
        ssl: true,
        custom_certificate: Some("/etc/ssl/a4h.pem".to_owned()),
        accept_invalid_hostname: true,
        accept_invalid_certs: false,
    };
    assert_eq!(options, Ok(expected.clone()));
    assert_eq!(options_url(&expected), "https://a4h.example.org:44300");
}

#[test]
fn certificates_count_only_with_tls() {
    let options = connection_options(
        Some("http://localhost"),
        Some(50000),
        Some(false),
        Some("/etc/ssl/a4h.pem"),
        Some(true),
        Some(true),
    )
    .unwrap();
    assert_eq!(
        options,
        ConnectionOptions {
            hostname: "http://localhost".to_owned(),
            port: 50000,
            ssl: false,
            custom_certificate: None,
            accept_invalid_hostname: false,
            accept_invalid_certs: false,
        }
    );
    assert_eq!(options_url(&options), "http://localhost:50000");
}

#[test]
fn missing_options_are_named_in_order() {
    let check = |hostname, port, ssl| connection_options(hostname, port, ssl, None, None, None);
    assert_eq!(check(None, None, None), Err(OptionsError::MissingHostname));
    assert_eq!(check(None, Some(1), Some(true)), Err(OptionsError::MissingHostname));
    assert_eq!(check(Some("h"), None, None), Err(OptionsError::MissingPort));
    assert_eq!(check(Some("h"), Some(70000), None), Err(OptionsError::MissingSsl));
    assert_eq!(check(Some("h"), Some(65536), Some(false)), Err(OptionsError::InvalidPort));
    assert_eq!(check(Some("h"), Some(u64::MAX), Some(true)), Err(OptionsError::InvalidPort));
    assert!(check(Some("h"), Some(65535), Some(false)).is_ok());
    assert!(check(Some(""), Some(0), Some(false)).is_ok());
}
