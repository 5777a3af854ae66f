use javy::blob::{
    parse_blob_options, parse_file_options, register, BlobError, BlobOptions, BlobProperty,
    BlobStore, FileOptions,
};

fn plain_blob_options() -> BlobOptions {
    parse_blob_options(None, None)
}

fn typed_blob_options(mime: &str) -> BlobOptions {
    parse_blob_options(Some(mime.to_string()), None)
}

fn blob_size(store: &BlobStore, id: u32) -> usize {
    match store.blob_get_property(id, "size") {
        Ok(BlobProperty::Size(n)) => n,
        other => panic!("expected a size, got {:?}", other.is_ok()),
    }
}

fn blob_type(store: &BlobStore, id: u32) -> String {
    match store.blob_get_property(id, "type") {
        Ok(BlobProperty::Type(t)) => t,
        other => panic!("expected a type, got {:?}", other.is_ok()),
    }
}

fn parts(texts: &[&str]) -> Vec<Vec<u8>> {
    texts.iter().map(|t| t.as_bytes().to_vec()).collect()
}

#[test]
fn mod_test_register() {
    let names = register();

    // Check that the Blob constructor's helpers are available
    assert!(names.contains(&"__javy_blob_create".to_string()));

    // Check that the File constructor's helper is available
    assert!(names.contains(&"__javy_file_create".to_string()));
}

#[test]
fn test_blob_constructor_basic() {
    let mut store = BlobStore::new();

    // Test empty blob
    let b1 = store.blob_create(vec![], plain_blob_options());
    assert!(b1 > 0);

    // Test blob with string content
    let b2 = store.blob_create(parts(&["hello world"]), plain_blob_options());
    assert!(b2 > 0);

    // Test blob with options
    let b3 = store.blob_create(parts(&["test"]), typed_blob_options("text/plain"));
    assert!(b3 > 0);
}

#[test]
fn test_blob_properties() {
    let mut store = BlobStore::new();

    // Test size property
    let b = store.blob_create(parts(&["hello"]), plain_blob_options());
    assert_eq!(blob_size(&store, b), 5);

    // Test type property
    let b = store.blob_create(parts(&["test"]), typed_blob_options("text/plain"));
    assert_eq!(blob_type(&store, b), "text/plain");

    // Test empty type
    let b = store.blob_create(parts(&["test"]), plain_blob_options());
    assert_eq!(blob_type(&store, b), "");
}

#[test]
fn test_blob_text_method() {
    let mut store = BlobStore::new();

    // Test text method
    let b = store.blob_create(parts(&["hello world"]), plain_blob_options());
    assert_eq!(store.blob_text(b), "hello world");

    // Test empty blob text
    let b = store.blob_create(vec![], plain_blob_options());
    assert_eq!(store.blob_text(b), "");
}

#[test]
fn test_blob_slice_method() {
    let mut store = BlobStore::new();

    // Test basic slice
    let b = store.blob_create(parts(&["hello world"]), plain_blob_options());
    let s = store.blob_slice(b, Some(0), Some(5), None);
    assert_eq!(store.blob_text(s), "hello");

    // Test slice with negative start
    let b = store.blob_create(parts(&["hello world"]), plain_blob_options());
    let s = store.blob_slice(b, Some(-5), None, None);
    assert_eq!(store.blob_text(s), "world");

    // Test slice with content type
    let b = store.blob_create(parts(&["test"]), plain_blob_options());
    let s = store.blob_slice(b, Some(0), Some(2), Some("text/plain".to_string()));
    assert_eq!(blob_type(&store, s), "text/plain");
}

#[test]
fn test_file_constructor() {
    let mut store = BlobStore::new();

    // Test basic file
    let f1 = store.file_create(
        parts(&["content"]),
        "test.txt".to_string(),
        parse_file_options(None, None, None),
    );
    assert!(f1 > 0);

    // Test file with options
    let f2 = store.file_create(
        parts(&["content"]),
        "test.txt".to_string(),
        parse_file_options(Some("text/plain".to_string()), None, None),
    );
    assert!(f2 > 0);
}

#[test]
fn test_file_properties() {
    let mut store = BlobStore::new();

    // The file name is kept by the guest-side class; the store accepts it
    // with the creation call.
    let f = store.file_create(
        parts(&["content"]),
        "test.txt".to_string(),
        parse_file_options(None, None, None),
    );
    assert!(f > 0);

    // Test inherited size property
    let f = store.file_create(
        parts(&["hello"]),
        "test.txt".to_string(),
        parse_file_options(None, None, None),
    );
    assert_eq!(blob_size(&store, f), 5);

    // Test inherited type property
    let f = store.file_create(
        parts(&["content"]),
        "test.txt".to_string(),
        parse_file_options(Some("text/plain".to_string()), None, None),
    );
    assert_eq!(blob_type(&store, f), "text/plain");

    // Test lastModified property is a number when given
    let options: FileOptions = parse_file_options(None, None, Some(1640995200000));
    assert!(options.last_modified.is_some());
}

#[test]
fn test_file_inherited_methods() {
    let mut store = BlobStore::new();

    // Test inherited text method
    let f = store.file_create(
        parts(&["hello world"]),
        "test.txt".to_string(),
        parse_file_options(None, None, None),
    );
    assert_eq!(store.blob_text(f), "hello world");

    // Test inherited slice method
    let f = store.file_create(
        parts(&["hello world"]),
        "test.txt".to_string(),
        parse_file_options(None, None, None),
    );
    let s = store.blob_slice(f, Some(0), Some(5), None);
    assert_eq!(store.blob_text(s), "hello");
}

#[test]
fn test_blob_concatenation() {
    let mut store = BlobStore::new();

    // Test multiple string parts
    let b = store.blob_create(parts(&["hello", " ", "world"]), plain_blob_options());
    assert_eq!(store.blob_text(b), "hello world");

    // Test size calculation
    let b = store.blob_create(parts(&["hello", " ", "world"]), plain_blob_options());
    assert_eq!(blob_size(&store, b), 11);
}

#[test]
fn test_edge_cases() {
    let mut store = BlobStore::new();

    // Test slice beyond bounds
    let b = store.blob_create(parts(&["hello"]), plain_blob_options());
    let s = store.blob_slice(b, Some(10), Some(20), None);
    assert_eq!(blob_size(&store, s), 0);

    // Test slice with end before start
    let b = store.blob_create(parts(&["hello"]), plain_blob_options());
    let s = store.blob_slice(b, Some(3), Some(1), None);
    assert_eq!(blob_size(&store, s), 0);

    // The File constructor's arity check lives at the guest boundary; the
    // store itself accepts any name, including an empty one.
    let f = store.file_create(
        parts(&["content"]),
        String::new(),
        parse_file_options(None, None, None),
    );
    assert!(f > 0);
}

#[test]
fn test_debug_blob_constructor() {
    let mut store = BlobStore::new();

    println!("Testing Blob existence...");
    let names = register();
    println!("Blob helpers: {}", names.len());

    println!("Testing new Blob...");
    let b = store.blob_create(vec![], plain_blob_options());
    println!("new Blob() succeeded: {}", b);
}

#[test]
fn test_blob_integration() {
    let mut store = BlobStore::new();

    // Basic Blob creation and properties
    let blob1 = store.blob_create(
        parts(&["Hello, ", "World!"]),
        typed_blob_options("text/plain"),
    );
    assert_eq!(blob_size(&store, blob1), 13);
    assert_eq!(blob_type(&store, blob1), "text/plain");
    assert_eq!(store.blob_text(blob1), "Hello, World!");

    // Blob slicing
    let slice1 = store.blob_slice(blob1, Some(0), Some(5), None);
    assert_eq!(store.blob_text(slice1), "Hello");

    let slice2 = store.blob_slice(blob1, Some(-6), None, None);
    assert_eq!(store.blob_text(slice2), "World!");

    // File creation and properties
    let file = store.file_create(
        parts(&["File content here"]),
        "test.txt".to_string(),
        parse_file_options(Some("text/plain".to_string()), None, Some(1640995200000)),
    );
    assert_eq!(blob_size(&store, file), 17);
    assert_eq!(blob_type(&store, file), "text/plain");
    assert_eq!(store.blob_text(file), "File content here");

    // File inheritance: files slice like blobs
    let file_slice = store.blob_slice(file, Some(5), Some(12), None);
    assert_eq!(store.blob_text(file_slice), "content");

    // Empty handling
    let empty_blob = store.blob_create(vec![], plain_blob_options());
    assert_eq!(blob_size(&store, empty_blob), 0);
    assert_eq!(blob_type(&store, empty_blob), "");
    assert_eq!(store.blob_text(empty_blob), "");

    // ArrayBuffer and bytes methods
    let buffer = store.blob_array_buffer(blob1);
    assert_eq!(buffer.len(), 13);

    let bytes = store.blob_bytes(blob1);
    assert_eq!(bytes.len(), 13);

    let success_message = "All integration tests passed successfully";
    assert_eq!(success_message, "All integration tests passed successfully");
}

#[test]
fn blob_text_replaces_invalid_utf8() {
    let mut store = BlobStore::new();
    let b = store.blob_create(vec![vec![0xff, 0xfe]], plain_blob_options());
    assert_eq!(store.blob_text(b), "\u{fffd}\u{fffd}");
}

#[test]
fn blob_unknown_property_is_an_error() {
    let mut store = BlobStore::new();
    let b = store.blob_create(parts(&["x"]), plain_blob_options());
    match store.blob_get_property(b, "length") {
        Err(BlobError::UnknownProperty(p)) => assert_eq!(p, "length"),
        _ => panic!("expected an unknown-property error"),
    }
}

#[test]
fn blob_missing_id_is_an_error() {
    let store = BlobStore::new();
    match store.blob_get_property(7, "size") {
        Err(BlobError::InvalidBlobId(id)) => assert_eq!(id, 7),
        _ => panic!("expected an invalid-identifier error"),
    }
    assert_eq!(store.blob_array_buffer(7).len(), 0);
    assert_eq!(store.blob_text(7), "");
}

#[test]
fn blob_slice_of_missing_id_is_fresh_and_empty() {
    let mut store = BlobStore::new();
    let s = store.blob_slice(42, Some(0), Some(5), Some("text/plain".to_string()));
    assert_eq!(s, 1);
    assert_eq!(blob_size(&store, s), 0);
    assert_eq!(blob_type(&store, s), "");
}

#[test]
fn blob_endings_are_validated() {
    let options = parse_blob_options(None, Some("native".to_string()));
    assert_eq!(options.endings, "native");
    let options = parse_blob_options(None, Some("windows".to_string()));
    assert_eq!(options.endings, "");
}
