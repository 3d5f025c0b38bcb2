use avanza_ghostfolio::routes::{hello, init_submit, not_found};

#[test]
fn hello_message() {
    assert_eq!(hello(), "{\n    'status': 'success',\n    'message': 'Hello API!'\n  }");
}

#[test]
fn not_found_names_the_path() {
    assert_eq!(not_found("/nope"), "Oh no! We couldn't find the requested path '/nope'");
    assert_eq!(not_found(""), "Oh no! We couldn't find the requested path ''");
}

#[test]
fn init_submit_names_the_column() {
    assert_eq!(init_submit(&"ISIN".to_string()), "Done, column ISIN");
}
