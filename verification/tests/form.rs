use wasm_service::form::{field_of_pairs, form_field, FormError};

#[test]
fn field_is_decoded() {
    assert_eq!(form_field("todo-new=Buy+milk", "todo-new"), Ok("Buy milk".to_string()));
    assert_eq!(form_field("todo-new=caf%C3%A9%26bar", "todo-new"), Ok("café&bar".to_string()));
    assert_eq!(form_field("todo-new=", "todo-new"), Ok(String::new()));
    assert_eq!(form_field("todo-new", "todo-new"), Ok(String::new()));
    assert_eq!(form_field("a=1&todo-new=x&b=2", "todo-new"), Ok("x".to_string()));
    assert_eq!(form_field("todo%2Dnew=x", "todo-new"), Ok("x".to_string()));
}

#[test]
fn missing_field_is_an_error() {
    assert_eq!(form_field("", "todo-new"), Err(FormError::MissingField));
    assert_eq!(form_field("other=x", "todo-new"), Err(FormError::MissingField));
    assert_eq!(form_field("Todo-New=x", "todo-new"), Err(FormError::MissingField));
}

#[test]
fn duplicate_field_is_an_error() {
    assert_eq!(form_field("todo-new=a&todo-new=b", "todo-new"), Err(FormError::DuplicateField));
    assert_eq!(
        form_field("todo-new=a&x=1&todo-new=a&todo-new=c", "todo-new"),
        Err(FormError::DuplicateField)
    );
}

#[test]
fn field_of_pairs_wants_exactly_one() {
    let pair = |k: &str, v: &str| (k.to_string(), v.to_string());
    assert_eq!(field_of_pairs(&vec![], "k"), Err(FormError::MissingField));
    assert_eq!(field_of_pairs(&vec![pair("k", "v")], "k"), Ok("v".to_string()));
    assert_eq!(
        field_of_pairs(&vec![pair("a", "1"), pair("k", "v"), pair("b", "2")], "k"),
        Ok("v".to_string())
    );
    assert_eq!(
        field_of_pairs(&vec![pair("k", "v"), pair("k", "w")], "k"),
        Err(FormError::DuplicateField)
    );
}
