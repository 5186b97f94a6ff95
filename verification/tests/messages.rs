use pie::error::from_res;
use pie::parser::one_of_msg;

#[test]
fn one_of_msg_renders_labels_in_order() {
    let labels = vec!["claim".to_string(), "define".to_string(), "expression".to_string()];
    assert_eq!(
        one_of_msg(&labels),
        "one of: `claim', `define', `expression'".to_string()
    );
}

#[test]
fn one_of_msg_with_one_label() {
    let labels = vec!["atom".to_string()];
    assert_eq!(one_of_msg(&labels), "one of: `atom'".to_string());
}

#[test]
fn one_of_msg_with_no_labels() {
    let labels: Vec<String> = vec![];
    assert_eq!(one_of_msg(&labels), "one of: ".to_string());
}

#[test]
fn from_res_keeps_a_success() {
    let r: Result<i32, u64> = from_res(Ok::<i32, u8>(5));
    assert_eq!(r, Ok(5));
}

#[test]
fn from_res_converts_the_error() {
    let r: Result<i32, u64> = from_res(Err::<i32, u8>(7));
    assert_eq!(r, Err(7u64));
}
