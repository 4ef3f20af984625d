use ray_rust::error::{from_yaml_result, DeserializeError};

#[test]
fn an_error_holds_its_text() {
    let e = DeserializeError::new("RenderSphere couldn't find material glass");
    assert_eq!(e.s, "RenderSphere couldn't find material glass");
    assert_eq!(DeserializeError::new("").s, "");
}

#[test]
fn the_message_says_what_kind_of_error_it_is() {
    let e = DeserializeError::new("no such material");
    assert_eq!(e.message(), "Deserialize error: no such material");
    assert_eq!(DeserializeError::new("").message(), "Deserialize error: ");
}

#[test]
fn an_error_of_the_yaml_reader_is_named_after_the_reader() {
    let broken = serde_yaml::from_str::<Vec<i32>>("[1, 2");
    match broken {
        Err(e) => assert_eq!(DeserializeError::from(e).s, "serde_yaml::Error"),
        Ok(v) => panic!("read {:?}", v),
    }
}

#[test]
fn a_result_of_the_yaml_reader_keeps_its_value_and_changes_its_error() {
    let fine = from_yaml_result(serde_yaml::from_str::<Vec<i32>>("[1, 2]"));
    assert_eq!(fine.ok(), Some(vec![1, 2]));
    let broken = from_yaml_result(serde_yaml::from_str::<Vec<i32>>("{"));
    match broken {
        Err(e) => assert_eq!(e.s, "serde_yaml::Error"),
        Ok(v) => panic!("read {:?}", v),
    }
}
