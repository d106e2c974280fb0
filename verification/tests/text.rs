use tictactoe::{append_string, Task};

#[test]
fn append_string_adds_the_suffix() {
    let mut s = String::from("Hello");
    append_string(&mut s);
    assert_eq!(s, "Hello World");
}

#[test]
fn append_string_on_an_empty_string() {
    let mut s = String::new();
    append_string(&mut s);
    assert_eq!(s, " World");
}

#[test]
fn task_keeps_its_fields() {
    let t = Task {
        task_name: String::from("shopping"),
        task_description: String::from("milk and bread"),
        task_complete: String::from("false"),
    };
    let copy = t.clone();
    assert_eq!(copy.task_name, "shopping");
    assert_eq!(copy.task_description, "milk and bread");
    assert_eq!(copy.task_complete, "false");
}
