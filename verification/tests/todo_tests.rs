use todo_list::args::{parse_command, usage, ArgError};
use todo_list::codec::{parse_todos, serialize_todos};
use todo_list::commands::{Commands, TodoError};
use todo_list::text::{dec_string, parse_u16, str_eq};

fn strings(items: &[&str]) -> Vec<String> {
    items.iter().map(|s| s.to_string()).collect()
}

#[test]
fn creates_fill_storage_in_order() {
    let mut todos: Vec<String> = Vec::new();
    Commands::create("one".to_string(), &mut todos);
    Commands::create("two".to_string(), &mut todos);
    Commands::create("three".to_string(), &mut todos);
    let text = serialize_todos(&todos);
    assert_eq!(text, "one\ntwo\nthree\n");
    assert_eq!(parse_todos(&text), strings(&["one", "two", "three"]));
}

#[test]
fn read_leaves_list_and_storage_unchanged() {
    let todos = strings(&["a", "b"]);
    let before = serialize_todos(&todos);
    let _ = Commands::read(&todos);
    let after = serialize_todos(&todos);
    assert_eq!(before, after);
    assert_eq!(parse_todos(&after), todos);
}

#[test]
fn update_replaces_only_that_position() {
    let mut todos = strings(&["a", "b", "c"]);
    Commands::update(1, "B".to_string(), &mut todos);
    assert_eq!(todos, strings(&["a", "B", "c"]));
}

#[test]
fn update_out_of_range_is_rejected_and_list_kept() {
    let mut todos = strings(&["a", "b"]);
    let r = Commands::try_update(2, "x".to_string(), &mut todos);
    assert_eq!(r, Err(TodoError::IndexOutOfRange));
    assert_eq!(todos, strings(&["a", "b"]));
}

#[test]
fn delete_shifts_later_items_left() {
    let mut todos = strings(&["a", "b", "c", "d"]);
    Commands::delete(1, &mut todos);
    assert_eq!(todos, strings(&["a", "c", "d"]));
}

#[test]
fn delete_out_of_range_is_rejected_and_list_kept() {
    let mut todos = strings(&["a"]);
    let r = Commands::try_delete(1, &mut todos);
    assert_eq!(r, Err(TodoError::IndexOutOfRange));
    assert_eq!(todos, strings(&["a"]));
}

#[test]
fn round_trip_reproduces_the_list() {
    let todos = strings(&["buy milk", "walk dog", "", "third item"]);
    assert_eq!(parse_todos(&serialize_todos(&todos)), todos);
}

#[test]
fn round_trip_of_empty_list() {
    let todos: Vec<String> = Vec::new();
    assert_eq!(serialize_todos(&todos), "");
    assert_eq!(parse_todos(""), todos);
}

#[test]
fn parse_handles_unterminated_final_line() {
    assert_eq!(parse_todos("a\nb"), strings(&["a", "b"]));
    assert_eq!(parse_todos("a\n"), strings(&["a"]));
    assert_eq!(parse_todos("\n"), strings(&[""]));
}

#[test]
fn scenario_create_update_delete_read() {
    // Start with empty storage.
    let mut stored = String::new();

    // create "buy milk"
    let mut todos = parse_todos(&stored);
    let cmd = parse_command(&strings(&["create", "buy milk"])).unwrap();
    cmd.try_operation(&mut todos).unwrap();
    stored = serialize_todos(&todos);
    assert_eq!(parse_todos(&stored), strings(&["buy milk"]));

    // create "walk dog"
    let mut todos = parse_todos(&stored);
    let cmd = parse_command(&strings(&["create", "walk dog"])).unwrap();
    cmd.try_operation(&mut todos).unwrap();
    stored = serialize_todos(&todos);
    assert_eq!(parse_todos(&stored), strings(&["buy milk", "walk dog"]));

    // update 0 "buy oat milk"
    let mut todos = parse_todos(&stored);
    let cmd = parse_command(&strings(&["update", "0", "buy oat milk"])).unwrap();
    cmd.try_operation(&mut todos).unwrap();
    stored = serialize_todos(&todos);
    assert_eq!(parse_todos(&stored), strings(&["buy oat milk", "walk dog"]));

    // delete 0
    let mut todos = parse_todos(&stored);
    let cmd = parse_command(&strings(&["delete", "0"])).unwrap();
    cmd.try_operation(&mut todos).unwrap();
    stored = serialize_todos(&todos);
    assert_eq!(parse_todos(&stored), strings(&["walk dog"]));

    // read: prints one line referencing index 0 and "walk dog"; file unchanged
    let mut todos = parse_todos(&stored);
    let cmd = parse_command(&strings(&["read"])).unwrap();
    cmd.try_operation(&mut todos).unwrap();
    let shown = Commands::read(&todos);
    assert!(shown.contains("0."));
    assert!(shown.contains("walk dog"));
    stored = serialize_todos(&todos);
    assert_eq!(parse_todos(&stored), strings(&["walk dog"]));
}

#[test]
fn parse_command_recognizes_all_four_shapes() {
    assert_eq!(
        parse_command(&strings(&["create", "x"])),
        Ok(Commands::Create { todo: "x".to_string() })
    );
    assert_eq!(parse_command(&strings(&["read"])), Ok(Commands::Read));
    assert_eq!(
        parse_command(&strings(&["update", "3", "y"])),
        Ok(Commands::Update { id: 3, desc: "y".to_string() })
    );
    assert_eq!(
        parse_command(&strings(&["delete", "65535"])),
        Ok(Commands::Delete { id: 65535 })
    );
}

#[test]
fn parse_command_rejects_wrong_shapes() {
    assert_eq!(parse_command(&strings(&[])), Err(ArgError::UnrecognizedShape));
    assert_eq!(parse_command(&strings(&["create"])), Err(ArgError::UnrecognizedShape));
    assert_eq!(
        parse_command(&strings(&["create", "a", "b"])),
        Err(ArgError::UnrecognizedShape)
    );
    assert_eq!(parse_command(&strings(&["read", "x"])), Err(ArgError::UnrecognizedShape));
    assert_eq!(parse_command(&strings(&["update", "1"])), Err(ArgError::UnrecognizedShape));
    assert_eq!(parse_command(&strings(&["remove", "1"])), Err(ArgError::UnrecognizedShape));
}

#[test]
fn parse_command_rejects_bad_indices() {
    assert_eq!(
        parse_command(&strings(&["update", "x", "y"])),
        Err(ArgError::InvalidIndex)
    );
    assert_eq!(parse_command(&strings(&["delete", ""])), Err(ArgError::InvalidIndex));
    assert_eq!(parse_command(&strings(&["delete", "65536"])), Err(ArgError::InvalidIndex));
    assert_eq!(parse_command(&strings(&["delete", "-1"])), Err(ArgError::InvalidIndex));
    assert_eq!(parse_command(&strings(&["delete", "1x"])), Err(ArgError::InvalidIndex));
}

#[test]
fn parse_u16_reads_decimal_digits() {
    assert_eq!(parse_u16("0"), Some(0));
    assert_eq!(parse_u16("007"), Some(7));
    assert_eq!(parse_u16("65535"), Some(65535));
    assert_eq!(parse_u16("65536"), None);
    assert_eq!(parse_u16("99999999999999999999"), None);
    assert_eq!(parse_u16(""), None);
    assert_eq!(parse_u16("1 2"), None);
}

#[test]
fn dec_string_writes_decimal() {
    assert_eq!(dec_string(0), "0");
    assert_eq!(dec_string(9), "9");
    assert_eq!(dec_string(10), "10");
    assert_eq!(dec_string(65535), "65535");
}

#[test]
fn str_eq_compares_by_characters() {
    assert!(str_eq("", ""));
    assert!(str_eq("abc", "abc"));
    assert!(!str_eq("abc", "abd"));
    assert!(!str_eq("abc", "ab"));
    assert!(str_eq("a b", "a b"));
}

#[test]
fn read_of_empty_list_is_the_notice() {
    let todos: Vec<String> = Vec::new();
    assert_eq!(Commands::read(&todos), "To-do list is empty.");
}

#[test]
fn read_renders_each_item_under_its_index() {
    let todos = strings(&["first", "second"]);
    let shown = Commands::read(&todos);
    assert!(shown.contains("Index:"));
    assert!(shown.contains("To-do:"));
    assert!(shown.contains("0."));
    assert!(shown.contains("first"));
    assert!(shown.contains("1."));
    assert!(shown.contains("second"));
    let first_at = shown.find("first").unwrap();
    let second_at = shown.find("second").unwrap();
    assert!(first_at < second_at);
}

#[test]
fn serialize_terminates_every_line() {
    let todos = strings(&["a"]);
    assert_eq!(serialize_todos(&todos), "a\n");
}

#[test]
fn operation_dispatches_like_the_direct_calls() {
    let mut todos = strings(&["a", "b"]);
    Commands::Create { todo: "c".to_string() }.operation(&mut todos);
    assert_eq!(todos, strings(&["a", "b", "c"]));
    Commands::Update { id: 0, desc: "A".to_string() }.operation(&mut todos);
    assert_eq!(todos, strings(&["A", "b", "c"]));
    Commands::Delete { id: 2 }.operation(&mut todos);
    assert_eq!(todos, strings(&["A", "b"]));
    Commands::Read.operation(&mut todos);
    assert_eq!(todos, strings(&["A", "b"]));
}

#[test]
fn usage_names_all_four_commands() {
    let u = usage();
    assert!(u.contains("create"));
    assert!(u.contains("read"));
    assert!(u.contains("update"));
    assert!(u.contains("delete"));
}
